//! Layout arithmetic of the glyph atlas.
//!
//! The atlas holds one raster of every printable ASCII character, packed
//! into rows of a square canvas. These functions enumerate the printable
//! characters, estimate the square's side from the glyphs' measured
//! sizes, and place one glyph after another, wrapping to a new row when a
//! glyph would cross the canvas's right edge. Measuring and rasterising
//! the glyphs is the font library's work; only the measurements come
//! through here, as plain widths and heights.

use vstd::prelude::*;
use vstd::arithmetic::mul::lemma_mul_upper_bound;
use crate::fixed::spec_isqrt;
use crate::fixed::isqrt_u128;

verus! {

/// The printable ASCII characters, space through tilde, in order.
pub struct PrintableChars {
    code: u8,
}

impl PrintableChars {
    /// The code of the character handed out next.
    pub closed spec fn spec_code(self) -> int {
        self.code as int
    }

    /// The cursor stays within the printable range and one past it.
    pub closed spec fn wf(self) -> bool {
        32 <= self.code <= 127
    }

    /// Start at the first printable character, the space.
    pub fn new() -> (r: PrintableChars)
        ensures
            r.wf(),
            r.spec_code() == 32,
    {
        PrintableChars { code: 32 }
    }

    /// The next printable character, or nothing once the tilde has been
    /// handed out.
    pub fn next(&mut self) -> (r: Option<char>)
        requires
            old(self).wf(),
        ensures
            final(self).wf(),
            old(self).spec_code() <= 126 ==> final(self).spec_code() == old(self).spec_code() + 1
                && (match r {
                Some(c) => c as u32 == old(self).spec_code(),
                None => false,
            }),
            old(self).spec_code() == 127 ==> r is None && final(self).spec_code() == old(
                self,
            ).spec_code(),
    {
        let code = self.code;
        if code <= 126 {
            self.code = code + 1;
            Some(code as char)
        } else {
            None
        }
    }
}

/// Total horizontal advance of a run of glyph sizes, each width followed
/// by a one-sided padding.
pub open spec fn spec_total_advance(dims: Seq<(u32, u32)>, padding: int) -> int
    decreases dims.len(),
{
    if dims.len() == 0 {
        0
    } else {
        spec_total_advance(dims.drop_last(), padding) + dims.last().0 + padding
    }
}

/// Height of the tallest glyph of a run.
pub open spec fn spec_max_height(dims: Seq<(u32, u32)>) -> int
    decreases dims.len(),
{
    if dims.len() == 0 {
        0
    } else {
        let rest = spec_max_height(dims.drop_last());
        if dims.last().1 > rest {
            dims.last().1 as int
        } else {
            rest
        }
    }
}

/// The estimated side of a square atlas for the measured glyphs: the
/// glyphs' total area, grown by two extra rows for line breakage and
/// margin, under an integer square root.
pub open spec fn spec_atlas_side(dims: Seq<(u32, u32)>, padding: int) -> int {
    let area = spec_total_advance(dims, padding) * spec_max_height(dims);
    spec_isqrt(area + spec_isqrt(area) * spec_max_height(dims) * 2)
}

/// Estimate the square atlas size needed for glyphs of the measured
/// sizes, padding taken one-sided.
pub fn estimate_atlas_size(dims: &Vec<(u32, u32)>, padding: u32) -> (r: (u64, u64))
    requires
        dims.len() <= 65536,
        padding <= 256,
        forall|i: int|
            0 <= i < dims@.len() ==> (#[trigger] dims@[i]).0 <= 65535 && dims@[i].1 <= 65535,
    ensures
        r.0 == spec_atlas_side(dims@, padding as int),
        r.1 == r.0,
{
    let mut total: u64 = 0;
    let mut maxh: u64 = 0;
    let mut j: usize = 0;
    while j < dims.len()
        invariant
            j <= dims@.len(),
            dims@.len() <= 65536,
            padding <= 256,
            forall|i: int|
                0 <= i < dims@.len() ==> (#[trigger] dims@[i]).0 <= 65535 && dims@[i].1 <= 65535,
            total as int == spec_total_advance(dims@.take(j as int), padding as int),
            total <= (j as int) * 65791,
            maxh as int == spec_max_height(dims@.take(j as int)),
            maxh <= 65535,
        decreases dims@.len() - j,
    {
        let (w, h) = dims[j];
        proof {
            assert(dims@.take(j as int + 1).drop_last() =~= dims@.take(j as int));
            assert(dims@.take(j as int + 1).last() == dims@[j as int]);
        }
        total = total + w as u64 + padding as u64;
        if h as u64 > maxh {
            maxh = h as u64;
        }
        j = j + 1;
    }
    proof {
        assert(dims@.take(dims@.len() as int) =~= dims@);
        lemma_mul_upper_bound(total as int, 4312137728, maxh as int, 65535);
    }
    let area: u64 = total * maxh;
    let s1: u64 = isqrt_u128(area as u128);
    proof {
        assert(s1 < 0x2_000_000u64) by (nonlinear_arith)
            requires
                0 <= s1,
                (s1 as int) * (s1 as int) <= area as int,
                area < 0x4_0000_0000_0000u64,
        ;
        lemma_mul_upper_bound(s1 as int, 0x2_000_000, (maxh as int) * 2, 131070);
        assert((s1 as int) * ((maxh as int) * 2) == ((s1 as int) * (maxh as int)) * 2)
            by (nonlinear_arith);
    }
    let grown: u64 = area + s1 * (maxh * 2);
    let side: u64 = isqrt_u128(grown as u128);
    (side, side)
}

/// The cursor that packs glyphs into the atlas's rows, and the wrap rule
/// it follows.
pub struct AtlasCursor {
    pub x: u64,
    pub y: u64,
}

impl AtlasCursor {
    /// Start at the canvas's top-left corner.
    pub fn new() -> (r: AtlasCursor)
        ensures
            r.x == 0,
            r.y == 0,
    {
        AtlasCursor { x: 0, y: 0 }
    }

    /// Place one glyph: where its raster lands, or nothing for an empty
    /// glyph, which is skipped. A glyph whose padded advance would reach
    /// the canvas's right edge opens a new row of the given height first.
    pub fn place(&mut self, glyph_w: u32, padding: u32, canvas_w: u32, row_h: u32) -> (pos: Option<
        (u64, u64),
    >)
        requires
            old(self).x <= 0x2_0000_0000,
            old(self).y <= 0x2_0000_0000,
        ensures
            glyph_w == 0 ==> pos is None && *final(self) == *old(self),
            glyph_w > 0 ==> ({
                let adv = old(self).x + glyph_w + padding;
                if adv >= canvas_w {
                    &&& pos == Some((0u64, (old(self).y + row_h) as u64))
                    &&& final(self).x == glyph_w + padding
                    &&& final(self).y == old(self).y + row_h
                } else {
                    &&& pos == Some((old(self).x, old(self).y))
                    &&& final(self).x == adv
                    &&& final(self).y == old(self).y
                }
            }),
    {
        if glyph_w == 0 {
            return None;
        }
        let adv: u64 = self.x + glyph_w as u64 + padding as u64;
        if adv >= canvas_w as u64 {
            let pos_y: u64 = self.y + row_h as u64;
            self.x = glyph_w as u64 + padding as u64;
            self.y = pos_y;
            Some((0, pos_y))
        } else {
            let pos = Some((self.x, self.y));
            self.x = adv;
            pos
        }
    }
}

} // verus!
