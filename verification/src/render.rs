//! The per-pixel software rendering pass.
//!
//! Every pixel of the framebuffer maps through the viewport transform to a
//! plane point, the point is evaluated with the distance estimator, and
//! the pixel is drawn exactly when the point escaped and its estimated
//! distance to the set's boundary exceeds a quarter of scale-per-pixel —
//! the threshold that keeps the drawn boundary's thickness roughly
//! scale-invariant. Pixels run in the reference order: columns outer,
//! rows inner, so pixel `(x, y)` lands at index `x * h + y`.

use vstd::prelude::*;
use crate::fixed::Fx;
use crate::fixed::spec_mul;
use crate::fixed::fx_mul;
use crate::evaluate::spec_distance_result;
use crate::evaluate::iterate_with_distance;
use crate::viewport::Camera;
use crate::viewport::spec_scale_per_pixel;
use crate::viewport::spec_pixel_to_complex_re;
use crate::viewport::spec_pixel_to_complex_im;
use crate::viewport::scale_per_pixel;
use crate::viewport::pixel_to_complex;
use vstd::arithmetic::div_mod::lemma_fundamental_div_mod_converse;
use vstd::arithmetic::mul::lemma_mul_upper_bound;

verus! {

/// The draw threshold of a framebuffer `w` pixels wide: a quarter of
/// scale-per-pixel, truncated.
pub open spec fn spec_draw_threshold(w: int) -> int {
    spec_mul(spec_scale_per_pixel(w), 0x4000_0000)
}

/// Whether a pixel is drawn: its plane point escaped, and the estimated
/// distance lies strictly above the threshold.
pub open spec fn spec_pixel_drawn(
    px: int,
    py: int,
    w: int,
    h: int,
    off_re: int,
    off_im: int,
    max: nat,
) -> bool {
    let cr = spec_pixel_to_complex_re(px, w, off_re);
    let ci = spec_pixel_to_complex_im(py, w, h, off_im);
    match spec_distance_result(cr, ci, max) {
        None => false,
        Some(p) => p.1 > spec_draw_threshold(w),
    }
}

/// Decide one pixel.
pub fn pixel_drawn(px: u32, py: u32, w: u32, h: u32, off_re: Fx, off_im: Fx, max_iterations: u32) -> (b:
    bool)
    requires
        1 <= w <= 65536,
        1 <= h <= 65536,
        px < w,
        py < h,
    ensures
        b == spec_pixel_drawn(
            px as int,
            py as int,
            w as int,
            h as int,
            off_re.raw as int,
            off_im.raw as int,
            max_iterations as nat,
        ),
{
    let cam = Camera { offset_re: off_re, offset_im: off_im, scale: Fx { raw: 1 } };
    let (cr, ci) = pixel_to_complex(px, py, w, h, &cam);
    match iterate_with_distance(cr, ci, max_iterations) {
        None => false,
        Some((_depth, d)) => {
            let thr = fx_mul(scale_per_pixel(w), Fx { raw: 0x4000_0000 });
            d.raw > thr.raw
        },
    }
}

/// In the raster order used here, the flat index `x * h + y` decomposes
/// back into its column and row.
pub proof fn lemma_raster_index(x: int, y: int, h: int)
    requires
        0 <= x,
        0 <= y < h,
    ensures
        (x * h + y) / h == x,
        (x * h + y) % h == y,
{
    assert(x * h + y >= 0) by (nonlinear_arith)
        requires
            0 <= x,
            0 <= y,
            0 < h,
    ;
    lemma_fundamental_div_mod_converse(x * h + y, h, x, y);
}

/// Render one frame: the drawn flag of every pixel, columns outer, rows
/// inner, over a framebuffer cleared to the background.
pub fn render_frame(w: u32, h: u32, off_re: Fx, off_im: Fx, max_iterations: u32) -> (fb: Vec<
    bool,
>)
    requires
        1 <= w <= 65536,
        1 <= h <= 65536,
        w * h <= 0x4000_0000,
    ensures
        fb.len() == w * h,
        forall|i: int|
            0 <= i < fb.len() ==> fb[i] == spec_pixel_drawn(
                i / (h as int),
                i % (h as int),
                w as int,
                h as int,
                off_re.raw as int,
                off_im.raw as int,
                max_iterations as nat,
            ),
{
    let mut fb: Vec<bool> = Vec::new();
    let mut x: u32 = 0;
    while x < w
        invariant
            x <= w,
            1 <= w <= 65536,
            1 <= h <= 65536,
            w * h <= 0x4000_0000,
            fb.len() == x * h,
            forall|i: int|
                0 <= i < fb.len() ==> fb[i] == spec_pixel_drawn(
                    i / (h as int),
                    i % (h as int),
                    w as int,
                    h as int,
                    off_re.raw as int,
                    off_im.raw as int,
                    max_iterations as nat,
                ),
        decreases w - x,
    {
        let mut y: u32 = 0;
        proof {
            lemma_mul_upper_bound(x as int, w as int - 1, h as int, h as int);
            assert((w as int - 1) * (h as int) + (h as int) == (w as int) * (h as int))
                by (nonlinear_arith);
        }
        while y < h
            invariant
                y <= h,
                x < w,
                1 <= w <= 65536,
                1 <= h <= 65536,
                w * h <= 0x4000_0000,
                fb.len() == x * h + y,
                (x as int) * (h as int) + (h as int) <= (w as int) * (h as int),
                forall|i: int|
                    0 <= i < fb.len() ==> fb[i] == spec_pixel_drawn(
                        i / (h as int),
                        i % (h as int),
                        w as int,
                        h as int,
                        off_re.raw as int,
                        off_im.raw as int,
                        max_iterations as nat,
                    ),
            decreases h - y,
        {
            let b = pixel_drawn(x, y, w, h, off_re, off_im, max_iterations);
            proof {
                lemma_raster_index(x as int, y as int, h as int);
            }
            fb.push(b);
            y = y + 1;
        }
        x = x + 1;
        proof {
            assert((x as int) * (h as int) == (x as int - 1) * (h as int) + (h as int))
                by (nonlinear_arith);
        }
    }
    fb
}

} // verus!
