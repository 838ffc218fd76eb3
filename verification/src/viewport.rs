//! The viewport: camera state and the pixel-to-plane transform.
//!
//! The transform spans 4 plane units over the framebuffer's width and puts
//! the camera's offset at the framebuffer's centre. Scale-per-pixel is the
//! span divided by the width, rounded up so that the whole span stays
//! covered; each pixel then advances the coordinate by exactly that amount,
//! so the transform is affine in the pixel coordinate.
//!
//! The camera mutates only under input events: a wheel notch multiplies the
//! scale by the fixed-point value of `e^(-1/10)` (or its inverse), clamped
//! to stay positive; a drag of `(dx, dy)` pixels moves the offset by
//! `(-dx * scale, +dy * scale)` — the vertical axis flips sign because
//! window coordinates grow downward while the imaginary axis grows upward.

use vstd::prelude::*;
use crate::fixed::Fx;
use crate::fixed::sat;
use crate::fixed::abs1;
use crate::fixed::spec_add;
use crate::fixed::spec_sub;
use crate::fixed::spec_mul;
use crate::fixed::spec_mul_int;
use crate::fixed::fx_add;
use crate::fixed::fx_sub;
use crate::fixed::fx_mul;
use crate::fixed::fx_mul_int;
use crate::fixed::clamp_i128;
use vstd::arithmetic::mul::lemma_mul_inequality;
use vstd::arithmetic::mul::lemma_mul_upper_bound;
use vstd::arithmetic::div_mod::lemma_fundamental_div_mod;
use vstd::arithmetic::div_mod::lemma_fundamental_div_mod_converse;
use vstd::arithmetic::div_mod::lemma_mod_bound;

verus! {

/// Raw fixed-point value of `e^(-1/10)`: what one inward wheel notch
/// multiplies the scale by.
pub const ZOOM_IN_RAW: i64 = 3886247118;

/// Raw fixed-point value of `e^(1/10)`: what one outward wheel notch
/// multiplies the scale by.
pub const ZOOM_OUT_RAW: i64 = 4746672949;

/// The pan/zoom state: the plane point at the framebuffer's centre and
/// the plane-units-per-pixel scale handed to the shader path.
pub struct Camera {
    pub offset_re: Fx,
    pub offset_im: Fx,
    pub scale: Fx,
}

/// Raw scale-per-pixel of a framebuffer `w` pixels wide: 4 plane units
/// over the width, rounded up.
pub open spec fn spec_scale_per_pixel(w: int) -> int {
    (0x4_0000_0000 + w - 1) / w
}

/// The real part a pixel column maps to: affine in the column, centred on
/// the camera offset.
pub open spec fn spec_pixel_to_complex_re(px: int, w: int, off: int) -> int {
    let spp = spec_scale_per_pixel(w);
    sat(px * spp - (w * spp) / 2 + off)
}

/// The imaginary part a pixel row maps to; the scale still comes from the
/// width, as the 4-unit span is horizontal.
pub open spec fn spec_pixel_to_complex_im(py: int, w: int, h: int, off: int) -> int {
    let spp = spec_scale_per_pixel(w);
    sat(py * spp - (h * spp) / 2 + off)
}

/// What one wheel notch leaves of the scale: the fixed-point product with
/// the zoom factor, clamped to stay positive.
pub open spec fn spec_zoom_once(scale: int, inward: bool) -> int {
    let z = if inward {
        spec_mul(scale, 3886247118)
    } else {
        spec_mul(scale, 4746672949)
    };
    if z < 1 {
        1
    } else {
        z
    }
}

/// What a whole scroll of `notches` notches leaves of the scale; positive
/// notches zoom in, negative ones zoom out.
pub open spec fn spec_zoom(scale: int, notches: int) -> int
    decreases abs1(notches),
{
    if notches == 0 {
        scale
    } else if notches > 0 {
        spec_zoom(spec_zoom_once(scale, true), notches - 1)
    } else {
        spec_zoom(spec_zoom_once(scale, false), notches + 1)
    }
}

/// Scale-per-pixel lies between 1 and the whole span.
pub proof fn lemma_scale_per_pixel_bounds(w: int)
    requires
        1 <= w,
    ensures
        1 <= spec_scale_per_pixel(w) <= 0x4_0000_0000,
{
    let x = 0x4_0000_0000 + w - 1;
    let q = spec_scale_per_pixel(w);
    lemma_fundamental_div_mod(x, w);
    lemma_mod_bound(x, w);
    if q <= 0 {
        lemma_mul_inequality(q, 0, w);
        assert(w * q <= 0);
        assert(false);
    }
    if q > 0x4_0000_0000 {
        lemma_mul_inequality(0x4_0000_0001int, q, w);
        assert(w * (0x4_0000_0000 + 1) <= w * q);
        assert(w * (0x4_0000_0000 + 1) == w * 0x4_0000_0000 + w) by (nonlinear_arith);
        lemma_mul_inequality(1, w, 0x4_0000_0000);
        assert(false);
    }
}

impl Camera {
    /// A camera with the given offset and a positive scale.
    pub fn new(offset_re: Fx, offset_im: Fx, scale: Fx) -> (r: Camera)
        requires
            scale.raw >= 1,
        ensures
            r.offset_re == offset_re,
            r.offset_im == offset_im,
            r.scale == scale,
    {
        Camera { offset_re, offset_im, scale }
    }

    /// Apply a whole wheel scroll to the scale; the offset stays.
    pub fn apply_scroll(&mut self, notches: i32)
        requires
            old(self).scale.raw >= 1,
        ensures
            final(self).scale.raw as int == spec_zoom(old(self).scale.raw as int, notches as int),
            final(self).scale.raw >= 1,
            final(self).offset_re == old(self).offset_re,
            final(self).offset_im == old(self).offset_im,
    {
        let ghost target: int = spec_zoom(self.scale.raw as int, notches as int);
        if notches >= 0 {
            let mut k: i32 = notches;
            while k > 0
                invariant
                    0 <= k,
                    self.scale.raw >= 1,
                    spec_zoom(self.scale.raw as int, k as int) == target,
                    self.offset_re == old(self).offset_re,
                    self.offset_im == old(self).offset_im,
                decreases k,
            {
                let z = fx_mul(self.scale, Fx { raw: ZOOM_IN_RAW });
                self.scale = if z.raw < 1 {
                    Fx { raw: 1 }
                } else {
                    z
                };
                k = k - 1;
            }
        } else {
            let mut k: i32 = notches;
            while k < 0
                invariant
                    k <= 0,
                    self.scale.raw >= 1,
                    spec_zoom(self.scale.raw as int, k as int) == target,
                    self.offset_re == old(self).offset_re,
                    self.offset_im == old(self).offset_im,
                decreases -k,
            {
                let z = fx_mul(self.scale, Fx { raw: ZOOM_OUT_RAW });
                self.scale = if z.raw < 1 {
                    Fx { raw: 1 }
                } else {
                    z
                };
                k = k + 1;
            }
        }
    }

    /// Apply a left-button drag of `(dx, dy)` pixels to the offset; the
    /// scale stays.
    pub fn apply_drag(&mut self, dx: i32, dy: i32)
        ensures
            final(self).offset_re.raw as int == spec_sub(
                old(self).offset_re.raw as int,
                spec_mul_int(dx as int, old(self).scale.raw as int),
            ),
            final(self).offset_im.raw as int == spec_add(
                old(self).offset_im.raw as int,
                spec_mul_int(dy as int, old(self).scale.raw as int),
            ),
            final(self).scale == old(self).scale,
    {
        let shift_re = fx_mul_int(dx as i64, self.scale);
        let shift_im = fx_mul_int(dy as i64, self.scale);
        self.offset_re = fx_sub(self.offset_re, shift_re);
        self.offset_im = fx_add(self.offset_im, shift_im);
    }
}

/// Scale-per-pixel of a framebuffer `w` pixels wide.
pub fn scale_per_pixel(w: u32) -> (r: Fx)
    requires
        w >= 1,
    ensures
        r.raw as int == spec_scale_per_pixel(w as int),
        1 <= r.raw <= 0x4_0000_0000i64,
{
    proof {
        lemma_scale_per_pixel_bounds(w as int);
    }
    let q: u64 = (0x4_0000_0000u64 + w as u64 - 1) / (w as u64);
    Fx { raw: q as i64 }
}

/// Map a pixel to the plane point it shows, under the given framebuffer
/// size and camera offset.
pub fn pixel_to_complex(px: u32, py: u32, w: u32, h: u32, cam: &Camera) -> (r: (Fx, Fx))
    requires
        1 <= w <= 65536,
        1 <= h <= 65536,
        px < w,
        py < h,
    ensures
        r.0.raw as int == spec_pixel_to_complex_re(px as int, w as int, cam.offset_re.raw as int),
        r.1.raw as int == spec_pixel_to_complex_im(
            py as int,
            w as int,
            h as int,
            cam.offset_im.raw as int,
        ),
{
    let spp = scale_per_pixel(w);
    let sppu: u64 = spp.raw as u64;
    proof {
        lemma_mul_upper_bound(px as int, 65536, sppu as int, 0x4_0000_0000);
        lemma_mul_upper_bound(py as int, 65536, sppu as int, 0x4_0000_0000);
        lemma_mul_upper_bound(w as int, 65536, sppu as int, 0x4_0000_0000);
        lemma_mul_upper_bound(h as int, 65536, sppu as int, 0x4_0000_0000);
    }
    let col: u64 = (px as u64) * sppu;
    let half_w: u64 = ((w as u64) * sppu) / 2;
    let row: u64 = (py as u64) * sppu;
    let half_h: u64 = ((h as u64) * sppu) / 2;
    let re_exact: i128 = (col as i128) - (half_w as i128) + (cam.offset_re.raw as i128);
    let im_exact: i128 = (row as i128) - (half_h as i128) + (cam.offset_im.raw as i128);
    (Fx { raw: clamp_i128(re_exact) }, Fx { raw: clamp_i128(im_exact) })
}

/// The transform is affine in the pixel column: within the representable
/// range, one pixel step moves the real part by exactly one
/// scale-per-pixel unit.
pub proof fn lemma_transform_affine(px: int, w: int, off: int)
    requires
        1 <= w <= 65536,
        0 <= px,
        px + 1 < w,
        abs1(off) <= 0x7000_0000_0000_0000,
    ensures
        spec_pixel_to_complex_re(px + 1, w, off) - spec_pixel_to_complex_re(px, w, off)
            == spec_scale_per_pixel(w),
{
    let spp = spec_scale_per_pixel(w);
    lemma_scale_per_pixel_bounds(w);
    lemma_mul_upper_bound(px, 65536, spp, 0x4_0000_0000);
    lemma_mul_upper_bound(px + 1, 65536, spp, 0x4_0000_0000);
    lemma_mul_upper_bound(w, 65536, spp, 0x4_0000_0000);
    assert((px + 1) * spp == px * spp + spp) by (nonlinear_arith);
    assert(px * spp >= 0) by (nonlinear_arith)
        requires
            px >= 0,
            spp >= 0,
    ;
    assert(w * spp >= 0) by (nonlinear_arith)
        requires
            w >= 0,
            spp >= 0,
    ;
    lemma_mod_bound(w * spp, 2);
    lemma_fundamental_div_mod(w * spp, 2);
}

/// The transform is affine in the pixel row as well: one row step moves
/// the imaginary part by exactly one scale-per-pixel unit, the scale
/// still taken from the width.
pub proof fn lemma_transform_affine_im(py: int, w: int, h: int, off: int)
    requires
        1 <= w <= 65536,
        1 <= h <= 65536,
        0 <= py,
        py + 1 < h,
        abs1(off) <= 0x7000_0000_0000_0000,
    ensures
        spec_pixel_to_complex_im(py + 1, w, h, off) - spec_pixel_to_complex_im(py, w, h, off)
            == spec_scale_per_pixel(w),
{
    let spp = spec_scale_per_pixel(w);
    lemma_scale_per_pixel_bounds(w);
    lemma_mul_upper_bound(py, 65536, spp, 0x4_0000_0000);
    lemma_mul_upper_bound(py + 1, 65536, spp, 0x4_0000_0000);
    lemma_mul_upper_bound(h, 65536, spp, 0x4_0000_0000);
    assert((py + 1) * spp == py * spp + spp) by (nonlinear_arith);
    assert(py * spp >= 0) by (nonlinear_arith)
        requires
            py >= 0,
            spp >= 0,
    ;
    assert(h * spp >= 0) by (nonlinear_arith)
        requires
            h >= 0,
            spp >= 0,
    ;
    lemma_mod_bound(h * spp, 2);
    lemma_fundamental_div_mod(h * spp, 2);
}

/// Doubling the framebuffer width halves scale-per-pixel, whenever the
/// scale-per-pixel of the narrow framebuffer is even; rounding up makes
/// an odd value fall short by half a raw unit.
pub proof fn lemma_scale_per_pixel_halves(w: int)
    requires
        1 <= w,
        spec_scale_per_pixel(w) % 2 == 0,
    ensures
        spec_scale_per_pixel(2 * w) == spec_scale_per_pixel(w) / 2,
{
    let x = 0x4_0000_0000int;
    let q = spec_scale_per_pixel(w);
    let q2 = q / 2;
    lemma_fundamental_div_mod(x + w - 1, w);
    lemma_mod_bound(x + w - 1, w);
    assert(x + w - 1 == w * q + (x + w - 1) % w);
    assert(w * q >= x) by {
        assert(x + w - 1 < w * q + w);
    }
    assert(w * q <= x + w - 1);
    assert(q == 2 * q2);
    let r2 = x + 2 * w - 1 - (2 * w) * q2;
    assert((2 * w) * q2 == w * q) by (nonlinear_arith)
        requires
            q == 2 * q2,
    ;
    assert(0 <= r2 < 2 * w);
    lemma_fundamental_div_mod_converse(x + 2 * w - 1, 2 * w, q2, r2);
}

} // verus!
