//! Interactive Mandelbrot-set viewer, numeric core.
//!
//! The library holds everything of the viewer that computes: the escape-time
//! iteration over the complex plane, the distance estimator used to
//! anti-alias the set's boundary, the pixel-to-plane viewport transform with
//! its camera state, the per-pixel software rendering pass, the frame-time
//! window of the pacer, the shader-log and device-argument parsing, and the
//! glyph-atlas layout arithmetic. Window, GPU and font plumbing live outside.
//!
//! All plane arithmetic is done in a signed fixed-point representation with
//! 32 fractional bits (module [`fixed`]); its operations saturate at the
//! representation's bounds instead of overflowing, and every operation is
//! specified exactly, so each public function's result is pinned down to the
//! bit by its contract.

pub mod fixed;
pub mod evaluate;
pub mod viewport;
pub mod render;
pub mod pacer;
pub mod glsl;
pub mod cli;
pub mod text_atlas;
