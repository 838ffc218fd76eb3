use latcarf::evaluate::MAX_ITERATIONS;
use latcarf::fixed::Fx;
use latcarf::render::pixel_drawn;
use latcarf::render::render_frame;
use latcarf::viewport::scale_per_pixel;
use latcarf::viewport::pixel_to_complex;
use latcarf::viewport::Camera;

fn reference_camera() -> Camera {
    // offset (0, 0), scale 4/1920: the whole set in a 1920-wide window.
    Camera::new(Fx::from_int(0), Fx::from_int(0), Fx::from_ratio(4, 1920))
}

#[test]
fn test_scale_per_pixel_values() {
    // 4 plane units over 1920 pixels, rounded up: ceil(2^34 / 1920).
    assert_eq!(scale_per_pixel(1920).raw, 8947849);
    // Powers of two divide evenly.
    assert_eq!(scale_per_pixel(4).raw, 1 << 32);
    assert_eq!(scale_per_pixel(2048).raw, 1 << 23);
}

#[test]
fn test_scale_per_pixel_halves_when_width_doubles() {
    assert_eq!(scale_per_pixel(4096).raw * 2, scale_per_pixel(2048).raw);
    assert_eq!(scale_per_pixel(8).raw * 2, scale_per_pixel(4).raw);
}

#[test]
fn test_adjacent_pixels_one_step_apart() {
    let cam = reference_camera();
    let spp = scale_per_pixel(1920).raw;
    let (a, _) = pixel_to_complex(700, 300, 1920, 1080, &cam);
    let (b, _) = pixel_to_complex(701, 300, 1920, 1080, &cam);
    assert_eq!(b.raw - a.raw, spp);
    let (_, c) = pixel_to_complex(700, 300, 1920, 1080, &cam);
    let (_, d) = pixel_to_complex(700, 301, 1920, 1080, &cam);
    assert_eq!(d.raw - c.raw, spp);
}

#[test]
fn test_center_pixel_maps_to_origin_and_stays_dark() {
    let cam = reference_camera();
    let (c_re, c_im) = pixel_to_complex(960, 540, 1920, 1080, &cam);
    assert_eq!(c_re.raw, 0);
    assert_eq!(c_im.raw, 0);
    // The origin lies in the set: the pixel keeps the background.
    assert!(!pixel_drawn(960, 540, 1920, 1080, Fx::from_int(0), Fx::from_int(0), MAX_ITERATIONS));
}

#[test]
fn test_far_left_column_escapes_and_is_drawn() {
    let cam = reference_camera();
    let (c_re, c_im) = pixel_to_complex(0, 540, 1920, 1080, &cam);
    // -960 steps of the rounded-up scale land just left of -2.
    assert_eq!(c_re.raw, -960 * 8947849);
    assert!(c_re.raw <= -(2i64 << 32));
    assert_eq!(c_im.raw, 0);
    assert!(pixel_drawn(0, 540, 1920, 1080, Fx::from_int(0), Fx::from_int(0), MAX_ITERATIONS));
}

#[test]
fn test_render_frame_small() {
    // A 4 x 3 framebuffer around the origin: columns map to the real
    // parts -2, -1, 0, 1 and rows to the imaginary parts -1.5, -0.5, 0.5.
    let fb = render_frame(4, 3, Fx::from_int(0), Fx::from_int(0), MAX_ITERATIONS);
    assert_eq!(fb.len(), 12);
    // Pixel (0, 0) shows (-2, -1.5), far outside: drawn.
    assert!(fb[0]);
    // Pixel (2, 1) shows (0, -0.5), inside the set: background.
    assert!(!fb[2 * 3 + 1]);
}

#[test]
fn test_scroll_zooms_by_fixed_factor() {
    let mut cam = Camera::new(Fx::from_int(0), Fx::from_int(0), Fx::from_int(1));
    cam.apply_scroll(1);
    // One notch in: the scale becomes the fixed-point value of e^(-1/10).
    assert_eq!(cam.scale.raw, 3886247118);
    let mut cam2 = Camera::new(Fx::from_int(0), Fx::from_int(0), Fx::from_int(1));
    cam2.apply_scroll(-1);
    assert_eq!(cam2.scale.raw, 4746672949);
    assert_eq!(cam2.offset_re.raw, 0);
}

#[test]
fn test_drag_shifts_offset_against_motion() {
    let mut cam = Camera::new(Fx::from_int(0), Fx::from_int(0), Fx::from_int(1));
    cam.apply_drag(10, -5);
    // A drag of (10, -5) pixels at scale 1 moves the offset by (-10, -5).
    assert_eq!(cam.offset_re.raw, -10 * (1i64 << 32));
    assert_eq!(cam.offset_im.raw, -5 * (1i64 << 32));
    assert_eq!(cam.scale.raw, 1i64 << 32);
}
