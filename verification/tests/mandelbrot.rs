use latcarf::evaluate::iterate;
use latcarf::evaluate::iterate_escape;
use latcarf::evaluate::iterate_with_distance;
use latcarf::evaluate::mandelbrot_depth;
use latcarf::evaluate::MAX_ITERATIONS;
use latcarf::fixed::Fx;

#[test]
fn test_mandelbrot_depth() {
    assert!(mandelbrot_depth(Fx::from_int(0), Fx::from_int(0)).is_none());
    assert!(mandelbrot_depth(Fx::from_ratio(21, 10), Fx::from_int(0)).is_some());
    assert!(mandelbrot_depth(Fx::from_int(0), Fx::from_ratio(21, 10)).is_some());
}

#[test]
fn test_origin_in_set() {
    assert_eq!(iterate(Fx::from_int(0), Fx::from_int(0), MAX_ITERATIONS), MAX_ITERATIONS);
    assert!(iterate_escape(Fx::from_int(0), Fx::from_int(0), MAX_ITERATIONS).is_none());
    assert!(iterate_with_distance(Fx::from_int(0), Fx::from_int(0), MAX_ITERATIONS).is_none());
}

#[test]
fn test_escape_forms_agree() {
    let two_one = Fx::from_ratio(21, 10);
    let zero = Fx::from_int(0);

    let d1 = iterate(two_one, zero, MAX_ITERATIONS);
    assert!(d1 < MAX_ITERATIONS);
    assert_eq!(iterate_escape(two_one, zero, MAX_ITERATIONS), Some(d1));

    let d2 = iterate(zero, two_one, MAX_ITERATIONS);
    assert!(d2 < MAX_ITERATIONS);
    assert_eq!(iterate_escape(zero, two_one, MAX_ITERATIONS), Some(d2));

    // 2.1 is well outside the radius-2 disc: both points leave at once.
    assert_eq!(d1, 1);
    assert_eq!(d2, 1);
}

#[test]
fn test_iteration_idempotent() {
    let c_re = Fx::from_ratio(-3, 4);
    let c_im = Fx::from_ratio(1, 10);
    let a = iterate_with_distance(c_re, c_im, MAX_ITERATIONS);
    let b = iterate_with_distance(c_re, c_im, MAX_ITERATIONS);
    match (a, b) {
        (None, None) => (),
        (Some((ia, da)), Some((ib, db))) => {
            assert_eq!(ia, ib);
            assert_eq!(da.raw, db.raw);
        },
        _ => panic!("the two runs disagree"),
    }
    assert_eq!(
        iterate(c_re, c_im, MAX_ITERATIONS),
        iterate(c_re, c_im, MAX_ITERATIONS)
    );
}

#[test]
fn test_distance_none_iff_in_set() {
    let points = [
        (Fx::from_int(0), Fx::from_int(0)),
        (Fx::from_int(-1), Fx::from_int(0)),
        (Fx::from_ratio(1, 4), Fx::from_int(0)),
        (Fx::from_ratio(21, 10), Fx::from_int(0)),
        (Fx::from_int(1), Fx::from_int(1)),
    ];
    for (c_re, c_im) in points {
        let in_set = iterate(c_re, c_im, MAX_ITERATIONS) == MAX_ITERATIONS;
        assert_eq!(iterate_escape(c_re, c_im, MAX_ITERATIONS).is_none(), in_set);
        assert_eq!(iterate_with_distance(c_re, c_im, MAX_ITERATIONS).is_none(), in_set);
    }
}

#[test]
fn test_distance_at_minus_two() {
    // At c = -2 the first iterate lands exactly on the escape circle:
    // z = -2, z' = 1, so the estimate is |z| ln|z| / |z'| = 2 ln 2.
    let r = mandelbrot_depth(Fx::from_int(-2), Fx::from_int(0));
    let (depth, dist) = r.expect("the point escapes");
    assert_eq!(depth, 1);
    // 2 ln 2 in fixed point: twice the library's raw ln 2.
    assert_eq!(dist.raw, 2 * 2977044471);
}
