use fractal_tube::complex::Complex;
use fractal_tube::render::{
    check_cardio, escaped, in_bulb, in_cardioid, orbit_step, trace, Point,
};

fn reference_trace(re: f64, im: f64, n: usize) -> usize {
    let (mut zr, mut zi) = (re, im);
    for i in 1..n {
        let (r, j) = (zr * zr - zi * zi + re, zr * zi + zi * zr + im);
        zr = r;
        zi = j;
        if zr * zr + zi * zi > 4.0 {
            return i;
        }
    }
    0
}

#[test]
fn trace_of_zero_is_bounded_for_any_limit() {
    for n in [0usize, 1, 2, 3, 10, 256, 5000] {
        assert_eq!(trace(Complex::new(0.0f64, 0.0f64), n), 0);
    }
}

#[test]
fn trace_of_three_escapes_on_the_first_step() {
    for n in [2usize, 3, 32, 1000] {
        assert_eq!(trace(Complex::new(3.0f64, 0.0f64), n), 1);
    }
}

#[test]
fn trace_under_a_limit_too_small_to_step_is_zero() {
    assert_eq!(trace(Complex::new(3.0f64, 0.0f64), 0), 0);
    assert_eq!(trace(Complex::new(3.0f64, 0.0f64), 1), 0);
}

#[test]
fn trace_counts_the_steps_to_escape() {
    // c = 1: 1, 2, 5 -> |2|^2 = 4 is not above 4, |5|^2 is.
    assert_eq!(trace(Complex::new(1.0f64, 0.0f64), 32), 2);
    // c = i: i, -1 + i, -i, -1 + i, ... stays bounded.
    assert_eq!(trace(Complex::new(0.0f64, 1.0f64), 64), 0);
    // c = -2: the orbit sits on 2, whose squared magnitude is exactly 4.
    assert_eq!(trace(Complex::new(-2.0f64, 0.0f64), 64), 0);
    // c = 0.5: 0.5, 0.75, 1.0625, 1.6289.., 3.1533.. escapes at step 4.
    assert_eq!(trace(Complex::new(0.5f64, 0.0f64), 32), 4);
}

#[test]
fn trace_stops_at_the_limit() {
    // c = 0.5 escapes at step 4, which a limit of 4 does not reach.
    assert_eq!(trace(Complex::new(0.5f64, 0.0f64), 4), 0);
    assert_eq!(trace(Complex::new(0.5f64, 0.0f64), 5), 4);
}

#[test]
fn trace_agrees_with_the_recurrence_on_a_grid() {
    for a in -20..=20 {
        for b in -20..=20 {
            let (re, im) = (a as f64 * 0.11, b as f64 * 0.11);
            assert_eq!(trace(Complex::new(re, im), 48), reference_trace(re, im, 48));
        }
    }
}

#[test]
fn trace_works_in_single_precision() {
    assert_eq!(trace(Complex::new(3.0f32, 0.0f32), 8), 1);
    assert_eq!(trace(Complex::new(0.0f32, 0.0f32), 8), 0);
}

#[test]
fn check_cardio_knows_the_cardioid_and_the_bulb() {
    assert!(check_cardio(Complex::new(0.0f64, 0.0f64)));
    assert!(check_cardio(Complex::new(-0.5f64, 0.25f64)));
    assert!(check_cardio(Complex::new(-1.0f64, 0.0f64)));
    assert!(check_cardio(Complex::new(-1.1f64, 0.1f64)));
    assert!(!check_cardio(Complex::new(1.0f64, 0.0f64)));
    assert!(!check_cardio(Complex::new(-2.0f64, 0.0f64)));
    assert!(!check_cardio(Complex::new(0.0f64, 1.0f64)));
    assert!(!check_cardio(Complex::new(-0.75f64, 0.5f64)));
}

#[test]
fn check_cardio_never_changes_a_depth() {
    for a in -20..=20 {
        for b in -20..=20 {
            let c = Complex::new(a as f64 * 0.1, b as f64 * 0.1);
            if check_cardio(c) {
                assert_eq!(trace(c, 200), 0);
            }
        }
    }
}

#[test]
fn point_trace_stores_the_depth() {
    let mut p = Point::new();
    assert_eq!(p.depth, 0);
    p.trace(Complex::new(3.0f64, 0.0f64), 32);
    assert_eq!(p.depth, 1);
    p.trace(Complex::new(0.5f64, 0.0f64), 32);
    assert_eq!(p.depth, 4);
    p.trace(Complex::new(-1.0f64, 0.0f64), 32);
    assert_eq!(p.depth, 0);
}

#[test]
fn orbit_step_squares_and_adds() {
    let z = orbit_step(Complex::new(1.0f64, 2.0f64), Complex::new(0.5f64, -0.5f64));
    // (1 + 2i)^2 = -3 + 4i
    assert_eq!((z.re, z.im), (-2.5, 3.5));
    let z = orbit_step(Complex::new(0.0f64, 0.0f64), Complex::new(0.25f64, 0.0f64));
    assert_eq!((z.re, z.im), (0.25, 0.0));
}

#[test]
fn escaped_is_strictly_outside_radius_two() {
    assert!(!escaped(Complex::new(0.0f64, 0.0f64)));
    assert!(!escaped(Complex::new(2.0f64, 0.0f64)));
    assert!(!escaped(Complex::new(0.0f64, -2.0f64)));
    assert!(escaped(Complex::new(2.0f64, 0.001f64)));
    assert!(escaped(Complex::new(-1.5f64, 1.5f64)));
    assert!(!escaped(Complex::new(1.25f64, 1.5f64)));
    assert!(!escaped(Complex::new(f64::NAN, 0.0f64)));
}

#[test]
fn cardioid_and_bulb_are_told_apart() {
    assert!(in_cardioid(Complex::new(0.0f64, 0.0f64)));
    assert!(in_cardioid(Complex::new(0.2f64, 0.0f64)));
    assert!(in_cardioid(Complex::new(-0.5f64, 0.5f64)));
    assert!(!in_cardioid(Complex::new(-1.0f64, 0.0f64)));
    assert!(!in_cardioid(Complex::new(0.3f64, 0.0f64)));
    assert!(in_bulb(Complex::new(-1.0f64, 0.0f64)));
    assert!(in_bulb(Complex::new(-1.2f64, 0.1f64)));
    assert!(!in_bulb(Complex::new(-1.25f64, 0.0f64)));
    assert!(!in_bulb(Complex::new(-1.0f64, 0.25f64)));
    assert!(!in_bulb(Complex::new(0.0f64, 0.0f64)));
    for a in -25..=10 {
        for b in -15..=15 {
            let c = Complex::new(a as f64 * 0.1, b as f64 * 0.1);
            assert_eq!(check_cardio(c), in_cardioid(c) || in_bulb(c));
        }
    }
}
