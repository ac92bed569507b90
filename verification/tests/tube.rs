use fractal_tube::complex::Complex;
use fractal_tube::render::{Ring, Status, Tube};
use std::time::Duration;

fn reference_depth(re: f64, im: f64, n: usize) -> usize {
    let re_4 = re - 0.25;
    let im2 = im * im;
    let p = (re_4 * re_4 + im2).sqrt();
    let re1 = re + 1.0;
    if re_4 < p - 2.0 * p * p || re1 * re1 + im2 < 0.0625 {
        return 0;
    }
    let (mut zr, mut zi) = (re, im);
    for i in 1..n {
        let (r, j) = (zr * zr - zi * zi + re, zr * zi + zi * zr + im);
        zr = r;
        zi = j;
        if zr * zr + zi * zi > 4.0 {
            return i;
        }
    }
    0
}

fn reference_sample(origin: (f64, f64), rad: f64, step: f64, seg: usize, i: usize, k: usize) -> (f64, f64) {
    let zoom = rad * step.powi(-(i as i32));
    let a = 2.0 * std::f64::consts::PI / (seg as f64);
    let ra = a * (k as f64);
    let (c, s) = (ra.cos(), ra.sin());
    (origin.0 + (zoom * c - 0.0 * s), origin.1 + (zoom * s + 0.0 * c))
}

fn small_tube() -> Tube<f64> {
    Tube::new(2.0, 8, 1.25, 32)
}

#[test]
fn new_tube_is_empty_and_anchored_at_zero() {
    let t = small_tube();
    assert_eq!((t.pos.re, t.pos.im), (0.0, 0.0));
    assert_eq!(t.rad, 2.0);
    assert_eq!(t.seg, 8);
    assert_eq!(t.step, 1.25);
    assert_eq!(t.depth, 32);
    assert_eq!(t.rings.len(), 0);
    assert!(!t.zero);
}

#[test]
fn end_to_end_first_ring() {
    let mut t = small_tube();
    assert_eq!(t.render(0, 1, Duration::from_secs(1)), Status::Done);
    assert_eq!(t.rings.len(), 1);
    assert!(t.rings[0].done);
    assert_eq!(t.rings[0].points.len(), 8);
    let mut again = small_tube();
    assert_eq!(again.render(0, 1, Duration::from_secs(1)), Status::Done);
    for k in 0..8 {
        assert_eq!(t.get(0, k), again.get(0, k));
        let (re, im) = reference_sample((0.0, 0.0), 2.0, 1.25, 8, 0, k);
        assert_eq!(t.get(0, k), reference_depth(re, im, 32));
        assert_eq!(t.get(0, k), t.rings[0].points[k].depth);
    }
    // On the circle of radius 2 every sample but the one at -2 leaves at once.
    let ring: Vec<usize> = (0..8).map(|k| t.get(0, k)).collect();
    assert_eq!(ring, vec![1, 1, 1, 1, 14, 1, 1, 1]);
}

#[test]
fn rendered_depths_follow_the_generation_formula() {
    let origin = (-0.75, 0.1);
    let mut t: Tube<f64> = Tube::new(1.5, 16, 1.5, 64);
    t.put(Complex::new(origin.0, origin.1));
    assert_eq!(t.render(0, 12, Duration::from_secs(5)), Status::Done);
    let mut distinct = std::collections::BTreeSet::new();
    for i in 0..12 {
        for k in 0..16 {
            let (re, im) = reference_sample(origin, 1.5, 1.5, 16, i, k);
            assert_eq!(t.get(i, k), reference_depth(re, im, 64));
            assert!(t.get(i, k) < 64);
            distinct.insert(t.get(i, k));
        }
    }
    assert!(distinct.len() > 3);
}

#[test]
fn render_until_idle_completes_the_window() {
    let mut t: Tube<f64> = Tube::new(2.0, 64, 1.1, 256);
    let mut timeout = Duration::from_nanos(0);
    let mut steps = 0;
    loop {
        let status = t.render(2, 9, timeout);
        steps += 1;
        if status == Status::Idle {
            break;
        }
        assert!(steps <= 8);
        timeout = timeout * 2 + Duration::from_nanos(1);
    }
    assert_eq!(t.rings.len(), 9);
    for i in 2..9 {
        assert!(t.rings[i].done);
        assert_eq!(t.rings[i].points.len(), 64);
    }
    assert!(!t.rings[0].done);
    assert!(!t.rings[1].done);
    let depths: Vec<Vec<usize>> =
        (0..9).map(|i| (0..64).map(|k| t.get(i, k)).collect()).collect();
    for _ in 0..3 {
        assert_eq!(t.render(2, 9, Duration::from_secs(1)), Status::Idle);
        assert_eq!(t.render(2, 9, Duration::from_nanos(0)), Status::Idle);
    }
    assert_eq!(t.rings.len(), 9);
    for i in 0..9 {
        for k in 0..64 {
            assert_eq!(t.get(i, k), depths[i][k]);
        }
    }
}

#[test]
fn a_step_that_times_out_keeps_what_it_completed() {
    let mut t: Tube<f64> = Tube::new(2.0, 256, 1.05, 512);
    let status = t.render(0, 4, Duration::from_nanos(0));
    assert_eq!(status, Status::Timeout);
    assert_eq!(t.rings.len(), 4);
    assert!(t.rings[0].done);
    assert!(!t.rings[1].done);
    assert!(!t.rings[3].done);
    assert_eq!(t.get(1, 0), 0);
    let first: Vec<usize> = (0..256).map(|k| t.get(0, k)).collect();
    assert_eq!(t.render(0, 4, Duration::from_secs(5)), Status::Done);
    for k in 0..256 {
        assert_eq!(t.get(0, k), first[k]);
    }
    for i in 0..4 {
        assert!(t.rings[i].done);
    }
}

#[test]
fn every_step_that_is_not_idle_completes_a_ring() {
    let mut t: Tube<f64> = Tube::new(2.0, 128, 1.05, 512);
    let mut done_before = 0;
    for _ in 0..6 {
        let status = t.render(0, 6, Duration::from_nanos(0));
        let done_now = t.rings.iter().filter(|r| r.done).count();
        if status == Status::Idle {
            assert_eq!(done_now, 6);
            assert_eq!(done_now, done_before);
        } else {
            assert!(done_now > done_before);
        }
        done_before = done_now;
    }
    assert_eq!(t.render(0, 6, Duration::from_nanos(0)), Status::Idle);
}

#[test]
fn rings_done_before_are_not_computed_again() {
    let mut t = small_tube();
    assert_eq!(t.render(1, 3, Duration::from_secs(1)), Status::Done);
    t.rings[1].points[0].depth = 4242;
    assert_eq!(t.render(0, 3, Duration::from_secs(1)), Status::Done);
    assert_eq!(t.get(1, 0), 4242);
    assert!(t.rings[0].done);
}

#[test]
fn an_empty_window_is_idle() {
    let mut t = small_tube();
    assert_eq!(t.render(0, 0, Duration::from_secs(1)), Status::Idle);
    assert_eq!(t.rings.len(), 0);
    assert_eq!(t.render(5, 3, Duration::from_secs(1)), Status::Idle);
    assert_eq!(t.rings.len(), 3);
    assert!(t.rings.iter().all(|r| !r.done));
    assert_eq!(t.render(3, 3, Duration::from_secs(1)), Status::Idle);
}

#[test]
fn put_discards_every_ring() {
    let mut t = small_tube();
    assert_eq!(t.render(0, 5, Duration::from_secs(1)), Status::Done);
    assert_eq!(t.get(0, 0), 1);
    t.zero = true;
    t.put(Complex::new(0.25, -0.5));
    assert_eq!((t.pos.re, t.pos.im), (0.25, -0.5));
    assert_eq!(t.rings.len(), 0);
    assert!(!t.zero);
    assert_eq!((t.rad, t.seg, t.step, t.depth), (2.0, 8, 1.25, 32));
    for i in 0..6 {
        for k in 0..9 {
            assert_eq!(t.get(i, k), 0);
        }
    }
}

#[test]
fn put_then_render_samples_around_the_new_origin() {
    let mut t = small_tube();
    assert_eq!(t.render(0, 2, Duration::from_secs(1)), Status::Done);
    t.put(Complex::new(-1.0, 0.0));
    assert_eq!(t.render(0, 2, Duration::from_secs(1)), Status::Done);
    for i in 0..2 {
        for k in 0..8 {
            let (re, im) = reference_sample((-1.0, 0.0), 2.0, 1.25, 8, i, k);
            assert_eq!(t.get(i, k), reference_depth(re, im, 32));
        }
    }
}

#[test]
fn get_answers_zero_out_of_range() {
    let mut t = small_tube();
    assert_eq!(t.get(0, 0), 0);
    assert_eq!(t.render(0, 2, Duration::from_secs(1)), Status::Done);
    assert_eq!(t.get(0, 0), 1);
    assert_eq!(t.get(0, 8), 0);
    assert_eq!(t.get(0, usize::MAX), 0);
    assert_eq!(t.get(2, 0), 0);
    assert_eq!(t.get(usize::MAX, 0), 0);
    assert_eq!(t.get(usize::MAX, usize::MAX), 0);
    assert_eq!(t.get((-1i64) as usize, (-1i64) as usize), 0);
}

#[test]
fn get_answers_zero_for_a_ring_that_is_not_done() {
    let mut t = small_tube();
    assert_eq!(t.render(0, 1, Duration::from_secs(1)), Status::Done);
    assert_eq!(t.get(0, 0), 1);
    t.rings[0].done = false;
    assert_eq!(t.get(0, 0), 0);
}

#[test]
fn get_survives_a_ring_that_is_too_short() {
    let mut t = small_tube();
    assert_eq!(t.render(0, 1, Duration::from_secs(1)), Status::Done);
    t.rings[0].points.truncate(3);
    assert_eq!(t.get(0, 2), 1);
    assert_eq!(t.get(0, 3), 0);
    assert_eq!(t.get(0, 7), 0);
}

#[test]
fn ring_radius_decays_geometrically() {
    let t = small_tube();
    assert_eq!(t.ring_radius(0), 2.0);
    assert_eq!(t.ring_radius(1), 1.6);
    assert_eq!(t.ring_radius(2), 2.0 * 1.25f64.powi(-2));
    for i in 0..200 {
        assert!(t.ring_radius(i) > t.ring_radius(i + 1));
        assert!(t.ring_radius(i + 1) > 0.0);
    }
    let ratio = t.ring_radius(10) / t.ring_radius(11);
    assert!((ratio - 1.25).abs() < 1e-12);
}

#[test]
fn ring_radius_takes_any_index() {
    let t = small_tube();
    assert_eq!(t.ring_radius(usize::MAX), 0.0);
    assert_eq!(t.ring_radius(i32::MAX as usize), 0.0);
}

#[test]
fn ring_render_fills_and_reports_all_zero() {
    let mut inside = Ring::new();
    assert!(!inside.done);
    assert_eq!(inside.points.len(), 0);
    let zero = inside.render(12, Complex::new(0.0f64, 0.0), Complex::new(0.125, 0.0), 64);
    assert!(zero);
    assert!(inside.done);
    assert_eq!(inside.points.len(), 12);
    assert!(inside.points.iter().all(|p| p.depth == 0));

    let mut outside = Ring::new();
    let zero = outside.render(12, Complex::new(0.0f64, 0.0), Complex::new(3.0, 0.0), 64);
    assert!(!zero);
    assert!(outside.points.iter().all(|p| p.depth == 1));

    let mut empty = Ring::new();
    assert!(empty.render(0, Complex::new(0.0f64, 0.0), Complex::new(3.0, 0.0), 64));
    assert!(empty.done);
    assert_eq!(empty.points.len(), 0);
}

#[test]
fn ring_render_resizes_a_ring_rendered_before() {
    let mut ring = Ring::new();
    ring.render(12, Complex::new(0.0f64, 0.0), Complex::new(3.0, 0.0), 64);
    ring.render(5, Complex::new(0.0f64, 0.0), Complex::new(0.125, 0.0), 64);
    assert_eq!(ring.points.len(), 5);
    assert!(ring.points.iter().all(|p| p.depth == 0));
}

#[test]
fn rad_pos_finds_ring_and_slot() {
    let t = small_tube();
    assert_eq!(t.rad_pos(Complex::new(2.0, 0.0)), (0, 0));
    assert_eq!(t.rad_pos(Complex::new(2.0, 1.0)), (0, 0));
    assert_eq!(t.rad_pos(Complex::new(1.0, 2.0)), (0, 1));
    assert_eq!(t.rad_pos(Complex::new(-1.0, 2.0)), (0, 2));
    assert_eq!(t.rad_pos(Complex::new(-2.0, -1.0)), (0, 4));
    assert_eq!(t.rad_pos(Complex::new(1.0, -2.0)), (0, 6));
    assert_eq!(t.rad_pos(Complex::new(0.5, 0.25)), (6, 0));
    assert_eq!(t.rad_pos(Complex::new(100.0, 1.0)), (0, 0));
}

#[test]
fn rad_pos_is_relative_to_the_origin() {
    let mut t = small_tube();
    t.put(Complex::new(10.0, -10.0));
    assert_eq!(t.rad_pos(Complex::new(10.5, -9.75)), (6, 0));
    assert_eq!(t.rad_pos(Complex::new(9.0, -8.0)), (0, 2));
}

#[test]
fn rad_pos_at_the_origin_saturates() {
    let t = small_tube();
    let (ir, ip) = t.rad_pos(Complex::new(0.0, 0.0));
    assert_eq!(ir, usize::MAX);
    assert_eq!(ip, 0);
    assert_eq!(t.get(ir, ip), 0);
}

#[test]
fn rad_pos_keeps_the_slot_in_range() {
    let t = small_tube();
    for a in -50..=50 {
        for b in -50..=50 {
            let (_, ip) = t.rad_pos(Complex::new(a as f64 * 0.07, b as f64 * 0.07));
            assert!(ip < 8);
        }
    }
    let (_, ip) = t.rad_pos(Complex::new(1.0, -1e-300));
    assert_eq!(ip, 7);
    let (_, ip) = t.rad_pos(Complex::new(f64::NAN, 1.0));
    assert_eq!(ip, 0);
    let none: Tube<f64> = Tube::new(2.0, 0, 1.25, 32);
    assert_eq!(none.rad_pos(Complex::new(1.0, 2.0)).1, 0);
}

#[test]
fn rad_pos_inverts_the_generation_formula() {
    let origin = (0.3, -0.2);
    let mut t: Tube<f64> = Tube::new(2.0, 32, 1.2, 16);
    t.put(Complex::new(origin.0, origin.1));
    for i in 0..30 {
        for k in 0..32 {
            // The middle of slot k of ring i.
            let zoom = 2.0 * 1.2f64.powi(-(i as i32));
            let angle = 2.0 * std::f64::consts::PI * (k as f64 + 0.5) / 32.0;
            let pos = Complex::new(origin.0 + zoom * angle.cos(), origin.1 + zoom * angle.sin());
            assert_eq!(t.rad_pos(pos), (i, k));
        }
    }
}

#[test]
fn render_paced_by_a_clock_that_is_never_late_is_done() {
    let mut t = small_tube();
    assert_eq!(t.render_paced(0, 1, || false), Status::Done);
    assert_eq!(t.rings.len(), 1);
    assert!(t.rings[0].done);
    assert_eq!(t.rings[0].points.len(), 8);
    let ring: Vec<usize> = (0..8).map(|k| t.get(0, k)).collect();
    assert_eq!(ring, vec![1, 1, 1, 1, 14, 1, 1, 1]);
    assert_eq!(t.render_paced(2, 6, || false), Status::Done);
    assert!(!t.rings[1].done);
    for i in 2..6 {
        assert!(t.rings[i].done);
    }
    assert_eq!(t.render_paced(2, 6, || false), Status::Idle);
}

#[test]
fn render_paced_by_a_clock_that_is_always_late_completes_one_ring() {
    let mut t = small_tube();
    for done in 1..=4 {
        assert_eq!(t.render_paced(1, 5, || true), Status::Timeout);
        assert_eq!(t.rings.len(), 5);
        assert!(!t.rings[0].done);
        for i in 1..5 {
            assert_eq!(t.rings[i].done, i <= done);
            assert_eq!(t.rings[i].points.len(), if i <= done { 8 } else { 0 });
        }
    }
    assert_eq!(t.render_paced(1, 5, || true), Status::Idle);
}

#[test]
fn render_paced_asks_the_clock_once_after_each_ring_it_completes() {
    let mut t = small_tube();
    assert_eq!(t.render_paced(0, 6, || false), Status::Done);
    t.rings[1].done = false;
    t.rings[4].done = false;
    let asked = std::cell::Cell::new(0usize);
    let status = t.render_paced(0, 6, || {
        asked.set(asked.get() + 1);
        false
    });
    assert_eq!(status, Status::Done);
    assert_eq!(asked.get(), 2);
    asked.set(0);
    let status = t.render_paced(0, 6, || {
        asked.set(asked.get() + 1);
        true
    });
    assert_eq!(status, Status::Idle);
    assert_eq!(asked.get(), 0);
}

#[test]
fn render_leaves_the_rings_it_does_not_complete_as_they_are() {
    let mut t = small_tube();
    assert_eq!(t.render_paced(0, 6, || false), Status::Done);
    // A ring before the window that is not done, with samples of its own.
    t.rings[0].done = false;
    t.rings[0].points[3].depth = 777;
    // A ring of the window that is not done, after the ring where the step stops.
    t.rings[3].done = false;
    t.rings[4].done = false;
    t.rings[4].points[2].depth = 555;
    assert_eq!(t.render_paced(2, 8, || true), Status::Timeout);
    assert_eq!(t.rings.len(), 8);
    assert!(!t.rings[0].done);
    assert_eq!(t.rings[0].points[3].depth, 777);
    assert!(t.rings[3].done);
    assert!(!t.rings[4].done);
    assert_eq!(t.rings[4].points[2].depth, 555);
    assert_eq!(t.rings[4].points.len(), 8);
    for i in 6..8 {
        assert!(!t.rings[i].done);
        assert_eq!(t.rings[i].points.len(), 0);
    }
    // An idle step changes nothing at all.
    let before: Vec<(bool, Vec<usize>)> =
        t.rings.iter().map(|r| (r.done, r.points.iter().map(|p| p.depth).collect())).collect();
    assert_eq!(t.render(1, 4, Duration::from_nanos(0)), Status::Idle);
    let after: Vec<(bool, Vec<usize>)> =
        t.rings.iter().map(|r| (r.done, r.points.iter().map(|p| p.depth).collect())).collect();
    assert_eq!(before, after);
}

#[test]
fn render_within_a_generous_budget_is_done() {
    let mut t = small_tube();
    assert_eq!(t.render(0, 3, Duration::from_secs(3600)), Status::Done);
    assert_eq!(t.rings.len(), 3);
    assert!(t.rings.iter().all(|r| r.done && r.points.len() == 8));
}
