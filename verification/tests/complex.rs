use fractal_tube::complex::Complex;

#[test]
fn new_keeps_both_parts() {
    let z = Complex::new(1.5f64, -2.25f64);
    assert_eq!(z.re, 1.5);
    assert_eq!(z.im, -2.25);
}

#[test]
fn from_real_has_zero_imaginary_part() {
    let z: Complex<f64> = Complex::from(3.0);
    assert_eq!(z.re, 3.0);
    assert_eq!(z.im, 0.0);
}

#[test]
fn from_pair_and_from_array() {
    let a = Complex::from_pair((1.0f64, 2.0f64));
    let b = Complex::from_array([3.0f32, 4.0f32]);
    assert_eq!((a.re, a.im), (1.0, 2.0));
    assert_eq!((b.re, b.im), (3.0, 4.0));
}

#[test]
fn conj_negates_the_imaginary_part() {
    let z = Complex::new(1.0f64, 2.0f64).conj();
    assert_eq!((z.re, z.im), (1.0, -2.0));
}

#[test]
fn abs2_of_three_four() {
    assert_eq!(Complex::new(3.0f64, 4.0f64).abs2(), 25.0);
}

#[test]
fn abs_of_three_four() {
    assert_eq!(Complex::new(3.0f64, 4.0f64).abs(), 5.0);
    assert_eq!(Complex::new(-6.0f32, 8.0f32).abs(), 10.0);
}

#[test]
fn add_and_sub_work_part_by_part() {
    let a = Complex::new(1.0f64, 2.0f64);
    let b = Complex::new(0.5f64, -4.0f64);
    let s = a.add(b);
    let d = a.sub(b);
    assert_eq!((s.re, s.im), (1.5, -2.0));
    assert_eq!((d.re, d.im), (0.5, 6.0));
}

#[test]
fn mul_is_the_complex_product() {
    let a = Complex::new(1.0f64, 2.0f64);
    let b = Complex::new(3.0f64, 4.0f64);
    let p = a.mul(b);
    assert_eq!((p.re, p.im), (-5.0, 10.0));
    let i = Complex::new(0.0f64, 1.0f64);
    let m = i.mul(i);
    assert_eq!((m.re, m.im), (-1.0, 0.0));
}

#[test]
fn scale_and_unscale_by_a_real() {
    let a = Complex::new(1.0f64, -2.0f64);
    let s = a.scale(4.0);
    let u = a.unscale(4.0);
    assert_eq!((s.re, s.im), (4.0, -8.0));
    assert_eq!((u.re, u.im), (0.25, -0.5));
}

#[test]
fn div_is_the_complex_quotient() {
    let a = Complex::new(-5.0f64, 10.0f64);
    let b = Complex::new(3.0f64, 4.0f64);
    let q = a.div(b);
    assert_eq!((q.re, q.im), (1.0, 2.0));
}

#[test]
fn div_by_zero_does_not_panic() {
    let a = Complex::new(1.0f64, 1.0f64);
    let q = a.div(Complex::new(0.0, 0.0));
    assert!(q.re.is_nan() || q.re.is_infinite());
}

#[test]
fn neg_negates_both_parts() {
    let n = Complex::new(1.0f64, -2.0f64).neg();
    assert_eq!((n.re, n.im), (-1.0, 2.0));
}

#[test]
fn assigning_operations_replace_the_receiver() {
    let mut z = Complex::new(1.0f64, 2.0f64);
    z.add_assign(Complex::new(1.0, 1.0));
    assert_eq!((z.re, z.im), (2.0, 3.0));
    z.sub_assign(Complex::new(2.0, 2.0));
    assert_eq!((z.re, z.im), (0.0, 1.0));
    z.mul_assign(Complex::new(0.0, 1.0));
    assert_eq!((z.re, z.im), (-1.0, 0.0));
    z.div_assign(Complex::new(0.0, 1.0));
    assert_eq!((z.re, z.im), (0.0, 1.0));
}
