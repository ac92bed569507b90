//! Complex numbers over a floating-point scalar.
//!
//! The scalar's arithmetic is opaque to the verifier. A contract here says
//! which operation gave each part of a result, and on which operands, in
//! the relations of the scalar module: `is_sum(a, b, r)` says that `r` is
//! a value that `a + b` gave.

use vstd::prelude::*;
use crate::scalar;
use crate::scalar::{is_difference, is_negated, is_product, is_quotient, is_sum};

verus! {

/// The complex number `re + im·i`.
#[derive(Copy, Clone, Debug)]
pub struct Complex<T> {
    pub re: T,
    pub im: T,
}

/// Whether `r` is a result of `a·b − c·d`.
pub open spec fn is_cross_difference<T: num::Float>(a: T, b: T, c: T, d: T, r: T) -> bool {
    exists|x: T, y: T|
        #![trigger is_product(a, b, x), is_product(c, d, y)]
        is_product(a, b, x) && is_product(c, d, y) && is_difference(x, y, r)
}

/// Whether `r` is a result of `a·b + c·d`.
pub open spec fn is_cross_sum<T: num::Float>(a: T, b: T, c: T, d: T, r: T) -> bool {
    exists|x: T, y: T|
        #![trigger is_product(a, b, x), is_product(c, d, y)]
        is_product(a, b, x) && is_product(c, d, y) && is_sum(x, y, r)
}

impl<T: num::Float> Complex<T> {
    /// The number with the given real and imaginary parts.
    pub fn new(re: T, im: T) -> (z: Self)
        ensures
            z.re == re,
            z.im == im,
    {
        Complex { re, im }
    }

    /// The real number `v` as a complex one: the imaginary part is the
    /// scalar's zero.
    pub fn from(v: T) -> (z: Self)
        ensures
            z.re == v,
            scalar::is_zero(z.im),
    {
        Complex { re: v, im: scalar::zero() }
    }

    /// The number whose parts are the two components of `t`.
    pub fn from_pair(t: (T, T)) -> (z: Self)
        ensures
            z.re == t.0,
            z.im == t.1,
    {
        Complex { re: t.0, im: t.1 }
    }

    /// The number whose parts are the two elements of `a`.
    pub fn from_array(a: [T; 2]) -> (z: Self)
        ensures
            z.re == a[0],
            z.im == a[1],
    {
        Complex { re: a[0], im: a[1] }
    }

    /// The conjugate: the same real part, the imaginary part negated.
    pub fn conj(self) -> (z: Self)
        ensures
            z.re == self.re,
            is_negated(self.im, z.im),
    {
        Complex { re: self.re, im: scalar::negated(self.im) }
    }

    /// The squared magnitude, `re·re + im·im`.
    pub fn abs2(self) -> (r: T)
        ensures
            is_cross_sum(self.re, self.re, self.im, self.im, r),
    {
        scalar::sum(scalar::product(self.re, self.re), scalar::product(self.im, self.im))
    }

    /// The magnitude, the square root of `abs2`.
    pub fn abs(self) -> (r: T)
        ensures
            exists|size: T|
                {
                    &&& #[trigger] is_cross_sum(self.re, self.re, self.im, self.im, size)
                    &&& scalar::is_sqrt(size, r)
                },
    {
        scalar::sqrt(self.abs2())
    }

    /// The point of the unit circle at the given angle, `cos θ + i·sin θ`.
    pub fn unit(angle: T) -> (z: Self)
        ensures
            scalar::is_cos(angle, z.re),
            scalar::is_sin(angle, z.im),
    {
        Complex { re: scalar::cos(angle), im: scalar::sin(angle) }
    }

    /// The angle of the number as a point of the plane, `atan2(im, re)`:
    /// between `−π` and `π`, `0` for zero.
    pub fn arg(self) -> (angle: T)
        ensures
            scalar::is_atan2(self.im, self.re, angle),
    {
        scalar::atan2(self.im, self.re)
    }

    /// The sum, part by part.
    pub fn add(self, other: Self) -> (z: Self)
        ensures
            is_sum(self.re, other.re, z.re),
            is_sum(self.im, other.im, z.im),
    {
        Complex { re: scalar::sum(self.re, other.re), im: scalar::sum(self.im, other.im) }
    }

    /// The difference, part by part.
    pub fn sub(self, other: Self) -> (z: Self)
        ensures
            is_difference(self.re, other.re, z.re),
            is_difference(self.im, other.im, z.im),
    {
        Complex {
            re: scalar::difference(self.re, other.re),
            im: scalar::difference(self.im, other.im),
        }
    }

    /// The complex product: the real part `re·re' − im·im'`, the imaginary
    /// part `re·im' + im·re'`.
    pub fn mul(self, other: Self) -> (z: Self)
        ensures
            is_cross_difference(self.re, other.re, self.im, other.im, z.re),
            is_cross_sum(self.re, other.im, self.im, other.re, z.im),
    {
        Complex {
            re: scalar::difference(
                scalar::product(self.re, other.re),
                scalar::product(self.im, other.im),
            ),
            im: scalar::sum(
                scalar::product(self.re, other.im),
                scalar::product(self.im, other.re),
            ),
        }
    }

    /// Both parts multiplied by the real number `k`.
    pub fn scale(self, k: T) -> (z: Self)
        ensures
            is_product(self.re, k, z.re),
            is_product(self.im, k, z.im),
    {
        Complex { re: scalar::product(self.re, k), im: scalar::product(self.im, k) }
    }

    /// Both parts divided by the real number `k`.
    pub fn unscale(self, k: T) -> (z: Self)
        ensures
            is_quotient(self.re, k, z.re),
            is_quotient(self.im, k, z.im),
    {
        Complex { re: scalar::quotient(self.re, k), im: scalar::quotient(self.im, k) }
    }

    /// The complex quotient, `self · conj(other) / |other|²`: what
    /// `unscale` gives for the product of `self` with the conjugate of
    /// `other` and the squared magnitude of `other`.
    pub fn div(self, other: Self) -> (z: Self)
        ensures
            exists|c: Self, m: Self, a: T|
                {
                    &&& #[trigger] call_ensures(Complex::<T>::conj, (other,), c)
                    &&& #[trigger] call_ensures(Complex::<T>::mul, (self, c), m)
                    &&& #[trigger] call_ensures(Complex::<T>::abs2, (other,), a)
                    &&& call_ensures(Complex::<T>::unscale, (m, a), z)
                },
    {
        self.mul(other.conj()).unscale(other.abs2())
    }

    /// The negation, part by part.
    pub fn neg(self) -> (z: Self)
        ensures
            is_negated(self.re, z.re),
            is_negated(self.im, z.im),
    {
        Complex { re: scalar::negated(self.re), im: scalar::negated(self.im) }
    }

    /// Replaces `self` by `self + other`, as `add` gives it.
    pub fn add_assign(&mut self, other: Self)
        ensures
            call_ensures(Complex::<T>::add, (*old(self), other), *final(self)),
    {
        *self = self.add(other);
    }

    /// Replaces `self` by `self - other`, as `sub` gives it.
    pub fn sub_assign(&mut self, other: Self)
        ensures
            call_ensures(Complex::<T>::sub, (*old(self), other), *final(self)),
    {
        *self = self.sub(other);
    }

    /// Replaces `self` by `self · other`, as `mul` gives it.
    pub fn mul_assign(&mut self, other: Self)
        ensures
            call_ensures(Complex::<T>::mul, (*old(self), other), *final(self)),
    {
        *self = self.mul(other);
    }

    /// Replaces `self` by `self / other`, as `div` gives it.
    pub fn div_assign(&mut self, other: Self)
        ensures
            call_ensures(Complex::<T>::div, (*old(self), other), *final(self)),
    {
        *self = self.div(other);
    }
}

/// Where the scalar's operations are functions, so are the sum, the
/// difference, the product, the squared magnitude and the magnitude of
/// complex numbers, the point of the unit circle at an angle, and the
/// complex number of a real one.
pub proof fn lemma_complex_functional<T: num::Float>()
    requires
        scalar::functional::<T>(),
    ensures
        forall|a: Complex<T>, b: Complex<T>, r: Complex<T>, s: Complex<T>|
            #![trigger call_ensures(Complex::<T>::add, (a, b), r), call_ensures(Complex::<T>::add, (a, b), s)]
            call_ensures(Complex::<T>::add, (a, b), r) && call_ensures(
                Complex::<T>::add,
                (a, b),
                s,
            ) ==> r == s,
        forall|a: Complex<T>, b: Complex<T>, r: Complex<T>, s: Complex<T>|
            #![trigger call_ensures(Complex::<T>::sub, (a, b), r), call_ensures(Complex::<T>::sub, (a, b), s)]
            call_ensures(Complex::<T>::sub, (a, b), r) && call_ensures(
                Complex::<T>::sub,
                (a, b),
                s,
            ) ==> r == s,
        forall|a: Complex<T>, b: Complex<T>, r: Complex<T>, s: Complex<T>|
            #![trigger call_ensures(Complex::<T>::mul, (a, b), r), call_ensures(Complex::<T>::mul, (a, b), s)]
            call_ensures(Complex::<T>::mul, (a, b), r) && call_ensures(
                Complex::<T>::mul,
                (a, b),
                s,
            ) ==> r == s,
        forall|a: Complex<T>, r: T, s: T|
            #![trigger call_ensures(Complex::<T>::abs2, (a,), r), call_ensures(Complex::<T>::abs2, (a,), s)]
            call_ensures(Complex::<T>::abs2, (a,), r) && call_ensures(Complex::<T>::abs2, (a,), s)
                ==> r == s,
        forall|a: Complex<T>, r: T, s: T|
            #![trigger call_ensures(Complex::<T>::abs, (a,), r), call_ensures(Complex::<T>::abs, (a,), s)]
            call_ensures(Complex::<T>::abs, (a,), r) && call_ensures(Complex::<T>::abs, (a,), s)
                ==> r == s,
        forall|a: Complex<T>, r: T, s: T|
            #![trigger call_ensures(Complex::<T>::arg, (a,), r), call_ensures(Complex::<T>::arg, (a,), s)]
            call_ensures(Complex::<T>::arg, (a,), r) && call_ensures(Complex::<T>::arg, (a,), s)
                ==> r == s,
        forall|a: T, r: Complex<T>, s: Complex<T>|
            #![trigger call_ensures(Complex::<T>::unit, (a,), r), call_ensures(Complex::<T>::unit, (a,), s)]
            call_ensures(Complex::<T>::unit, (a,), r) && call_ensures(Complex::<T>::unit, (a,), s)
                ==> r == s,
        forall|a: T, r: Complex<T>, s: Complex<T>|
            #![trigger call_ensures(Complex::<T>::from, (a,), r), call_ensures(Complex::<T>::from, (a,), s)]
            call_ensures(Complex::<T>::from, (a,), r) && call_ensures(Complex::<T>::from, (a,), s)
                ==> r == s,
{
}

} // verus!
