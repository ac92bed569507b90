//! Scalar arithmetic on a floating-point type `T`, as the `num` crate offers it.
//!
//! Every function marked `external_body` here is a single call into `num`
//! (or into the operator that `num::Float` demands of `T`). None of them
//! promises anything about the value that comes back: the verifier treats a
//! scalar as an opaque value. What is relied on without proof is that each
//! call returns, which holds for the implementations that `num` ships
//! (`f32` and `f64`), whose arithmetic never panics.
//!
//! So that contracts can say which operation gave a value, each operation
//! comes in three parts: the call itself, which is not verified; an `is_…`
//! relation between operands and result, which holds of what the call
//! returned and of which nothing else is known; and a verified function
//! that makes the call and states the relation. `is_sum(a, b, r)` thus
//! reads: `r` is a value that `a + b` gave.

use vstd::prelude::*;

verus! {

/// `a + b`, the `Add` that `num::Float` requires of `T`. Nothing
/// is claimed of the result.
#[verifier::external_body]
fn call_sum<T: num::Float>(a: T, b: T) -> T {
    a + b
}

/// Whether `r` is a sum that the scalar gives for `a` and `b`.
pub closed spec fn is_sum<T: num::Float>(a: T, b: T, r: T) -> bool {
    call_ensures(call_sum::<T>, (a, b), r)
}

/// The sum `a + b`.
pub(crate) fn sum<T: num::Float>(a: T, b: T) -> (r: T)
    ensures
        is_sum(a, b, r),
{
    call_sum(a, b)
}

/// `a - b`, the `Sub` that `num::Float` requires of `T`. Nothing
/// is claimed of the result.
#[verifier::external_body]
fn call_difference<T: num::Float>(a: T, b: T) -> T {
    a - b
}

/// Whether `r` is a difference that the scalar gives for `a` and `b`.
pub closed spec fn is_difference<T: num::Float>(a: T, b: T, r: T) -> bool {
    call_ensures(call_difference::<T>, (a, b), r)
}

/// The difference `a - b`.
pub(crate) fn difference<T: num::Float>(a: T, b: T) -> (r: T)
    ensures
        is_difference(a, b, r),
{
    call_difference(a, b)
}

/// `a * b`, the `Mul` that `num::Float` requires of `T`. Nothing
/// is claimed of the result.
#[verifier::external_body]
fn call_product<T: num::Float>(a: T, b: T) -> T {
    a * b
}

/// Whether `r` is a product that the scalar gives for `a` and `b`.
pub closed spec fn is_product<T: num::Float>(a: T, b: T, r: T) -> bool {
    call_ensures(call_product::<T>, (a, b), r)
}

/// The product `a · b`.
pub(crate) fn product<T: num::Float>(a: T, b: T) -> (r: T)
    ensures
        is_product(a, b, r),
{
    call_product(a, b)
}

/// `a / b`, the `Div` that `num::Float` requires of `T`; division by zero
/// yields an infinity or a NaN rather than a panic. Nothing
/// is claimed of the result.
#[verifier::external_body]
fn call_quotient<T: num::Float>(a: T, b: T) -> T {
    a / b
}

/// Whether `r` is a quotient that the scalar gives for `a` and `b`.
pub closed spec fn is_quotient<T: num::Float>(a: T, b: T, r: T) -> bool {
    call_ensures(call_quotient::<T>, (a, b), r)
}

/// The quotient `a / b`.
pub(crate) fn quotient<T: num::Float>(a: T, b: T) -> (r: T)
    ensures
        is_quotient(a, b, r),
{
    call_quotient(a, b)
}

/// `-a`, the `Neg` that `num::Float` requires of `T`. Nothing is claimed
/// of the result.
#[verifier::external_body]
fn call_negated<T: num::Float>(a: T) -> T {
    -a
}

/// Whether `r` is a negation that the scalar gives for `a`.
pub closed spec fn is_negated<T: num::Float>(a: T, r: T) -> bool {
    call_ensures(call_negated::<T>, (a,), r)
}

/// The negation `−a`.
pub(crate) fn negated<T: num::Float>(a: T) -> (r: T)
    ensures
        is_negated(a, r),
{
    call_negated(a)
}

/// `a < b`, the `PartialOrd` that `num::Float` requires of `T`; false when
/// either side is a NaN. Nothing is claimed of the answer.
#[verifier::external_body]
fn call_less<T: num::Float>(a: T, b: T) -> bool {
    a < b
}

/// Whether `r` is an answer that the scalar gives to whether `a < b`.
pub closed spec fn is_less<T: num::Float>(a: T, b: T, r: bool) -> bool {
    call_ensures(call_less::<T>, (a, b), r)
}

/// Whether `a < b`.
pub(crate) fn less<T: num::Float>(a: T, b: T) -> (r: bool)
    ensures
        is_less(a, b, r),
{
    call_less(a, b)
}

/// `num::Float::sqrt`. Nothing is claimed of the result.
#[verifier::external_body]
fn call_sqrt<T: num::Float>(a: T) -> T {
    a.sqrt()
}

/// Whether `r` is a square root that the scalar gives for `a`.
pub closed spec fn is_sqrt<T: num::Float>(a: T, r: T) -> bool {
    call_ensures(call_sqrt::<T>, (a,), r)
}

/// The square root of `a`.
pub(crate) fn sqrt<T: num::Float>(a: T) -> (r: T)
    ensures
        is_sqrt(a, r),
{
    call_sqrt(a)
}

/// `num::Float::sin`. Nothing is claimed of the result.
#[verifier::external_body]
fn call_sin<T: num::Float>(a: T) -> T {
    a.sin()
}

/// Whether `r` is a sine that the scalar gives for the angle `a`.
pub closed spec fn is_sin<T: num::Float>(a: T, r: T) -> bool {
    call_ensures(call_sin::<T>, (a,), r)
}

/// The sine of the angle `a`.
pub(crate) fn sin<T: num::Float>(a: T) -> (r: T)
    ensures
        is_sin(a, r),
{
    call_sin(a)
}

/// `num::Float::cos`. Nothing is claimed of the result.
#[verifier::external_body]
fn call_cos<T: num::Float>(a: T) -> T {
    a.cos()
}

/// Whether `r` is a cosine that the scalar gives for the angle `a`.
pub closed spec fn is_cos<T: num::Float>(a: T, r: T) -> bool {
    call_ensures(call_cos::<T>, (a,), r)
}

/// The cosine of the angle `a`.
pub(crate) fn cos<T: num::Float>(a: T) -> (r: T)
    ensures
        is_cos(a, r),
{
    call_cos(a)
}

/// `num::Float::atan2`. Nothing is claimed of the result.
#[verifier::external_body]
fn call_atan2<T: num::Float>(y: T, x: T) -> T {
    y.atan2(x)
}

/// Whether `r` is an angle that the scalar gives for the point `(x, y)`.
pub closed spec fn is_atan2<T: num::Float>(y: T, x: T, r: T) -> bool {
    call_ensures(call_atan2::<T>, (y, x), r)
}

/// The angle of the point `(x, y)`, between `−π` and `π`.
pub(crate) fn atan2<T: num::Float>(y: T, x: T) -> (r: T)
    ensures
        is_atan2(y, x, r),
{
    call_atan2(y, x)
}

/// `num::Float::log`. Nothing is claimed of the result.
#[verifier::external_body]
fn call_log<T: num::Float>(a: T, base: T) -> T {
    a.log(base)
}

/// Whether `r` is a logarithm that the scalar gives for `a` to the given base.
pub closed spec fn is_log<T: num::Float>(a: T, base: T, r: T) -> bool {
    call_ensures(call_log::<T>, (a, base), r)
}

/// The logarithm of `a` to the given base.
pub(crate) fn log<T: num::Float>(a: T, base: T) -> (r: T)
    ensures
        is_log(a, base, r),
{
    call_log(a, base)
}

/// `num::Float::powi`. Nothing is claimed of the result.
#[verifier::external_body]
fn call_powi<T: num::Float>(a: T, n: i32) -> T {
    a.powi(n)
}

/// Whether `r` is a power that the scalar gives for `a` and the exponent `n`.
pub closed spec fn is_powi<T: num::Float>(a: T, n: i32, r: T) -> bool {
    call_ensures(call_powi::<T>, (a, n), r)
}

/// `a` raised to the integer power `n`.
pub(crate) fn powi<T: num::Float>(a: T, n: i32) -> (r: T)
    ensures
        is_powi(a, n, r),
{
    call_powi(a, n)
}

/// `num::Float::floor`. Nothing is claimed of the result.
#[verifier::external_body]
fn call_floor<T: num::Float>(a: T) -> T {
    a.floor()
}

/// Whether `r` is what the scalar gives for `a` rounded down to an integer.
pub closed spec fn is_floor<T: num::Float>(a: T, r: T) -> bool {
    call_ensures(call_floor::<T>, (a,), r)
}

/// `a` rounded down to an integer.
pub(crate) fn floor<T: num::Float>(a: T) -> (r: T)
    ensures
        is_floor(a, r),
{
    call_floor(a)
}

/// `num::Float::round`. Nothing is claimed of the result.
#[verifier::external_body]
fn call_round<T: num::Float>(a: T) -> T {
    a.round()
}

/// Whether `r` is what the scalar gives for `a` rounded to the nearest integer.
pub closed spec fn is_round<T: num::Float>(a: T, r: T) -> bool {
    call_ensures(call_round::<T>, (a,), r)
}

/// `a` rounded to the nearest integer, halves away from zero.
pub(crate) fn round<T: num::Float>(a: T) -> (r: T)
    ensures
        is_round(a, r),
{
    call_round(a)
}

/// `num::Float::max`. Nothing is claimed of the result.
#[verifier::external_body]
fn call_max<T: num::Float>(a: T, b: T) -> T {
    a.max(b)
}

/// Whether `r` is what the scalar gives for the larger of `a` and `b`.
pub closed spec fn is_max<T: num::Float>(a: T, b: T, r: T) -> bool {
    call_ensures(call_max::<T>, (a, b), r)
}

/// The larger of `a` and `b`.
pub(crate) fn max<T: num::Float>(a: T, b: T) -> (r: T)
    ensures
        is_max(a, b, r),
{
    call_max(a, b)
}

/// `num::Zero::zero`. Nothing is claimed of the result.
#[verifier::external_body]
fn call_zero<T: num::Float>() -> T {
    T::zero()
}

/// Whether `r` is what the scalar gives for zero.
pub closed spec fn is_zero<T: num::Float>(r: T) -> bool {
    call_ensures(call_zero::<T>, (), r)
}

/// The scalar's zero.
pub(crate) fn zero<T: num::Float>() -> (r: T)
    ensures
        is_zero(r),
{
    call_zero()
}

/// `num::Float::nan`. Nothing is claimed of the result.
#[verifier::external_body]
fn call_nan<T: num::Float>() -> T {
    T::nan()
}

/// Whether `r` is what the scalar gives for a NaN.
pub closed spec fn is_nan<T: num::Float>(r: T) -> bool {
    call_ensures(call_nan::<T>, (), r)
}

/// A NaN of the scalar.
pub(crate) fn nan<T: num::Float>() -> (r: T)
    ensures
        is_nan(r),
{
    call_nan()
}

/// `num::traits::FloatConst::TAU`. Nothing is claimed of the result.
#[verifier::external_body]
fn call_tau<T: num::Float + num::traits::FloatConst>() -> T {
    T::TAU()
}

/// Whether `r` is what the scalar gives for the circle constant 2π.
pub closed spec fn is_tau<T: num::Float + num::traits::FloatConst>(r: T) -> bool {
    call_ensures(call_tau::<T>, (), r)
}

/// The circle constant 2π.
pub(crate) fn tau<T: num::Float + num::traits::FloatConst>() -> (r: T)
    ensures
        is_tau(r),
{
    call_tau()
}

/// `num::NumCast::from` on an integer: the nearest scalar, or `None`
/// where `T` cannot hold it. Nothing is claimed of the result.
#[verifier::external_body]
fn call_cast<T: num::Float>(n: i128) -> Option<T> {
    T::from(n)
}

/// Whether `r` is what the scalar's conversion gives for the integer `n`.
pub closed spec fn is_cast<T: num::Float>(n: i128, r: Option<T>) -> bool {
    call_ensures(call_cast::<T>, (n,), r)
}

/// The scalar nearest to `n`, if `T` has one.
pub(crate) fn cast<T: num::Float>(n: i128) -> (r: Option<T>)
    ensures
        is_cast(n, r),
{
    call_cast(n)
}

/// `num::ToPrimitive::to_usize`: the scalar truncated toward zero, or
/// `None` where that is no `usize`. Nothing is claimed of the result.
#[verifier::external_body]
fn call_truncated<T: num::Float>(a: T) -> Option<usize> {
    a.to_usize()
}

/// Whether `r` is what the scalar's conversion to an index gives for `a`.
pub closed spec fn is_truncated<T: num::Float>(a: T, r: Option<usize>) -> bool {
    call_ensures(call_truncated::<T>, (a,), r)
}

/// The scalar truncated toward zero, if that is an index.
pub(crate) fn truncated<T: num::Float>(a: T) -> (r: Option<usize>)
    ensures
        is_truncated(a, r),
{
    call_truncated(a)
}

/// Whether `r` is a scalar of the integer `n`: what the conversion gives,
/// or a NaN where it gives nothing.
pub open spec fn is_integer<T: num::Float>(n: i128, r: T) -> bool {
    exists|converted: Option<T>|
        {
            &&& #[trigger] is_cast(n, converted)
            &&& match converted {
                Some(v) => r == v,
                None => is_nan(r),
            }
        }
}

/// The scalar nearest to the integer `n`; a NaN where `T` has none.
pub fn from_integer<T: num::Float>(n: i128) -> (r: T)
    ensures
        is_integer(n, r),
{
    match cast(n) {
        Some(v) => v,
        None => nan(),
    }
}

/// Whether `r` is an index of the scalar `a`, saturating: what the
/// conversion gives, and where it gives nothing, the largest index for a
/// scalar above zero and `0` for any other.
pub open spec fn is_index<T: num::Float>(a: T, r: usize) -> bool {
    exists|cut: Option<usize>|
        {
            &&& #[trigger] is_truncated(a, cut)
            &&& match cut {
                Some(i) => r == i,
                None => exists|origin: T, above: bool|
                    {
                        &&& #[trigger] is_zero(origin)
                        &&& #[trigger] is_less(origin, a, above)
                        &&& r == if above {
                            usize::MAX
                        } else {
                            0
                        }
                    },
            }
        }
}

/// The scalar as an index, saturating: truncated toward zero, `0` for a
/// negative scalar or a NaN, `usize::MAX` for one too large.
pub fn to_index<T: num::Float>(a: T) -> (r: usize)
    ensures
        is_index(a, r),
{
    match truncated(a) {
        Some(i) => i,
        None => if less(zero(), a) {
            usize::MAX
        } else {
            0
        },
    }
}

/// Whether every operation of the scalar is a function of its operands:
/// whether two results that one operation gave for the same operands are
/// equal. Nothing here says that this holds of a scalar; what follows
/// from it is proved for the scalars of which it does.
pub open spec fn functional<T: num::Float>() -> bool {
    &&& forall|a: T, b: T, r: T, s: T|
        #![trigger is_sum(a, b, r), is_sum(a, b, s)]
        is_sum(a, b, r) && is_sum(a, b, s) ==> r == s
    &&& forall|a: T, b: T, r: T, s: T|
        #![trigger is_difference(a, b, r), is_difference(a, b, s)]
        is_difference(a, b, r) && is_difference(a, b, s) ==> r == s
    &&& forall|a: T, b: T, r: T, s: T|
        #![trigger is_product(a, b, r), is_product(a, b, s)]
        is_product(a, b, r) && is_product(a, b, s) ==> r == s
    &&& forall|a: T, b: T, r: T, s: T|
        #![trigger is_quotient(a, b, r), is_quotient(a, b, s)]
        is_quotient(a, b, r) && is_quotient(a, b, s) ==> r == s
    &&& forall|a: T, b: T, r: T, s: T|
        #![trigger is_atan2(a, b, r), is_atan2(a, b, s)]
        is_atan2(a, b, r) && is_atan2(a, b, s) ==> r == s
    &&& forall|a: T, b: T, r: T, s: T|
        #![trigger is_log(a, b, r), is_log(a, b, s)]
        is_log(a, b, r) && is_log(a, b, s) ==> r == s
    &&& forall|a: T, b: T, r: T, s: T|
        #![trigger is_max(a, b, r), is_max(a, b, s)]
        is_max(a, b, r) && is_max(a, b, s) ==> r == s
    &&& forall|a: T, r: T, s: T|
        #![trigger is_negated(a, r), is_negated(a, s)]
        is_negated(a, r) && is_negated(a, s) ==> r == s
    &&& forall|a: T, r: T, s: T|
        #![trigger is_sqrt(a, r), is_sqrt(a, s)]
        is_sqrt(a, r) && is_sqrt(a, s) ==> r == s
    &&& forall|a: T, r: T, s: T|
        #![trigger is_sin(a, r), is_sin(a, s)]
        is_sin(a, r) && is_sin(a, s) ==> r == s
    &&& forall|a: T, r: T, s: T|
        #![trigger is_cos(a, r), is_cos(a, s)]
        is_cos(a, r) && is_cos(a, s) ==> r == s
    &&& forall|a: T, r: T, s: T|
        #![trigger is_floor(a, r), is_floor(a, s)]
        is_floor(a, r) && is_floor(a, s) ==> r == s
    &&& forall|a: T, r: T, s: T|
        #![trigger is_round(a, r), is_round(a, s)]
        is_round(a, r) && is_round(a, s) ==> r == s
    &&& forall|a: T, b: T, r: bool, s: bool|
        #![trigger is_less(a, b, r), is_less(a, b, s)]
        is_less(a, b, r) && is_less(a, b, s) ==> r == s
    &&& forall|a: T, n: i32, r: T, s: T|
        #![trigger is_powi(a, n, r), is_powi(a, n, s)]
        is_powi(a, n, r) && is_powi(a, n, s) ==> r == s
    &&& forall|r: T, s: T|
        #![trigger is_zero(r), is_zero(s)]
        is_zero(r) && is_zero(s) ==> r == s
    &&& forall|r: T, s: T|
        #![trigger is_nan(r), is_nan(s)]
        is_nan(r) && is_nan(s) ==> r == s
    &&& forall|n: i128, r: Option<T>, s: Option<T>|
        #![trigger is_cast(n, r), is_cast(n, s)]
        is_cast(n, r) && is_cast(n, s) ==> r == s
    &&& forall|a: T, r: Option<usize>, s: Option<usize>|
        #![trigger is_truncated(a, r), is_truncated(a, s)]
        is_truncated(a, r) && is_truncated(a, s) ==> r == s
}

/// Whether the circle constant of the scalar is one value.
pub open spec fn functional_turn<T: num::Float + num::traits::FloatConst>() -> bool {
    forall|r: T, s: T|
        #![trigger is_tau(r), is_tau(s)]
        is_tau(r) && is_tau(s) ==> r == s
}

/// Where the scalar's operations are functions, so are the conversion of
/// an integer to a scalar and that of a scalar to an index.
pub proof fn lemma_conversions_functional<T: num::Float>()
    requires
        functional::<T>(),
    ensures
        forall|n: i128, r: T, s: T|
            #![trigger is_integer(n, r), is_integer(n, s)]
            is_integer(n, r) && is_integer(n, s) ==> r == s,
        forall|a: T, r: usize, s: usize|
            #![trigger is_index(a, r), is_index(a, s)]
            is_index(a, r) && is_index(a, s) ==> r == s,
{
}

} // verus!
