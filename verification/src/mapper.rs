//! The coordinate mapper: from a pixel of the screen to a position in the
//! plane, and from a position in the plane to the ring and the angular
//! slot of the cache that hold it; and the way back, from a ring and a
//! slot to the position that is sampled for them.
//!
//! These are formulas over the scalar type, whose arithmetic is opaque to
//! the verifier. A contract here does not compute a value: it says which
//! operations gave it, on which operands, in the `is_…` relations of the
//! scalar module. Where a function builds on another function of the
//! library, `call_ensures(f, args, r)` says that `r` is a value that `f`
//! returned for `args`.

use vstd::prelude::*;
use crate::complex::Complex;
use crate::scalar;
use crate::scalar::{
    from_integer, is_difference, is_floor, is_index, is_integer, is_less, is_log, is_max,
    is_powi, is_product, is_quotient, is_round, is_sum, is_tau, is_zero,
};

verus! {

/// Whether `r` is a result of `(2p − extent + 1) / h`, computed in the
/// scalar from the scalars of `2`, `p`, `extent`, `1` and `h`.
pub open spec fn is_centred<T: num::Float>(p: u32, extent: u32, h: u32, r: T) -> bool {
    exists|two: T, fp: T, twice: T, fe: T, short: T, one: T, numerator: T, fh: T|
        {
            &&& #[trigger] is_integer::<T>(2, two)
            &&& #[trigger] is_integer::<T>(p as i128, fp)
            &&& #[trigger] is_product(two, fp, twice)
            &&& #[trigger] is_integer::<T>(extent as i128, fe)
            &&& #[trigger] is_difference(twice, fe, short)
            &&& #[trigger] is_integer::<T>(1, one)
            &&& #[trigger] is_sum(short, one, numerator)
            &&& #[trigger] is_integer::<T>(h as i128, fh)
            &&& is_quotient(numerator, fh, r)
        }
}

/// Pixel `p` of `extent` along one axis, measured from the middle of the
/// axis in units of half the screen's height `h`: `(2p − extent + 1) / h`.
pub fn centred<T: num::Float>(p: u32, extent: u32, h: u32) -> (r: T)
    ensures
        is_centred(p, extent, h, r),
{
    let two: T = from_integer(2);
    let fp: T = from_integer(p as i128);
    let fe: T = from_integer(extent as i128);
    let one: T = from_integer(1);
    let fh: T = from_integer(h as i128);
    scalar::quotient(scalar::sum(scalar::difference(scalar::product(two, fp), fe), one), fh)
}

/// The world offset of the centre of pixel `(x, y)` from the centre of a
/// screen of `w` by `h` pixels at the scale `scale`:
/// `scale · ((2x − w + 1) / h, (2y − h + 1) / h)`.
pub fn pixel_offset<T: num::Float>(x: u32, y: u32, w: u32, h: u32, scale: Complex<T>) -> (offset:
    Complex<T>)
    ensures
        exists|re: T, im: T|
            {
                &&& #[trigger] is_centred(x, w, h, re)
                &&& #[trigger] is_centred(y, h, h, im)
                &&& call_ensures(Complex::<T>::mul, (scale, Complex { re, im }), offset)
            },
{
    let re: T = centred(x, w, h);
    let im: T = centred(y, h, h);
    scale.mul(Complex::new(re, im))
}

/// The world position of the centre of pixel `(x, y)` on a screen of `w`
/// by `h` pixels that shows the plane around `origin` at the scale
/// `scale`: `origin + scale · ((2x − w + 1) / h, (2y − h + 1) / h)`. Pixel
/// centres are symmetric about `origin`, and the height of the screen
/// spans two units of `scale` whatever its width.
pub fn pixel_to_world<T: num::Float>(
    x: u32,
    y: u32,
    w: u32,
    h: u32,
    origin: Complex<T>,
    scale: Complex<T>,
) -> (world: Complex<T>)
    ensures
        exists|offset: Complex<T>|
            {
                &&& #[trigger] call_ensures(pixel_offset::<T>, (x, y, w, h, scale), offset)
                &&& call_ensures(Complex::<T>::add, (origin, offset), world)
            },
{
    origin.add(pixel_offset(x, y, w, h, scale))
}

/// Whether `ir` is a ring index that the mapper gives for the distance
/// `dist`: the index of `round(max(log(rad / dist), 0))`, the logarithm
/// to the base `step`, each value a result of the operation named.
pub open spec fn is_ring_index<T: num::Float>(dist: T, rad: T, step: T, ir: usize) -> bool {
    exists|ratio: T, scale: T, origin: T, raised: T, nearest: T|
        {
            &&& #[trigger] is_quotient(rad, dist, ratio)
            &&& #[trigger] is_log(ratio, step, scale)
            &&& #[trigger] is_zero(origin)
            &&& #[trigger] is_max(scale, origin, raised)
            &&& #[trigger] is_round(raised, nearest)
            &&& is_index(nearest, ir)
        }
}

/// The index of the ring that lies nearest, on the logarithmic scale, to
/// the distance `dist` from the origin of a cache whose ring `i` has the
/// radius `rad · step⁻ⁱ`: `log(rad / dist)` to the base `step`, raised to
/// `0` where it is negative, rounded to the nearest integer. It saturates
/// at the largest index for a distance of zero.
pub fn ring_index<T: num::Float>(dist: T, rad: T, step: T) -> (ir: usize)
    ensures
        is_ring_index(dist, rad, step, ir),
{
    let ratio = scalar::quotient(rad, dist);
    scalar::to_index(scalar::round(scalar::max(scalar::log(ratio, step), scalar::zero())))
}

/// The slot `raw`, clamped to the `seg` slots that exist.
pub open spec fn clamped(raw: usize, seg: usize) -> usize {
    if seg == 0 {
        0
    } else if raw >= seg {
        (seg - 1) as usize
    } else {
        raw
    }
}

/// Whether `ip` is an angular slot that the mapper gives for the
/// direction of `dev`: the index, clamped to the slots that exist, of
/// `floor(θ · (seg / 2π))`, where `θ` is the angle of `dev` plus `2π`
/// where that angle is below zero and plus zero where it is not, each
/// value a result of the operation named.
pub open spec fn is_slot_index<T: num::Float + num::traits::FloatConst>(
    dev: Complex<T>,
    seg: usize,
    ip: usize,
) -> bool {
    exists|
        angle: T,
        origin: T,
        below: bool,
        shift: T,
        turned: T,
        slots: T,
        turn: T,
        scale: T,
        scaled: T,
        whole: T,
        raw: usize,
    |
        {
            &&& #[trigger] call_ensures(Complex::<T>::arg, (dev,), angle)
            &&& #[trigger] is_zero(origin)
            &&& #[trigger] is_less(angle, origin, below)
            &&& if below {
                is_tau(shift)
            } else {
                is_zero(shift)
            }
            &&& #[trigger] is_sum(angle, shift, turned)
            &&& #[trigger] is_integer::<T>(seg as i128, slots)
            &&& #[trigger] is_tau(turn)
            &&& #[trigger] is_quotient(slots, turn, scale)
            &&& #[trigger] is_product(turned, scale, scaled)
            &&& #[trigger] is_floor(scaled, whole)
            &&& #[trigger] is_index(whole, raw)
            &&& ip == clamped(raw, seg)
        }
}

/// The angular slot, of `seg` to the full turn, that holds the direction
/// of `dev`: the angle of `dev`, brought into `0..2π`, times `seg / 2π`,
/// rounded down, and clamped to the slots that exist.
pub fn slot_index<T: num::Float + num::traits::FloatConst>(dev: Complex<T>, seg: usize) -> (ip:
    usize)
    ensures
        is_slot_index(dev, seg, ip),
        ip < seg || (seg == 0 && ip == 0),
{
    let mut p = dev.arg();
    p = scalar::sum(
        p,
        if scalar::less(p, scalar::zero()) {
            scalar::tau()
        } else {
            scalar::zero()
        },
    );
    p = scalar::product(p, scalar::quotient(from_integer(seg as i128), scalar::tau()));
    let ip = scalar::to_index(scalar::floor(p));
    if seg == 0 {
        0
    } else if ip >= seg {
        seg - 1
    } else {
        ip
    }
}

/// Whether `at` is a pair of cache coordinates that the mapper gives for
/// the world position `pos` in a cache around `origin` with the geometry
/// `rad`, `step`, `seg`: the ring index of the distance of `pos` from
/// `origin`, and the slot index of its direction.
pub open spec fn world_maps<T: num::Float + num::traits::FloatConst>(
    pos: Complex<T>,
    origin: Complex<T>,
    rad: T,
    step: T,
    seg: usize,
    at: (usize, usize),
) -> bool {
    exists|dev: Complex<T>, dist: T|
        {
            &&& #[trigger] call_ensures(Complex::<T>::sub, (pos, origin), dev)
            &&& #[trigger] call_ensures(Complex::<T>::abs, (dev,), dist)
            &&& is_ring_index(dist, rad, step, at.0)
            &&& is_slot_index(dev, seg, at.1)
        }
}

/// The cache coordinates of the world position `pos` in a cache around
/// `origin` whose ring `i` has the radius `rad · step⁻ⁱ` and `seg` slots:
/// the index of the ring nearest to its distance from the origin on the
/// logarithmic scale, never negative, and the angular slot that holds its
/// direction, clamped to the slots that exist. The ring index is not
/// clamped: it may lie beyond the rings that the cache holds.
pub fn world_to_ring_angle<T: num::Float + num::traits::FloatConst>(
    pos: Complex<T>,
    origin: Complex<T>,
    rad: T,
    step: T,
    seg: usize,
) -> (at: (usize, usize))
    ensures
        world_maps(pos, origin, rad, step, seg, at),
        at.1 < seg || (seg == 0 && at.1 == 0),
{
    let dev = pos.sub(origin);
    let ir = ring_index(dev.abs(), rad, step);
    let ip = slot_index(dev, seg);
    (ir, ip)
}

/// The exponent of `step` in the radius of ring `i`: `−i`, saturating at
/// the lowest that the scalar's integer power takes.
pub open spec fn exponent(i: usize) -> i32 {
    if i > i32::MAX {
        (-i32::MAX) as i32
    } else {
        (-(i as int)) as i32
    }
}

/// The radius of ring `i` of a cache whose ring `0` has the radius `rad`
/// and whose rings shrink by the factor `step` from one to the next:
/// `rad · step⁻ⁱ`. The exponent saturates at the largest that the
/// scalar's integer power takes.
pub fn ring_radius<T: num::Float>(rad: T, step: T, i: usize) -> (radius: T)
    ensures
        exists|shrink: T|
            {
                &&& #[trigger] is_powi(step, exponent(i), shrink)
                &&& is_product(rad, shrink, radius)
            },
{
    let e: i32 = if i > i32::MAX as usize {
        i32::MAX
    } else {
        i as i32
    };
    assert(-e == exponent(i));
    scalar::product(rad, scalar::powi(step, -e))
}

/// The angle at which slot `k` of a ring of `size` slots is sampled,
/// `2π / size · k`.
pub fn slot_angle<T: num::Float + num::traits::FloatConst>(size: usize, k: usize) -> (angle: T)
    ensures
        exists|turn: T, slots: T, span: T, slot: T|
            {
                &&& #[trigger] is_tau(turn)
                &&& #[trigger] is_integer::<T>(size as i128, slots)
                &&& #[trigger] is_quotient(turn, slots, span)
                &&& #[trigger] is_integer::<T>(k as i128, slot)
                &&& is_product(span, slot, angle)
            },
{
    let a: T = scalar::quotient(scalar::tau(), from_integer(size as i128));
    scalar::product(a, from_integer(k as i128))
}

/// The position of slot `k` of a ring of `size` slots on the circle of
/// radius `zoom` around `pos`: `pos + zoom · (cos θ, sin θ)` at the slot's
/// angle `θ`.
pub fn slot_position<T: num::Float + num::traits::FloatConst>(
    pos: Complex<T>,
    zoom: Complex<T>,
    size: usize,
    k: usize,
) -> (at: Complex<T>)
    ensures
        exists|angle: T, turn: Complex<T>, arm: Complex<T>|
            {
                &&& #[trigger] call_ensures(slot_angle::<T>, (size, k), angle)
                &&& #[trigger] call_ensures(Complex::<T>::unit, (angle,), turn)
                &&& #[trigger] call_ensures(Complex::<T>::mul, (zoom, turn), arm)
                &&& call_ensures(Complex::<T>::add, (pos, arm), at)
            },
{
    pos.add(zoom.mul(Complex::unit(slot_angle(size, k))))
}

/// Whether `at` is a pair of cache coordinates that the mapper gives for
/// the pixel `(x, y)` of a screen of `w` by `h` pixels, seen through a view
/// at `view_origin` with the scale `scale`, in a cache around
/// `tube_origin` with the geometry `rad`, `step`, `seg`.
pub open spec fn pixel_maps<T: num::Float + num::traits::FloatConst>(
    x: u32,
    y: u32,
    w: u32,
    h: u32,
    view_origin: Complex<T>,
    scale: Complex<T>,
    tube_origin: Complex<T>,
    rad: T,
    step: T,
    seg: usize,
    at: (usize, usize),
) -> bool {
    exists|world: Complex<T>|
        {
            &&& #[trigger] call_ensures(
                pixel_to_world::<T>,
                (x, y, w, h, view_origin, scale),
                world,
            )
            &&& call_ensures(world_to_ring_angle::<T>, (world, tube_origin, rad, step, seg), at)
        }
}

/// Where the scalar's operations are functions, so are the radius of a
/// ring, the angle and the position of a slot, and the mapping of a pixel
/// and of a world position to cache coordinates.
pub proof fn lemma_mapper_functional<T: num::Float + num::traits::FloatConst>()
    requires
        scalar::functional::<T>(),
        scalar::functional_turn::<T>(),
    ensures
        forall|rad: T, step: T, i: usize, r: T, s: T|
            #![trigger call_ensures(ring_radius::<T>, (rad, step, i), r), call_ensures(ring_radius::<T>, (rad, step, i), s)]
            call_ensures(ring_radius::<T>, (rad, step, i), r) && call_ensures(
                ring_radius::<T>,
                (rad, step, i),
                s,
            ) ==> r == s,
        forall|size: usize, k: usize, r: T, s: T|
            #![trigger call_ensures(slot_angle::<T>, (size, k), r), call_ensures(slot_angle::<T>, (size, k), s)]
            call_ensures(slot_angle::<T>, (size, k), r) && call_ensures(
                slot_angle::<T>,
                (size, k),
                s,
            ) ==> r == s,
        forall|pos: Complex<T>, zoom: Complex<T>, size: usize, k: usize, r: Complex<T>, s: Complex<T>|
            #![trigger call_ensures(slot_position::<T>, (pos, zoom, size, k), r), call_ensures(slot_position::<T>, (pos, zoom, size, k), s)]
            call_ensures(slot_position::<T>, (pos, zoom, size, k), r) && call_ensures(
                slot_position::<T>,
                (pos, zoom, size, k),
                s,
            ) ==> r == s,
        forall|
            x: u32,
            y: u32,
            w: u32,
            h: u32,
            view_origin: Complex<T>,
            scale: Complex<T>,
            tube_origin: Complex<T>,
            rad: T,
            step: T,
            seg: usize,
            r: (usize, usize),
            s: (usize, usize),
        |
            #![trigger pixel_maps(x, y, w, h, view_origin, scale, tube_origin, rad, step, seg, r), pixel_maps(x, y, w, h, view_origin, scale, tube_origin, rad, step, seg, s)]
            pixel_maps(x, y, w, h, view_origin, scale, tube_origin, rad, step, seg, r)
                && pixel_maps(x, y, w, h, view_origin, scale, tube_origin, rad, step, seg, s) ==> r
                == s,
{
    crate::complex::lemma_complex_functional::<T>();
    scalar::lemma_conversions_functional::<T>();
}

} // verus!
