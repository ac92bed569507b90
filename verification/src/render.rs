//! The polar ring cache and its time-boxed renderer.
//!
//! The arithmetic of the scalar type is opaque to the verifier, so the
//! contracts here do not compute a depth: they name it by the functions
//! that give it. `call_ensures(f, args, r)` says that `r` is a value that
//! `f` returned for `args`; what is proved is which function was asked,
//! with which arguments, and where its answer went. What the cache holds
//! and how a rendering step changes it is stated over the cache's view, a
//! sequence of rings, and proved outright.

use vstd::prelude::*;
use std::time::Duration;
use crate::clock;
use crate::complex::Complex;
use crate::mapper::{ring_radius, slot_position, world_to_ring_angle};
use crate::scalar;
use crate::scalar::{is_difference, is_integer, is_less, is_product, is_quotient, is_sum};

verus! {

/// One step of the orbit of `c`: `z² + c`, as `mul` and `add` give it.
pub fn orbit_step<T: num::Float>(z: Complex<T>, c: Complex<T>) -> (next: Complex<T>)
    ensures
        exists|square: Complex<T>|
            {
                &&& #[trigger] call_ensures(Complex::<T>::mul, (z, z), square)
                &&& call_ensures(Complex::<T>::add, (square, c), next)
            },
{
    z.mul(z).add(c)
}

/// Whether `z` has left the disc of radius 2: whether `4 < |z|²`, as the
/// scalar of 4, `abs2` and the scalar's comparison give it.
pub fn escaped<T: num::Float>(z: Complex<T>) -> (out: bool)
    ensures
        exists|four: T, size: T|
            {
                &&& #[trigger] is_integer::<T>(4, four)
                &&& #[trigger] call_ensures(Complex::<T>::abs2, (z,), size)
                &&& is_less(four, size, out)
            },
{
    scalar::less(scalar::from_integer(4), z.abs2())
}

/// Whether `depth` is an escape-time depth of `c` under the limit `n`,
/// for an orbit that has come to `z` after `i - 1` steps without
/// escaping: the number of the first step from `i` on, below `n`, after
/// which the orbit has escaped, or `0` when there is none.
pub open spec fn traced<T: num::Float>(c: Complex<T>, z: Complex<T>, i: int, n: int, depth: usize) -> bool
    decreases n - i,
{
    if i >= n {
        depth == 0
    } else {
        exists|next: Complex<T>, out: bool|
            {
                &&& #[trigger] call_ensures(orbit_step::<T>, (z, c), next)
                &&& #[trigger] call_ensures(escaped::<T>, (next,), out)
                &&& if out {
                    depth == i
                } else {
                    traced(c, next, i + 1, n, depth)
                }
            }
    }
}

/// Escape-time depth of `c`: the first step `i` in `1..n` after which the
/// orbit `z ← z² + c`, started at `c`, has squared magnitude above 4, or
/// `0` when it stays bounded for all of those steps.
pub fn trace<T: num::Float>(c: Complex<T>, n: usize) -> (depth: usize)
    ensures
        traced(c, c, 1, n as int, depth),
        depth == 0 || 1 <= depth < n,
{
    let mut z = c;
    let mut i: usize = 1;
    while i < n
        invariant
            1 <= i,
            forall|d: usize| traced(c, z, i as int, n as int, d) ==> traced(c, c, 1, n as int, d),
        decreases n - i,
    {
        let ghost prev = z;
        z = orbit_step(z, c);
        if escaped(z) {
            assert(traced(c, prev, i as int, n as int, i));
            return i;
        }
        assert forall|d: usize| traced(c, z, i + 1, n as int, d) implies traced(
            c,
            c,
            1,
            n as int,
            d,
        ) by {
            assert(traced(c, prev, i as int, n as int, d));
        }
        i += 1;
    }
    assert(traced(c, z, i as int, n as int, 0));
    0
}

/// Where the test for escape never answers yes, the depth is `0` whatever
/// the limit: an orbit that stays bounded is traced as bounded.
pub proof fn law_bounded_orbit_has_no_depth<T: num::Float>(
    c: Complex<T>,
    z: Complex<T>,
    i: int,
    n: int,
    depth: usize,
)
    requires
        traced(c, z, i, n, depth),
        forall|w: Complex<T>| !call_ensures(escaped::<T>, (w,), true),
    ensures
        depth == 0,
    decreases n - i,
{
    if i < n {
        let (next, out) = choose|next: Complex<T>, out: bool|
            {
                &&& #[trigger] call_ensures(orbit_step::<T>, (z, c), next)
                &&& #[trigger] call_ensures(escaped::<T>, (next,), out)
                &&& if out {
                    depth == i
                } else {
                    traced(c, next, i + 1, n, depth)
                }
            };
        law_bounded_orbit_has_no_depth(c, next, i + 1, n, depth);
    }
}

/// Where the test for escape answers yes for whatever the first step of
/// the orbit gives, the depth is `1` under every limit that allows a
/// step.
pub proof fn law_escape_at_the_first_step<T: num::Float>(c: Complex<T>, n: int, depth: usize)
    requires
        traced(c, c, 1, n, depth),
        n >= 2,
        forall|next: Complex<T>, out: bool|
            call_ensures(orbit_step::<T>, (c, c), next) && #[trigger] call_ensures(
                escaped::<T>,
                (next,),
                out,
            ) ==> out,
    ensures
        depth == 1,
{
}

/// Whether `inside` is an answer to whether `c` lies in the main
/// cardioid: whether `re − ¼ < p − 2p·p` for the distance `p` of `c` from
/// `¼`, each value a result of the operation that the formula names.
pub open spec fn is_in_cardioid<T: num::Float>(c: Complex<T>, inside: bool) -> bool {
    exists|one: T, four: T, quarter: T, re_4: T, p: T, two: T, twice: T, square: T, bound: T|
        {
            &&& #[trigger] is_integer::<T>(1, one)
            &&& #[trigger] is_integer::<T>(4, four)
            &&& #[trigger] is_quotient(one, four, quarter)
            &&& #[trigger] is_difference(c.re, quarter, re_4)
            &&& #[trigger] call_ensures(Complex::<T>::abs, (Complex { re: re_4, im: c.im },), p)
            &&& #[trigger] is_integer::<T>(2, two)
            &&& #[trigger] is_product(two, p, twice)
            &&& #[trigger] is_product(twice, p, square)
            &&& #[trigger] is_difference(p, square, bound)
            &&& is_less(re_4, bound, inside)
        }
}

/// Whether `c` lies in the main cardioid of the set.
pub fn in_cardioid<T: num::Float>(c: Complex<T>) -> (inside: bool)
    ensures
        is_in_cardioid(c, inside),
{
    let one: T = scalar::from_integer(1);
    let quarter: T = scalar::quotient(one, scalar::from_integer(4));
    let re_4 = scalar::difference(c.re, quarter);
    let p = Complex::new(re_4, c.im).abs();
    let two: T = scalar::from_integer(2);
    let bound = scalar::difference(p, scalar::product(scalar::product(two, p), p));
    scalar::less(re_4, bound)
}

/// Whether `inside` is an answer to whether `c` lies in the period-2
/// bulb: whether `|c + 1|² < 1/16`, each value a result of the operation
/// that the formula names.
pub open spec fn is_in_bulb<T: num::Float>(c: Complex<T>, inside: bool) -> bool {
    exists|one: T, re1: T, size: T, sixteen: T, sixteenth: T|
        {
            &&& #[trigger] is_integer::<T>(1, one)
            &&& #[trigger] is_sum(c.re, one, re1)
            &&& #[trigger] call_ensures(Complex::<T>::abs2, (Complex { re: re1, im: c.im },), size)
            &&& #[trigger] is_integer::<T>(16, sixteen)
            &&& #[trigger] is_quotient(one, sixteen, sixteenth)
            &&& is_less(size, sixteenth, inside)
        }
}

/// Whether `c` lies in the period-2 bulb of the set, the disc of radius
/// `¼` around `−1`.
pub fn in_bulb<T: num::Float>(c: Complex<T>) -> (inside: bool)
    ensures
        is_in_bulb(c, inside),
{
    let one: T = scalar::from_integer(1);
    let re1 = scalar::sum(c.re, one);
    let size = Complex::new(re1, c.im).abs2();
    let sixteenth: T = scalar::quotient(one, scalar::from_integer(16));
    scalar::less(size, sixteenth)
}

/// Whether `c` lies in the main cardioid or in the period-2 bulb, where
/// every orbit stays bounded: yes where `in_cardioid` says so, and
/// otherwise what `in_bulb` says.
pub fn check_cardio<T: num::Float>(c: Complex<T>) -> (inside: bool)
    ensures
        exists|cardioid: bool|
            {
                &&& #[trigger] is_in_cardioid(c, cardioid)
                &&& if cardioid {
                    inside
                } else {
                    is_in_bulb(c, inside)
                }
            },
{
    in_cardioid(c) || in_bulb(c)
}

/// Whether `depth` is a depth that sampling gives for the position `c`
/// under the limit `limit`: `0` where the cardioid test answers yes, an
/// escape-time depth of `c` where it answers no.
pub open spec fn depth_traced<T: num::Float>(c: Complex<T>, limit: usize, depth: usize) -> bool {
    exists|inside: bool|
        {
            &&& #[trigger] call_ensures(check_cardio::<T>, (c,), inside)
            &&& if inside {
                depth == 0
            } else {
                traced(c, c, 1, limit as int, depth)
            }
        }
}

/// One cached sample: the escape depth at one position.
#[derive(Clone, Copy, Debug)]
pub struct Point {
    pub depth: usize,
}

impl Point {
    /// A sample of depth `0`.
    pub fn new() -> (p: Self)
        ensures
            p.depth == 0,
    {
        Point { depth: 0 }
    }

    /// Stores the escape depth of `c` under the limit `n`: `0` inside the
    /// cardioid or the bulb, the traced depth elsewhere.
    pub fn trace<T: num::Float>(&mut self, c: Complex<T>, n: usize)
        ensures
            depth_traced(c, n, final(self).depth),
            final(self).depth == 0 || 1 <= final(self).depth < n,
    {
        self.depth = if check_cardio(c) {
            0
        } else {
            self::trace(c, n)
        };
    }
}

/// One radial band of the cache: `seg` samples spread evenly over the full
/// turn, and whether they have been computed since the last reset.
#[derive(Clone, Debug)]
pub struct Ring {
    pub done: bool,
    pub points: Vec<Point>,
}

impl View for Ring {
    type V = Option<Seq<usize>>;

    /// What a reader may see of the ring: its depths in angular order once
    /// it is done, nothing before.
    open spec fn view(&self) -> Option<Seq<usize>> {
        if self.done {
            Some(Seq::new(self.points@.len(), |k: int| self.points@[k].depth))
        } else {
            None
        }
    }
}

/// Whether a depth is one that tracing under the limit `limit` can give.
pub open spec fn depth_in_range(depth: usize, limit: usize) -> bool {
    depth == 0 || 1 <= depth < limit
}

/// Whether `depth` is a depth that sampling gives for slot `k` of a ring
/// of `size` slots on the circle of radius `zoom` around `pos`.
pub open spec fn slot_sampled<T: num::Float + num::traits::FloatConst>(
    pos: Complex<T>,
    zoom: Complex<T>,
    size: usize,
    k: usize,
    limit: usize,
    depth: usize,
) -> bool {
    exists|c: Complex<T>|
        {
            &&& #[trigger] call_ensures(slot_position::<T>, (pos, zoom, size, k), c)
            &&& depth_traced(c, limit, depth)
        }
}

/// Whether the first `n` of the samples all have depth `0`.
pub open spec fn all_zero(points: Seq<Point>, n: int) -> bool {
    forall|k: int| 0 <= k < n ==> (#[trigger] points[k]).depth == 0
}

impl Ring {
    /// A ring with no samples, not done.
    pub fn new() -> (r: Self)
        ensures
            !r.done,
            r.points@.len() == 0,
            r@ is None,
    {
        Ring { done: false, points: Vec::new() }
    }

    /// Computes the ring's `size` samples on the circle of radius `zoom`
    /// around `pos`, slot `k` at the angle `2πk / size`, each traced under
    /// the limit `depth`, and marks the ring done. Returns whether every
    /// depth came out `0`.
    pub fn render<T: num::Float + num::traits::FloatConst>(
        &mut self,
        size: usize,
        pos: Complex<T>,
        zoom: Complex<T>,
        depth: usize,
    ) -> (zero: bool)
        ensures
            final(self).done,
            final(self).points@.len() == size,
            forall|k: int| 0 <= k < size ==> depth_in_range(#[trigger] final(self).points@[k].depth, depth),
            forall|k: int|
                0 <= k < size ==> slot_sampled(
                    pos,
                    zoom,
                    size,
                    k as usize,
                    depth,
                    #[trigger] final(self).points@[k].depth,
                ),
            zero <==> all_zero(final(self).points@, size as int),
    {
        self.points.resize(size, Point::new());
        let mut zero = true;
        let mut i: usize = 0;
        while i < size
            invariant
                i <= size,
                self.points@.len() == size,
                forall|k: int| 0 <= k < i ==> depth_in_range(#[trigger] self.points@[k].depth, depth),
                forall|k: int|
                    0 <= k < i ==> slot_sampled(
                        pos,
                        zoom,
                        size,
                        k as usize,
                        depth,
                        #[trigger] self.points@[k].depth,
                    ),
                zero <==> all_zero(self.points@, i as int),
            decreases size - i,
        {
            let ghost before = self.points@;
            self.points[i].trace(slot_position(pos, zoom, size, i), depth);
            if self.points[i].depth > 0 {
                zero = false;
            }
            let ghost point = self.points@[i as int];
            proof {
                let after = self.points@;
                if all_zero(before, i as int) && point.depth == 0 {
                    assert forall|k: int| 0 <= k < i + 1 implies (#[trigger] after[k]).depth == 0 by {
                        if k < i {
                            assert(after[k] == before[k]);
                        }
                    }
                }
                if all_zero(after, i + 1) {
                    assert(after[i as int].depth == 0);
                    assert forall|k: int| 0 <= k < i implies (#[trigger] before[k]).depth == 0 by {
                        assert(after[k] == before[k]);
                    }
                }
            }
            i += 1;
        }
        self.done = true;
        zero
    }
}

/// How one bounded rendering step ended.
#[derive(Clone, Copy, Debug, PartialEq, Eq, Structural)]
pub enum Status {
    /// Every requested ring is now done.
    Done,
    /// The time budget ran out after a ring was completed.
    Timeout,
    /// Every requested ring was done already; nothing was computed.
    Idle,
}

/// The cache as its readers see it: for each ring index, the ring's depths
/// once the ring is done.
pub type Cache = Seq<Option<Seq<usize>>>;

/// The depth that a reader gets at ring `ir`, slot `ip` of a cache with
/// `seg` slots to the ring: the stored depth of a done ring, `0` wherever
/// there is none.
pub open spec fn lookup(cache: Cache, seg: usize, ir: usize, ip: usize) -> usize {
    if ip < seg && ir < cache.len() {
        match cache[ir as int] {
            Some(depths) => if ip < depths.len() {
                depths[ip as int]
            } else {
                0
            },
            None => 0,
        }
    } else {
        0
    }
}

/// The cache grown to at least `end` rings, the new ones not done.
pub open spec fn extended(cache: Cache, end: usize) -> Cache {
    if end <= cache.len() {
        cache
    } else {
        cache + Seq::new((end - cache.len()) as nat, |i: int| None::<Seq<usize>>)
    }
}

/// Whether every ring of the window `begin..end` exists and is done.
pub open spec fn window_done(cache: Cache, begin: usize, end: usize) -> bool {
    forall|i: int| begin <= i < end ==> i < cache.len() && (#[trigger] cache[i]) is Some
}

/// Whether a done ring has `seg` samples, each of a depth that tracing
/// under `limit` can give.
pub open spec fn ring_complete(ring: Option<Seq<usize>>, seg: usize, limit: usize) -> bool {
    match ring {
        Some(depths) => {
            &&& depths.len() == seg
            &&& forall|k: int| 0 <= k < seg ==> depth_in_range(#[trigger] depths[k], limit)
        },
        None => false,
    }
}

/// Whether `depths` are depths that sampling gives for ring `ring` of a
/// cache around `origin` with the geometry `rad`, `step`, `seg`, traced
/// under `limit`: slot by slot, on the circle whose radius is the ring's.
pub open spec fn ring_sampled<T: num::Float + num::traits::FloatConst>(
    origin: Complex<T>,
    rad: T,
    step: T,
    seg: usize,
    limit: usize,
    ring: usize,
    depths: Seq<usize>,
) -> bool {
    exists|radius: T, zoom: Complex<T>|
        {
            &&& #[trigger] call_ensures(ring_radius::<T>, (rad, step, ring), radius)
            &&& #[trigger] call_ensures(Complex::<T>::from, (radius,), zoom)
            &&& forall|k: int|
                0 <= k < depths.len() ==> slot_sampled(
                    origin,
                    zoom,
                    seg,
                    k as usize,
                    limit,
                    #[trigger] depths[k],
                )
        }
}

/// The relation between the cache before a rendering step on the window
/// `begin..end`, the status the step returns, and the cache after it.
///
/// The cache is first grown to `end` rings. Rings outside the window and
/// rings already done are never touched. With the whole window done the
/// step is `Idle`. Otherwise it completes the rings of the window that are
/// not done, in increasing order, and is `Done` when it got through all of
/// them; it is `Timeout` when it stopped after completing one of them, and
/// then every ring of the window up to that one is done and every later
/// ring is as it was.
pub open spec fn render_step(
    old_cache: Cache,
    seg: usize,
    limit: usize,
    begin: usize,
    end: usize,
    status: Status,
    new_cache: Cache,
) -> bool {
    let pre = extended(old_cache, end);
    &&& new_cache.len() == pre.len()
    &&& forall|j: int|
        0 <= j < pre.len() && (j < begin || end <= j || pre[j] is Some) ==> #[trigger] new_cache[j]
            == pre[j]
    &&& forall|j: int|
        begin <= j < end && pre[j] is None && (#[trigger] new_cache[j]) is Some ==> ring_complete(
            new_cache[j],
            seg,
            limit,
        )
    &&& match status {
        Status::Idle => window_done(pre, begin, end),
        Status::Done => !window_done(pre, begin, end) && window_done(new_cache, begin, end),
        Status::Timeout => exists|stop: int|
            {
                &&& begin <= stop < end
                &&& (#[trigger] pre[stop]) is None
                &&& forall|j: int| begin <= j <= stop ==> (#[trigger] new_cache[j]) is Some
                &&& forall|j: int| stop < j < pre.len() ==> #[trigger] new_cache[j] == pre[j]
            },
    }
}

/// What the answers of the clock have to do with the status of a
/// rendering step. `said_late` and `said_in_time` say whether the clock
/// has answered yes, and no, to whether the budget is spent. `Timeout`
/// comes only from a yes and `Done` only from a no; and where the step
/// completed a ring after another one, the clock had said no in between.
/// So a clock that never says yes gives `Done` or `Idle`, and one that
/// never says no gives `Idle`, or `Timeout` with one ring completed.
pub open spec fn paced(
    old_cache: Cache,
    begin: usize,
    end: usize,
    status: Status,
    new_cache: Cache,
    said_late: bool,
    said_in_time: bool,
) -> bool {
    let pre = extended(old_cache, end);
    &&& status == Status::Timeout ==> said_late
    &&& status == Status::Done ==> said_in_time
    &&& forall|j: int, k: int|
        begin <= j < k < end && (#[trigger] pre[j]) is None && pre[k] is None && (
        #[trigger] new_cache[k]) is Some ==> said_in_time
}

/// The polar cache: rings of escape depths around `pos`, ring `i` at the
/// radius `rad · step⁻ⁱ`, each with `seg` samples traced under the limit
/// `depth`.
pub struct Tube<T> {
    pub pos: Complex<T>,
    pub rad: T,
    pub seg: usize,
    pub step: T,
    pub depth: usize,
    pub rings: Vec<Ring>,
    pub zero: bool,
}

impl<T> View for Tube<T> {
    type V = Cache;

    open spec fn view(&self) -> Cache {
        Seq::new(self.rings@.len(), |i: int| self.rings@[i]@)
    }
}

/// Whether `after` is the cache `before` after a rendering step on the
/// window `begin..end` that answered `status`.
///
/// Over the view, the step is a `render_step`, and every ring that it
/// completed holds the depths that sampling gives for it. Over the rings
/// themselves, every ring that it did not complete is as it was, samples
/// and all, and every ring that it added and did not complete is empty.
/// The origin, the geometry, the limit and the flag are as they were.
pub open spec fn rendered<T: num::Float + num::traits::FloatConst>(
    before: Tube<T>,
    begin: usize,
    end: usize,
    status: Status,
    after: Tube<T>,
) -> bool {
    &&& render_step(before@, before.seg, before.depth, begin, end, status, after@)
    &&& forall|j: int|
        begin <= j < end && extended(before@, end)[j] is None && (#[trigger] after@[j]) is Some
            ==> ring_sampled(
            before.pos,
            before.rad,
            before.step,
            before.seg,
            before.depth,
            j as usize,
            after@[j].unwrap(),
        )
    &&& after.rings@.len() == after@.len()
    &&& forall|j: int|
        0 <= j < before.rings@.len() && (j < begin || end <= j || before.rings@[j].done || !(
        #[trigger] after.rings@[j]).done) ==> after.rings@[j] == before.rings@[j]
    &&& forall|j: int|
        before.rings@.len() <= j < after.rings@.len() && !(#[trigger] after.rings@[j]).done
            ==> after.rings@[j].points@.len() == 0
    &&& after.pos == before.pos
    &&& after.rad == before.rad
    &&& after.seg == before.seg
    &&& after.step == before.step
    &&& after.depth == before.depth
    &&& after.zero == before.zero
    &&& before.wf() ==> after.wf()
}

/// The rings that a rendering step has not completed are as they were
/// before it, or empty where the step added them: from what holds of the
/// rings when the step has come to ring `upto`.
proof fn lemma_rings_kept<T: num::Float + num::traits::FloatConst>(
    before: Tube<T>,
    grown: Seq<Ring>,
    after: Tube<T>,
    begin: usize,
    end: usize,
    upto: int,
)
    requires
        begin <= upto <= end,
        after.rings@.len() == grown.len(),
        before.rings@.len() <= grown.len(),
        forall|j: int| 0 <= j < before.rings@.len() ==> grown[j] == before.rings@[j],
        forall|j: int|
            before.rings@.len() <= j < grown.len() ==> {
                &&& !(#[trigger] grown[j]).done
                &&& grown[j].points@.len() == 0
            },
        forall|j: int|
            0 <= j < grown.len() && (j < begin || upto <= j || grown[j].done)
                ==> #[trigger] after.rings@[j] == grown[j],
        forall|j: int| begin <= j < upto && j < grown.len() ==> (#[trigger] after.rings@[j]).done,
    ensures
        forall|j: int|
            0 <= j < before.rings@.len() && (j < begin || end <= j || before.rings@[j].done || !(
            #[trigger] after.rings@[j]).done) ==> after.rings@[j] == before.rings@[j],
        forall|j: int|
            before.rings@.len() <= j < after.rings@.len() && !(#[trigger] after.rings@[j]).done
                ==> after.rings@[j].points@.len() == 0,
{
    assert forall|j: int|
        0 <= j < before.rings@.len() && (j < begin || end <= j || before.rings@[j].done || !(
        #[trigger] after.rings@[j]).done) implies after.rings@[j] == before.rings@[j] by {
        assert(grown[j] == before.rings@[j]);
    }
    assert forall|j: int|
        before.rings@.len() <= j < after.rings@.len() && !(
        #[trigger] after.rings@[j]).done implies after.rings@[j].points@.len() == 0 by {
        assert(!grown[j].done);
    }
}

impl<T: num::Float + num::traits::FloatConst> Tube<T> {
    /// Whether every done ring holds exactly `seg` samples.
    pub open spec fn wf(&self) -> bool {
        forall|i: int|
            0 <= i < self.rings@.len() && (#[trigger] self.rings@[i]).done
                ==> self.rings@[i].points@.len() == self.seg
    }

    /// The depth that `get` returns at ring `ir`, slot `ip`.
    pub open spec fn get_spec(&self, ir: usize, ip: usize) -> usize {
        lookup(self@, self.seg, ir, ip)
    }

    /// An empty cache with the given geometry, anchored at the complex
    /// number that `Complex::from` gives for the scalar of `0`.
    pub fn new(rad: T, seg: usize, step: T, depth: usize) -> (tube: Self)
        ensures
            exists|zero: T|
                {
                    &&& #[trigger] is_integer::<T>(0, zero)
                    &&& call_ensures(Complex::<T>::from, (zero,), tube.pos)
                },
            tube.rad == rad,
            tube.seg == seg,
            tube.step == step,
            tube.depth == depth,
            tube.rings@.len() == 0,
            tube@ == Seq::<Option<Seq<usize>>>::empty(),
            !tube.zero,
            tube.wf(),
    {
        let tube = Tube {
            pos: Complex::from(scalar::from_integer(0)),
            rad: rad,
            seg: seg,
            step: step,
            depth: depth,
            rings: Vec::new(),
            zero: false,
        };
        assert(tube@ =~= Seq::<Option<Seq<usize>>>::empty());
        tube
    }

    /// Re-anchors the cache at `pos` and discards every ring.
    pub fn put(&mut self, pos: Complex<T>)
        ensures
            final(self).pos == pos,
            final(self).rings@.len() == 0,
            final(self)@ == Seq::<Option<Seq<usize>>>::empty(),
            !final(self).zero,
            final(self).rad == old(self).rad,
            final(self).seg == old(self).seg,
            final(self).step == old(self).step,
            final(self).depth == old(self).depth,
            final(self).wf(),
    {
        self.pos = pos;
        self.rings.clear();
        self.zero = false;
        assert(self@ =~= Seq::<Option<Seq<usize>>>::empty());
    }

    /// The depth cached at ring `ir`, slot `ip`, or `0` where the ring does
    /// not exist, is not done, or has no such slot.
    pub fn get(&self, ir: usize, ip: usize) -> (depth: usize)
        ensures
            depth == self.get_spec(ir, ip),
    {
        if ip < self.seg && ir < self.rings.len() && self.rings[ir].done && ip
            < self.rings[ir].points.len() {
            self.rings[ir].points[ip].depth
        } else {
            0
        }
    }

    /// The radius of ring `i`, as the mapper's `ring_radius` gives it for
    /// this cache's geometry.
    pub fn ring_radius(&self, i: usize) -> (radius: T)
        ensures
            call_ensures(ring_radius::<T>, (self.rad, self.step, i), radius),
    {
        ring_radius(self.rad, self.step, i)
    }

    /// Renders the rings of the window `begin..end` that are not done, in
    /// increasing order, and asks `late` after each of them whether the
    /// time budget is spent: the step ends with `Timeout` on the first
    /// yes, with `Done` when the last ring was completed and the answer
    /// was no, and with `Idle`, without asking, when there was nothing to
    /// render. See `rendered` and `paced`.
    pub fn render_paced<F: Fn() -> bool>(&mut self, begin: usize, end: usize, late: F) -> (status:
        Status)
        requires
            call_requires(late, ()),
        ensures
            rendered(*old(self), begin, end, status, *final(self)),
            paced(
                old(self)@,
                begin,
                end,
                status,
                final(self)@,
                call_ensures(late, (), true),
                call_ensures(late, (), false),
            ),
    {
        let ghost pre = extended(old(self)@, end);
        while self.rings.len() < end
            invariant
                self.pos == old(self).pos,
                self.rad == old(self).rad,
                self.seg == old(self).seg,
                self.step == old(self).step,
                self.depth == old(self).depth,
                self.zero == old(self).zero,
                old(self).rings@.len() <= self.rings@.len(),
                self.rings@.len() <= end || self.rings@.len() == old(self).rings@.len(),
                forall|j: int| 0 <= j < old(self).rings@.len() ==> self.rings@[j] == old(self).rings@[j],
                forall|j: int|
                    old(self).rings@.len() <= j < self.rings@.len() ==> {
                        &&& !(#[trigger] self.rings@[j]).done
                        &&& self.rings@[j].points@.len() == 0
                    },
            decreases end - self.rings@.len(),
        {
            self.rings.push(Ring::new());
        }
        assert(self@ =~= pre);
        assert(old(self).wf() ==> self.wf());
        let ghost grown = self.rings@;

        let mut complete = true;
        let mut i: usize = begin;
        while i < end
            invariant_except_break
                complete,
                forall|j: int| begin <= j < i ==> (#[trigger] self@[j]) is Some,
            invariant
                begin <= i,
                self@ == pre,
                end <= self.rings@.len(),
            ensures
                complete <==> window_done(pre, begin, end),
            decreases end - i,
        {
            if !self.rings[i].done {
                complete = false;
                assert(pre[i as int] is None);
                break;
            }
            assert(self@[i as int] is Some);
            i += 1;
        }
        if complete {
            return Status::Idle;
        }
        let mut i: usize = begin;
        while i < end
            invariant
                begin <= i <= end,
                end <= self.rings@.len(),
                call_requires(late, ()),
                pre == extended(old(self)@, end),
                !window_done(pre, begin, end),
                self@.len() == pre.len(),
                self.rings@.len() == grown.len(),
                old(self).rings@.len() <= grown.len(),
                self.pos == old(self).pos,
                self.rad == old(self).rad,
                self.seg == old(self).seg,
                self.step == old(self).step,
                self.depth == old(self).depth,
                self.zero == old(self).zero,
                old(self).wf() ==> self.wf(),
                forall|j: int| 0 <= j < old(self).rings@.len() ==> grown[j] == old(self).rings@[j],
                forall|j: int|
                    old(self).rings@.len() <= j < grown.len() ==> {
                        &&& !(#[trigger] grown[j]).done
                        &&& grown[j].points@.len() == 0
                    },
                forall|j: int|
                    0 <= j < grown.len() && (j < begin || i <= j || grown[j].done)
                        ==> #[trigger] self.rings@[j] == grown[j],
                forall|j: int|
                    0 <= j < pre.len() && (j < begin || i <= j || pre[j] is Some) ==> #[trigger] self@[j]
                        == pre[j],
                forall|j: int| begin <= j < i ==> (#[trigger] self@[j]) is Some,
                forall|j: int|
                    begin <= j < i && pre[j] is None ==> ring_complete(
                        #[trigger] self@[j],
                        self.seg,
                        self.depth,
                    ),
                forall|j: int|
                    begin <= j < i && pre[j] is None ==> ring_sampled(
                        self.pos,
                        self.rad,
                        self.step,
                        self.seg,
                        self.depth,
                        j as usize,
                        (#[trigger] self@[j]).unwrap(),
                    ),
                forall|j: int|
                    begin <= j < i && (#[trigger] pre[j]) is None ==> call_ensures(late, (), false),
            decreases end - i,
        {
            if !self.rings[i].done {
                let radius = self.ring_radius(i);
                let zoom = Complex::from(radius);
                let ghost before = self@;
                let ghost rings_before = self.rings@;
                assert(before[i as int] is None);
                assert(pre[i as int] is None);
                self.rings[i].render(self.seg, self.pos, zoom, self.depth);
                let ghost ring = self.rings@[i as int];
                proof {
                    assert forall|j: int| 0 <= j < self@.len() && j != i implies #[trigger] self@[j]
                        == before[j] by {}
                    assert forall|j: int|
                        0 <= j < grown.len() && j != i implies #[trigger] self.rings@[j]
                        == rings_before[j] by {}
                    assert(self@[i as int] == ring@);
                    assert(ring_sampled(
                        self.pos,
                        self.rad,
                        self.step,
                        self.seg,
                        self.depth,
                        i,
                        ring@.unwrap(),
                    )) by {
                        let depths = ring@.unwrap();
                        assert forall|k: int| 0 <= k < depths.len() implies slot_sampled(
                            self.pos,
                            zoom,
                            self.seg,
                            k as usize,
                            self.depth,
                            #[trigger] depths[k],
                        ) by {
                            assert(depths[k] == ring.points@[k].depth);
                        }
                    }
                }
                if late() {
                    proof {
                        assert forall|j: int| begin <= j < i + 1 implies (
                        #[trigger] self.rings@[j]).done by {
                            assert(self@[j] is Some);
                        }
                        lemma_rings_kept(*old(self), grown, *self, begin, end, i as int + 1);
                    }
                    return Status::Timeout;
                }
            }
            i += 1;
        }
        proof {
            assert forall|j: int| begin <= j < end implies (#[trigger] self.rings@[j]).done by {
                assert(self@[j] is Some);
            }
            lemma_rings_kept(*old(self), grown, *self, begin, end, end as int);
            let first = choose|j: int| begin <= j < end && !(j < pre.len() && (#[trigger] pre[j]) is Some);
            assert(pre[first] is None);
        }
        Status::Done
    }

    /// Renders the rings of the window `begin..end` that are not done, in
    /// increasing order, until all are done or more than `timeout` has
    /// gone by, since the call began, after one of them was completed.
    /// `Timeout` comes only from a clock that said the budget was spent,
    /// `Done` only from one that said it was not. See `rendered` and
    /// `paced`.
    pub fn render(&mut self, begin: usize, end: usize, timeout: Duration) -> (status: Status)
        ensures
            rendered(*old(self), begin, end, status, *final(self)),
            paced(
                old(self)@,
                begin,
                end,
                status,
                final(self)@,
                clock::said(timeout, true),
                clock::said(timeout, false),
            ),
    {
        let time = clock::now();
        let late = || -> (late: bool)
            ensures
                clock::is_expired(&time, timeout, late),
            { clock::expired(&time, timeout) };
        let status = self.render_paced(begin, end, late);
        proof {
            if call_ensures(late, (), true) {
                assert(clock::is_expired(&time, timeout, true));
            }
            if call_ensures(late, (), false) {
                assert(clock::is_expired(&time, timeout, false));
            }
        }
        status
    }

    /// The cache coordinates of the world position `pos`, as the mapper's
    /// `world_to_ring_angle` gives them for this cache's origin and
    /// geometry. The slot is one that exists; the ring may lie beyond the
    /// rings that the cache holds, where `get` answers `0`.
    pub fn rad_pos(&self, pos: Complex<T>) -> (at: (usize, usize))
        ensures
            call_ensures(
                world_to_ring_angle::<T>,
                (pos, self.pos, self.rad, self.step, self.seg),
                at,
            ),
            at.1 < self.seg || (self.seg == 0 && at.1 == 0),
    {
        world_to_ring_angle(pos, self.pos, self.rad, self.step, self.seg)
    }
}

/// The number of rings of the window `begin..end` that are missing or not
/// done.
pub open spec fn undone(cache: Cache, begin: int, end: int) -> nat
    decreases end - begin,
{
    if begin >= end {
        0
    } else {
        let here: nat = if 0 <= begin < cache.len() && cache[begin] is Some {
            0
        } else {
            1
        };
        here + undone(cache, begin + 1, end)
    }
}

proof fn lemma_undone_monotone(pre: Cache, post: Cache, begin: int, end: int)
    requires
        0 <= begin,
        pre.len() == post.len(),
        forall|j: int| begin <= j < end && j < pre.len() && pre[j] is Some ==> (#[trigger] post[j]) is Some,
    ensures
        undone(post, begin, end) <= undone(pre, begin, end),
    decreases end - begin,
{
    if begin < end {
        lemma_undone_monotone(pre, post, begin + 1, end);
    }
}

proof fn lemma_undone_decreases(pre: Cache, post: Cache, begin: int, end: int, at: int)
    requires
        0 <= begin <= at < end,
        at < pre.len(),
        pre.len() == post.len(),
        forall|j: int| begin <= j < end && j < pre.len() && pre[j] is Some ==> (#[trigger] post[j]) is Some,
        pre[at] is None,
        post[at] is Some,
    ensures
        undone(post, begin, end) < undone(pre, begin, end),
    decreases end - begin,
{
    if begin == at {
        lemma_undone_monotone(pre, post, begin + 1, end);
    } else {
        lemma_undone_decreases(pre, post, begin + 1, end, at);
    }
}

/// A rendering step that answers `Idle` found every ring of its window
/// done and changed nothing but the number of rings.
pub proof fn law_idle_means_done(
    old_cache: Cache,
    seg: usize,
    limit: usize,
    begin: usize,
    end: usize,
    new_cache: Cache,
)
    requires
        render_step(old_cache, seg, limit, begin, end, Status::Idle, new_cache),
    ensures
        window_done(new_cache, begin, end),
        new_cache == extended(old_cache, end),
{
    let pre = extended(old_cache, end);
    assert forall|j: int| 0 <= j < pre.len() implies #[trigger] new_cache[j] == pre[j] by {
        if begin <= j < end {
            assert(pre[j] is Some);
        }
    }
    assert(new_cache =~= pre);
}

/// Once a rendering step has answered `Idle` or `Done`, every further step
/// on the same window answers `Idle` and leaves the cache as it is.
pub proof fn law_render_idempotent(
    cache: Cache,
    seg: usize,
    limit: usize,
    begin: usize,
    end: usize,
    first: Status,
    after_first: Cache,
    second: Status,
    after_second: Cache,
)
    requires
        render_step(cache, seg, limit, begin, end, first, after_first),
        first != Status::Timeout,
        render_step(after_first, seg, limit, begin, end, second, after_second),
    ensures
        second == Status::Idle,
        after_second == after_first,
{
    if first == Status::Idle {
        law_idle_means_done(cache, seg, limit, begin, end, after_first);
    }
    assert(window_done(after_first, begin, end));
    assert(after_first.len() == extended(cache, end).len());
    assert(extended(after_first, end) =~= after_first);
    law_still_idle(after_first, seg, limit, begin, end, second, after_second);
}

/// A rendering step on a window whose rings are all done answers `Idle`
/// and leaves the cache as it is.
pub proof fn law_still_idle(
    cache: Cache,
    seg: usize,
    limit: usize,
    begin: usize,
    end: usize,
    status: Status,
    new_cache: Cache,
)
    requires
        window_done(cache, begin, end),
        end <= cache.len(),
        render_step(cache, seg, limit, begin, end, status, new_cache),
    ensures
        status == Status::Idle,
        new_cache == cache,
{
    assert(extended(cache, end) == cache);
    if status == Status::Timeout {
        let stop = choose|stop: int|
            {
                &&& begin <= stop < end
                &&& (#[trigger] cache[stop]) is None
                &&& forall|j: int| begin <= j <= stop ==> (#[trigger] new_cache[j]) is Some
                &&& forall|j: int| stop < j < cache.len() ==> #[trigger] new_cache[j] == cache[j]
            };
        assert(cache[stop] is Some);
    }
    law_idle_means_done(cache, seg, limit, begin, end, new_cache);
}

/// A rendering step that does not answer `Idle` completes at least one
/// ring: fewer rings of the window are left undone than before. So steps
/// repeated on one window reach `Idle`, after at most as many steps that
/// time out as the window has rings.
pub proof fn law_render_progress(
    old_cache: Cache,
    seg: usize,
    limit: usize,
    begin: usize,
    end: usize,
    status: Status,
    new_cache: Cache,
)
    requires
        render_step(old_cache, seg, limit, begin, end, status, new_cache),
        status != Status::Idle,
    ensures
        undone(new_cache, begin as int, end as int) < undone(old_cache, begin as int, end as int),
{
    let pre = extended(old_cache, end);
    lemma_undone_extended(old_cache, end, begin as int, end as int);
    let at = if status == Status::Timeout {
        choose|stop: int|
            {
                &&& begin <= stop < end
                &&& (#[trigger] pre[stop]) is None
                &&& forall|j: int| begin <= j <= stop ==> (#[trigger] new_cache[j]) is Some
                &&& forall|j: int| stop < j < pre.len() ==> #[trigger] new_cache[j] == pre[j]
            }
    } else {
        choose|i: int| begin <= i < end && !(i < pre.len() && (#[trigger] pre[i]) is Some)
    };
    assert(begin <= at < end);
    assert(at < pre.len());
    assert(pre[at] is None);
    assert(new_cache[at] is Some);
    lemma_undone_decreases(pre, new_cache, begin as int, end as int, at);
}

proof fn lemma_undone_extended(cache: Cache, len: usize, begin: int, end: int)
    requires
        0 <= begin,
    ensures
        undone(extended(cache, len), begin, end) == undone(cache, begin, end),
    decreases end - begin,
{
    if begin < end {
        lemma_undone_extended(cache, len, begin + 1, end);
    }
}

/// A rendering step that answers `Idle` leaves every ring that the cache
/// held as it was, samples included; and where the cache held the whole
/// window, it leaves the rings as they were altogether.
pub proof fn law_idle_keeps_rings<T: num::Float + num::traits::FloatConst>(
    before: Tube<T>,
    begin: usize,
    end: usize,
    after: Tube<T>,
)
    requires
        rendered(before, begin, end, Status::Idle, after),
    ensures
        forall|j: int|
            0 <= j < before.rings@.len() ==> #[trigger] after.rings@[j] == before.rings@[j],
        end <= before.rings@.len() ==> after.rings@ == before.rings@,
{
    let pre = extended(before@, end);
    assert forall|j: int| 0 <= j < before.rings@.len() implies #[trigger] after.rings@[j]
        == before.rings@[j] by {
        if begin <= j < end {
            assert(pre[j] is Some);
            assert(before@[j] is Some);
        }
    }
    if end <= before.rings@.len() {
        assert(pre == before@);
        assert(after.rings@ =~= before.rings@);
    }
}

/// With a clock that never says the budget is spent, a rendering step on
/// a window that is not done answers `Done`.
pub proof fn law_in_time_is_done(
    old_cache: Cache,
    seg: usize,
    limit: usize,
    begin: usize,
    end: usize,
    status: Status,
    new_cache: Cache,
    said_in_time: bool,
)
    requires
        render_step(old_cache, seg, limit, begin, end, status, new_cache),
        paced(old_cache, begin, end, status, new_cache, false, said_in_time),
        !window_done(extended(old_cache, end), begin, end),
    ensures
        status == Status::Done,
        window_done(new_cache, begin, end),
{
}

/// With a clock that always says the budget is spent, a rendering step
/// on a window that is not done answers `Timeout` and has completed one
/// ring, the first of the window that was not done.
pub proof fn law_late_is_one_ring(
    old_cache: Cache,
    seg: usize,
    limit: usize,
    begin: usize,
    end: usize,
    status: Status,
    new_cache: Cache,
    said_late: bool,
)
    requires
        render_step(old_cache, seg, limit, begin, end, status, new_cache),
        paced(old_cache, begin, end, status, new_cache, said_late, false),
        !window_done(extended(old_cache, end), begin, end),
    ensures
        status == Status::Timeout,
        forall|j: int, k: int|
            begin <= j < k < end && (#[trigger] extended(old_cache, end)[j]) is None
                ==> (#[trigger] new_cache[k]) == extended(old_cache, end)[k],
        exists|first: int|
            begin <= first < end && (#[trigger] extended(old_cache, end)[first]) is None
                && new_cache[first] is Some,
{
    let pre = extended(old_cache, end);
    let stop = choose|stop: int|
        {
            &&& begin <= stop < end
            &&& (#[trigger] pre[stop]) is None
            &&& forall|j: int| begin <= j <= stop ==> (#[trigger] new_cache[j]) is Some
            &&& forall|j: int| stop < j < pre.len() ==> #[trigger] new_cache[j] == pre[j]
        };
    assert(new_cache[stop] is Some);
    assert forall|j: int, k: int|
        begin <= j < k < end && (#[trigger] pre[j]) is None implies (#[trigger] new_cache[k])
        == pre[k] by {
        if pre[k] is None && new_cache[k] is Some {
            assert(false);
        }
    }
}

/// Where the scalar's operations are functions, an orbit has one
/// escape-time depth.
proof fn lemma_traced_functional<T: num::Float>(
    c: Complex<T>,
    z: Complex<T>,
    i: int,
    n: int,
    d: usize,
    e: usize,
)
    requires
        scalar::functional::<T>(),
        traced(c, z, i, n, d),
        traced(c, z, i, n, e),
    ensures
        d == e,
    decreases n - i,
{
    crate::complex::lemma_complex_functional::<T>();
    scalar::lemma_conversions_functional::<T>();
    if i < n {
        let (next, out) = choose|next: Complex<T>, out: bool|
            {
                &&& #[trigger] call_ensures(orbit_step::<T>, (z, c), next)
                &&& #[trigger] call_ensures(escaped::<T>, (next,), out)
                &&& if out {
                    d == i
                } else {
                    traced(c, next, i + 1, n, d)
                }
            };
        let (other, left) = choose|next: Complex<T>, out: bool|
            {
                &&& #[trigger] call_ensures(orbit_step::<T>, (z, c), next)
                &&& #[trigger] call_ensures(escaped::<T>, (next,), out)
                &&& if out {
                    e == i
                } else {
                    traced(c, next, i + 1, n, e)
                }
            };
        assert(next == other);
        assert(out == left);
        if !out {
            lemma_traced_functional(c, next, i + 1, n, d, e);
        }
    }
}

/// Where the scalar's operations are functions, a position has one depth
/// under a limit.
proof fn lemma_depth_functional<T: num::Float>(c: Complex<T>, limit: usize, d: usize, e: usize)
    requires
        scalar::functional::<T>(),
        depth_traced(c, limit, d),
        depth_traced(c, limit, e),
    ensures
        d == e,
{
    crate::complex::lemma_complex_functional::<T>();
    scalar::lemma_conversions_functional::<T>();
    let inside = choose|inside: bool|
        {
            &&& #[trigger] call_ensures(check_cardio::<T>, (c,), inside)
            &&& if inside {
                d == 0
            } else {
                traced(c, c, 1, limit as int, d)
            }
        };
    let other = choose|inside: bool|
        {
            &&& #[trigger] call_ensures(check_cardio::<T>, (c,), inside)
            &&& if inside {
                e == 0
            } else {
                traced(c, c, 1, limit as int, e)
            }
        };
    assert(inside == other);
    if !inside {
        lemma_traced_functional(c, c, 1, limit as int, d, e);
    }
}

/// Where the operations of the scalar are functions, the depths of a ring
/// are a function of the origin, the geometry, the limit and the ring's
/// index: two rings sampled for the same cache and index hold the same
/// depths, whenever and under whatever time budget they were rendered.
pub proof fn law_sampling_is_a_function<T: num::Float + num::traits::FloatConst>(
    origin: Complex<T>,
    rad: T,
    step: T,
    seg: usize,
    limit: usize,
    ring: usize,
    depths: Seq<usize>,
    others: Seq<usize>,
)
    requires
        scalar::functional::<T>(),
        scalar::functional_turn::<T>(),
        ring_sampled(origin, rad, step, seg, limit, ring, depths),
        ring_sampled(origin, rad, step, seg, limit, ring, others),
        depths.len() == others.len(),
    ensures
        depths == others,
{
    crate::complex::lemma_complex_functional::<T>();
    crate::mapper::lemma_mapper_functional::<T>();
    let (radius, zoom) = choose|radius: T, zoom: Complex<T>|
        {
            &&& #[trigger] call_ensures(ring_radius::<T>, (rad, step, ring), radius)
            &&& #[trigger] call_ensures(Complex::<T>::from, (radius,), zoom)
            &&& forall|k: int|
                0 <= k < depths.len() ==> slot_sampled(
                    origin,
                    zoom,
                    seg,
                    k as usize,
                    limit,
                    #[trigger] depths[k],
                )
        };
    let (other_radius, other_zoom) = choose|radius: T, zoom: Complex<T>|
        {
            &&& #[trigger] call_ensures(ring_radius::<T>, (rad, step, ring), radius)
            &&& #[trigger] call_ensures(Complex::<T>::from, (radius,), zoom)
            &&& forall|k: int|
                0 <= k < others.len() ==> slot_sampled(
                    origin,
                    zoom,
                    seg,
                    k as usize,
                    limit,
                    #[trigger] others[k],
                )
        };
    assert(radius == other_radius);
    assert(zoom == other_zoom);
    assert forall|k: int| 0 <= k < depths.len() implies depths[k] == others[k] by {
        assert(slot_sampled(origin, zoom, seg, k as usize, limit, depths[k]));
        assert(slot_sampled(origin, zoom, seg, k as usize, limit, others[k]));
        let c = choose|c: Complex<T>|
            {
                &&& #[trigger] call_ensures(slot_position::<T>, (origin, zoom, seg, k as usize), c)
                &&& depth_traced(c, limit, depths[k])
            };
        let o = choose|c: Complex<T>|
            {
                &&& #[trigger] call_ensures(slot_position::<T>, (origin, zoom, seg, k as usize), c)
                &&& depth_traced(c, limit, others[k])
            };
        assert(c == o);
        lemma_depth_functional(c, limit, depths[k], others[k]);
    }
    assert(depths =~= others);
}

/// Where the operations of the scalar are functions, two caches with the
/// same origin, geometry and limit agree, after a rendering step each, on
/// every ring that both steps completed, whatever the windows, the clocks
/// and the budgets of the two steps were.
pub proof fn law_two_runs_agree<T: num::Float + num::traits::FloatConst>(
    one: Tube<T>,
    begin: usize,
    end: usize,
    status: Status,
    one_after: Tube<T>,
    two: Tube<T>,
    other_begin: usize,
    other_end: usize,
    other_status: Status,
    two_after: Tube<T>,
    ring: usize,
)
    requires
        scalar::functional::<T>(),
        scalar::functional_turn::<T>(),
        rendered(one, begin, end, status, one_after),
        rendered(two, other_begin, other_end, other_status, two_after),
        one.pos == two.pos,
        one.rad == two.rad,
        one.step == two.step,
        one.seg == two.seg,
        one.depth == two.depth,
        begin <= ring < end,
        other_begin <= ring < other_end,
        extended(one@, end)[ring as int] is None,
        extended(two@, other_end)[ring as int] is None,
        one_after@[ring as int] is Some,
        two_after@[ring as int] is Some,
    ensures
        one_after@[ring as int] == two_after@[ring as int],
        forall|k: usize| one_after.get_spec(ring, k) == two_after.get_spec(ring, k),
{
    let depths = one_after@[ring as int].unwrap();
    let others = two_after@[ring as int].unwrap();
    assert(ring_complete(one_after@[ring as int], one.seg, one.depth));
    assert(ring_complete(two_after@[ring as int], two.seg, two.depth));
    law_sampling_is_a_function(one.pos, one.rad, one.step, one.seg, one.depth, ring, depths, others);
}

/// Reading an empty cache gives `0` at every coordinate: after `put`,
/// nothing that was cached before can be read back.
pub proof fn law_put_invalidates(seg: usize, ir: usize, ip: usize)
    ensures
        lookup(Seq::<Option<Seq<usize>>>::empty(), seg, ir, ip) == 0,
{
}

} // verus!
