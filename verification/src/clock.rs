//! The monotonic clock that bounds a rendering or drawing pass.

use vstd::prelude::*;
use std::time::{Duration, Instant};

verus! {

/// `std::time::Instant`, a reading of the monotonic clock. It is carried
/// from `now` to `elapsed` as an opaque value: nothing is known of it.
#[verifier::external_type_specification]
#[verifier::external_body]
pub struct ExInstant(std::time::Instant);

/// `Instant::now`: the current reading of the monotonic clock. It differs
/// from call to call, so nothing is claimed of it.
#[verifier::external_body]
pub(crate) fn now() -> Instant {
    Instant::now()
}

/// `Instant::elapsed`: the time gone by since `start` was read. It depends
/// on the clock, so nothing is claimed of it.
#[verifier::external_body]
pub(crate) fn elapsed(start: &Instant) -> Duration {
    start.elapsed()
}

/// `a > b` on two durations, by the `PartialOrd` of `Duration`. A duration
/// is opaque to the verifier, so nothing is claimed of the answer.
#[verifier::external_body]
pub(crate) fn longer(a: Duration, b: Duration) -> bool {
    a > b
}

/// Whether `late` is an answer to whether more than `timeout` has gone by
/// since `start`: what the comparison gave for `timeout` and a duration
/// that the clock gave for `start`. Which duration that is depends on
/// when the clock is asked, so two answers for one `start` may differ.
pub closed spec fn is_expired(start: &Instant, timeout: Duration, late: bool) -> bool {
    exists|gone: Duration|
        {
            &&& #[trigger] call_ensures(elapsed, (start,), gone)
            &&& call_ensures(longer, (gone, timeout), late)
        }
}

/// Whether the clock has given the answer `late` to whether the budget
/// `timeout` is spent, counted from some reading of it.
pub open spec fn said(timeout: Duration, late: bool) -> bool {
    exists|start: Instant| is_expired(&start, timeout, late)
}

/// Whether more than `timeout` has gone by since `start`: asks the clock
/// for the time gone by since `start` and compares it with `timeout`.
pub(crate) fn expired(start: &Instant, timeout: Duration) -> (late: bool)
    ensures
        is_expired(start, timeout, late),
{
    longer(elapsed(start), timeout)
}

} // verus!
