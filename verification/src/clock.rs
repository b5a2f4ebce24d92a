//! Time as the library reads it: nanoseconds since a moment, and the number of
//! audio frames that fit in them.

use std::time::Instant;
use vstd::prelude::*;

verus! {

pub const NANOS_PER_SEC: u64 = 1_000_000_000;

pub const NANOS_PER_MILLI: u64 = 1_000_000;

/// A point on the monotonic clock.
#[verifier::external_type_specification]
#[verifier::external_body]
pub struct ExInstant(Instant);

/// `Instant::now`: the clock's present point. Nothing is claimed of it.
#[verifier::external_body]
pub(crate) fn now() -> (r: Instant) {
    Instant::now()
}

/// `Instant::elapsed`, in nanoseconds. Nothing is claimed of the result: it is
/// whatever the clock says.
#[verifier::external_body]
pub(crate) fn elapsed_nanos(since: &Instant) -> (r: u64) {
    since.elapsed().as_nanos() as u64
}

/// The clock gave this point as the present one.
pub closed spec fn was_now(at: Instant) -> bool {
    call_ensures(now, (), at)
}

/// The clock was read, and showed `nanos` nanoseconds since `since`.
pub closed spec fn showed(since: Instant, nanos: u64) -> bool {
    call_ensures(elapsed_nanos, (&since,), nanos)
}

fn point_from<F: Fn() -> Instant>(clock: F) -> (r: Instant)
    requires
        call_requires(clock, ()),
    ensures
        call_ensures(clock, (), r),
{
    clock()
}

fn age_from<F: Fn(&Instant) -> u64>(clock: F, since: &Instant) -> (r: u64)
    requires
        call_requires(clock, (since,)),
    ensures
        call_ensures(clock, (since,), r),
{
    clock(since)
}

/// The present point on the clock.
pub fn present() -> (r: Instant)
    ensures
        was_now(r),
{
    point_from(now)
}

/// Nanoseconds since `since`, by the clock.
pub fn age_of(since: &Instant) -> (r: u64)
    ensures
        showed(*since, r),
{
    age_from(elapsed_nanos, since)
}

/// Whole frames that a stream of `rate` frames per second plays in `nanos`.
pub open spec fn frames_in(nanos: int, rate: int) -> int {
    nanos * rate / NANOS_PER_SEC as int
}

/// Whole frames that a stream of `rate` frames per second plays in `nanos`.
pub fn frames_elapsed(nanos: u64, rate: u32) -> (r: u128)
    ensures
        r == frames_in(nanos as int, rate as int),
        r <= u64::MAX * u32::MAX,
{
    proof {
        assert(nanos * rate <= u64::MAX * u32::MAX) by (nonlinear_arith)
            requires
                nanos <= u64::MAX,
                rate <= u32::MAX,
        ;
        assert(0 <= nanos * rate) by (nonlinear_arith)
            requires
                nanos >= 0,
                rate >= 0,
        ;
    }
    (nanos as u128 * rate as u128) / NANOS_PER_SEC as u128
}

/// What the clock showed is what a reading of the clock gave, since that very
/// point.
pub(crate) proof fn law_clock_is_read_as_asked(at: Instant, nanos: u64)
    ensures
        was_now(at) <==> call_ensures(now, (), at),
        showed(at, nanos) <==> call_ensures(elapsed_nanos, (&at,), nanos),
{
}

} // verus!
