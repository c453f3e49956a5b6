//! Spans of time and points in time, as the rest of the library measures them.

use std::time::{Duration, Instant};

use vstd::prelude::*;

verus! {

/// A point on the machine's monotonic clock.
#[verifier::external_type_specification]
#[verifier::external_body]
pub struct ExInstant(std::time::Instant);

/// How many nanoseconds one second has.
pub const NANOS_PER_SEC: u128 = 1_000_000_000;

/// The longest span a `Duration` can hold, in nanoseconds.
pub const MAX_NANOS: u128 = 18_446_744_073_709_551_615_999_999_999;

/// The length of a span in nanoseconds, as `Duration::as_nanos` gives it.
pub uninterp spec fn nanos(span: Duration) -> u128;

/// How many nanoseconds `now` comes after `earlier`, and zero if it does not,
/// as `Instant::saturating_duration_since` gives it.
pub uninterp spec fn nanos_since(now: Instant, earlier: Instant) -> u128;

/// `Duration::as_nanos`: the length of the span in nanoseconds, which no span
/// carries past [`MAX_NANOS`].
#[verifier::external_body]
pub(crate) fn as_nanos(span: &Duration) -> (n: u128)
    ensures
        n == nanos(*span),
        n <= MAX_NANOS,
{
    span.as_nanos()
}

/// `Duration::new`: the span of `secs` whole seconds and `subsec` nanoseconds.
/// It panics only where `subsec` carries into seconds that do not fit, so a
/// full second of nanoseconds is left out.
#[verifier::external_body]
pub(crate) fn span_of(secs: u64, subsec: u32) -> (span: Duration)
    requires
        subsec < 1_000_000_000,
    ensures
        nanos(span) == secs * NANOS_PER_SEC + subsec,
{
    Duration::new(secs, subsec)
}

/// `Instant::now`. Nothing is claimed of the moment it returns.
#[verifier::external_body]
pub(crate) fn now() -> Instant {
    Instant::now()
}

/// Whether `moment` is one that the clock gave.
pub closed spec fn is_reading(moment: Instant) -> bool {
    call_ensures(now, (), moment)
}

/// Reads the clock.
#[must_use]
pub fn read() -> (moment: Instant)
    ensures
        is_reading(moment),
{
    now()
}

/// `Instant::saturating_duration_since`: the time from `earlier` to `now`, zero
/// where `earlier` is not the earlier of the two, and so zero from a moment to
/// itself.
#[verifier::external_body]
fn since(now: &Instant, earlier: &Instant) -> (span: Duration)
    ensures
        nanos(span) == nanos_since(*now, *earlier),
        *now == *earlier ==> nanos(span) == 0,
{
    now.saturating_duration_since(*earlier)
}

/// How many nanoseconds `now` comes after `earlier`, and zero if it does not.
pub(crate) fn elapsed_nanos(now: &Instant, earlier: &Instant) -> (n: u128)
    ensures
        n == nanos_since(*now, *earlier),
        *now == *earlier ==> n == 0,
{
    as_nanos(&since(now, earlier))
}

/// The span of `n` nanoseconds.
pub(crate) fn span_of_nanos(n: u128) -> (span: Duration)
    requires
        n <= MAX_NANOS,
    ensures
        nanos(span) == n,
{
    let secs: u128 = n / NANOS_PER_SEC;
    let subsec: u128 = n % NANOS_PER_SEC;
    span_of(secs as u64, subsec as u32)
}

/// What is left of `whole` nanoseconds after `spent` of them.
pub open spec fn remaining(whole: u128, spent: u128) -> u128 {
    if spent >= whole {
        0
    } else {
        (whole - spent) as u128
    }
}

/// What is left and what is spent make the whole, until all of it is spent.
pub proof fn law_what_is_left_and_spent_make_the_whole(whole: u128, spent: u128)
    ensures
        spent <= whole ==> remaining(whole, spent) + spent == whole,
        spent >= whole ==> remaining(whole, spent) == 0,
{
}

} // verus!
