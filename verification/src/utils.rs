//! Clock access shared by the rest of the crate.

use vstd::prelude::*;

verus! {

#[verifier::external_type_specification]
#[verifier::external_body]
pub struct ExSystemTime(std::time::SystemTime);

#[verifier::external_type_specification]
#[verifier::external_body]
pub struct ExSystemTimeError(std::time::SystemTimeError);

#[verifier::external_type_specification]
#[verifier::external_body]
pub struct ExInstant(tokio::time::Instant);

/// `Clone` of `tokio::time::Instant`, which is derived on a `Copy` type:
/// the clone is the instant itself.
pub assume_specification[ <tokio::time::Instant as Clone>::clone ](i: &tokio::time::Instant) -> (r: tokio::time::Instant)
    ensures
        r == *i,
;

/// `tokio::time::Instant::now`: the current instant of the monotonic clock.
/// Nothing is claimed of it.
#[verifier::external_body]
pub(crate) fn instant_now() -> tokio::time::Instant {
    tokio::time::Instant::now()
}

/// `tokio::time::Instant::duration_since`, in whole nanoseconds
/// (`Duration::as_nanos`): the time from `earlier` to `now`, or zero when
/// `earlier` is the later instant. The value depends on the clock; all that
/// is claimed is that no time lies between an instant and itself.
#[verifier::external_body]
pub(crate) fn nanos_between(now: &tokio::time::Instant, earlier: &tokio::time::Instant) -> (r: u128)
    ensures
        *now == *earlier ==> r == 0,
{
    now.duration_since(*earlier).as_nanos()
}

/// `r` nanoseconds is a time the clock gave from `earlier` to `now`: a
/// result of [`nanos_between`] called with `now` and then `earlier`.
pub closed spec fn measured_gap(now: tokio::time::Instant, earlier: tokio::time::Instant, r: u128) -> bool {
    call_ensures(nanos_between, (&now, &earlier), r)
}

/// Measures the time from `earlier` to `now` with the clock.
pub fn measure_gap(now: &tokio::time::Instant, earlier: &tokio::time::Instant) -> (r: u128)
    ensures
        measured_gap(*now, *earlier, r),
{
    let gap = nanos_between;
    gap(now, earlier)
}

/// No time is measured between an instant and itself.
pub proof fn law_no_gap_to_itself(t: tokio::time::Instant, r: u128)
    requires
        measured_gap(t, t, r),
    ensures
        r == 0,
{
}

/// Nanoseconds in a millisecond.
pub const NANOS_PER_MILLI: u128 = 1_000_000;

/// Reads the wall clock (`std::time::SystemTime::now`). Nothing is claimed of
/// the value: it depends on the machine's clock.
#[verifier::external_body]
fn system_time_now() -> std::time::SystemTime {
    std::time::SystemTime::now()
}

/// `SystemTime::duration_since(UNIX_EPOCH)`: the time elapsed since the Unix
/// epoch, or an error when the clock reads earlier than the epoch. Nothing
/// is claimed of either outcome.
#[verifier::external_body]
fn duration_since_unix_epoch(t: &std::time::SystemTime) -> Result<std::time::Duration, std::time::SystemTimeError> {
    t.duration_since(std::time::UNIX_EPOCH)
}

/// `Duration::as_secs`: the whole seconds of a duration. The duration is
/// opaque here, so nothing is claimed of the number.
#[verifier::external_body]
fn duration_whole_secs(d: &std::time::Duration) -> u64 {
    d.as_secs()
}

/// Returns the current Unix timestamp in whole seconds.
///
/// A clock that reads earlier than the Unix epoch yields 0.
pub fn current_timestamp() -> u64 {
    let now = system_time_now();
    match duration_since_unix_epoch(&now) {
        Ok(d) => duration_whole_secs(&d),
        Err(_) => 0,
    }
}

} // verus!
