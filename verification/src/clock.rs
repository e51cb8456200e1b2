//! The wall clock, in milliseconds.

use std::time::{Duration, SystemTime, SystemTimeError, UNIX_EPOCH};
use vstd::prelude::*;

verus! {

/// A point of the system's wall clock.
#[verifier::external_type_specification]
#[verifier::external_body]
pub struct ExSystemTime(std::time::SystemTime);

/// What `SystemTime::duration_since` gives where the other point lies later.
#[verifier::external_type_specification]
#[verifier::external_body]
pub struct ExSystemTimeError(std::time::SystemTimeError);

/// The largest number of whole milliseconds in a span of time.
pub const MAX_MILLIS: u128 = 18_446_744_073_709_551_615_999;

/// `SystemTime::now` reads the wall clock. Nothing is said of the reading.
pub assume_specification[ std::time::SystemTime::now ]() -> SystemTime
;

/// `SystemTime::duration_since`, for the start of the Unix epoch. It is an error
/// where the reading lies before the epoch; which readings do is left unsaid.
#[verifier::external_body]
fn since_epoch(now: SystemTime) -> (r: Result<Duration, SystemTimeError>) {
    now.duration_since(UNIX_EPOCH)
}

/// `Duration::as_secs` gives the whole seconds of a span. Which span it is
/// applied to is left unsaid: a span is opaque here.
pub assume_specification[ core::time::Duration::as_secs ](span: &Duration) -> (r: u64)
;

/// `Duration::subsec_nanos` gives the fraction of a span that is left beside its
/// whole seconds, in nanoseconds: less than one second.
pub assume_specification[ core::time::Duration::subsec_nanos ](span: &Duration) -> (r: u32)
    ensures
        r < 1_000_000_000,
;

/// The milliseconds that the clock is taken to show for a reading of it: the
/// whole seconds and the nanoseconds since the epoch, rounded down to whole
/// milliseconds, or 0 where the reading lies before the epoch.
pub open spec fn reading_millis_of(reading: Option<(u64, u32)>) -> int {
    match reading {
        Some((secs, nanos)) => secs * 1000 + nanos / 1_000_000,
        None => 0,
    }
}

/// The whole milliseconds of a span.
pub fn whole_millis(secs: u64, nanos: u32) -> (r: u128)
    ensures
        r == secs * 1000 + nanos / 1_000_000,
{
    secs as u128 * 1000 + (nanos / 1_000_000) as u128
}

/// The milliseconds since the epoch, or 0 for a clock set before it.
pub fn millis_or_zero(since_epoch: Option<u128>) -> (r: u128)
    ensures
        r == (match since_epoch {
            Some(millis) => millis,
            None => 0,
        }),
{
    match since_epoch {
        Some(millis) => millis,
        None => 0,
    }
}

/// The milliseconds that the clock is taken to show for a reading of it.
pub fn reading_millis(reading: Option<(u64, u32)>) -> (r: u128)
    ensures
        r == reading_millis_of(reading),
        reading is None ==> r == 0,
        reading matches Some((secs, nanos)) ==> r == secs * 1000 + nanos / 1_000_000,
{
    match reading {
        Some((secs, nanos)) => millis_or_zero(Some(whole_millis(secs, nanos))),
        None => millis_or_zero(None),
    }
}

/// The current wall-clock time in milliseconds since the Unix epoch, or 0 where
/// the clock is set before it: those of some reading of the clock. Which reading
/// it is, is left unsaid.
pub fn chrono_ish_now_millis() -> (r: u128)
    ensures
        exists|reading: Option<(u64, u32)>, nanos: int| #[trigger]
            reads(reading, nanos) && r == reading_millis_of(reading),
        r <= MAX_MILLIS,
{
    match since_epoch(SystemTime::now()) {
        Ok(span) => {
            let secs = span.as_secs();
            let nanos = span.subsec_nanos();
            assert(reads(Some((secs, nanos)), secs * 1_000_000_000 + nanos));
            reading_millis(Some((secs, nanos)))
        },
        Err(_) => {
            assert(reads(None, -1));
            reading_millis(None)
        },
    }
}

/// Whether a reading is that of a clock which stands `nanos` nanoseconds after
/// the epoch, or before it where that is negative.
pub open spec fn reads(reading: Option<(u64, u32)>, nanos: int) -> bool {
    match reading {
        Some((secs, rest)) => rest < 1_000_000_000 && nanos == secs * 1_000_000_000 + rest,
        None => nanos < 0,
    }
}

/// A later reading never shows fewer milliseconds, and it shows more where the
/// earlier one does not lie before the epoch and at least a millisecond has
/// passed.
pub proof fn law_later_readings_show_no_less(
    a: Option<(u64, u32)>,
    b: Option<(u64, u32)>,
    first: int,
    second: int,
)
    requires
        reads(a, first),
        reads(b, second),
        first <= second,
    ensures
        reading_millis_of(a) <= reading_millis_of(b),
        0 <= first && second - first >= 1_000_000 ==> reading_millis_of(a) < reading_millis_of(b),
{
}

/// The milliseconds of a reading are the whole milliseconds that have passed
/// since the epoch, of `nanos` nanoseconds in all, and none before it.
pub proof fn law_readings_are_rounded_down(reading: Option<(u64, u32)>, nanos: int)
    requires
        reading matches Some((secs, rest)) ==> nanos == secs * 1_000_000_000 + rest,
        reading is None ==> nanos < 0,
    ensures
        nanos >= 0 ==> reading_millis_of(reading) * 1_000_000 <= nanos < (reading_millis_of(reading)
            + 1) * 1_000_000,
        nanos < 0 ==> reading_millis_of(reading) == 0,
{
}

} // verus!
