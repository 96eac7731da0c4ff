//! The time of day in milliseconds.
use std::time::{SystemTime, UNIX_EPOCH};
use vstd::prelude::*;

verus! {

/// `std::time::SystemTime`, a point in time of which nothing is known here.
#[verifier::external_type_specification]
#[verifier::external_body]
pub struct ExSystemTime(SystemTime);

/// `SystemTime::now`: nothing is claimed of the time it returns.
pub assume_specification[ SystemTime::now ]() -> (now: SystemTime)
;

/// Time that has passed: whole seconds, and the nanoseconds beyond them.
#[derive(Debug, Clone, Copy, PartialEq, Eq, Structural)]
pub struct Elapsed {
    pub secs: u64,
    pub nanos: u32,
}

/// `SystemTime::duration_since` for the Unix epoch, or `None` where the time is before it. Of
/// the time that has passed only this is claimed: what goes beyond the whole seconds is less
/// than a second. How long it is depends on the clock.
#[verifier::external_body]
fn since_epoch(time: &SystemTime) -> (passed: Option<Elapsed>)
    ensures
        passed matches Some(passed) ==> passed.nanos < 1_000_000_000,
{
    let passed = time.duration_since(UNIX_EPOCH).ok()?;
    Some(Elapsed { secs: passed.as_secs(), nanos: passed.subsec_nanos() })
}

/// The whole milliseconds of a time that has passed.
pub open spec fn whole_millis(passed: Elapsed) -> int {
    passed.secs * 1000 + passed.nanos as int / 1_000_000
}

/// The low 64 bits of the milliseconds from the Unix epoch to a time, and `None` for a time before
/// the epoch.
pub open spec fn time_millis(passed: Option<Elapsed>) -> Option<u64> {
    match passed {
        Some(passed) => Some((whole_millis(passed) % 0x1_0000_0000_0000_0000) as u64),
        None => None,
    }
}

/// The milliseconds from the Unix epoch to a time, of which the low 64 bits are kept: `passed`
/// is what lies between them, and `None` for a time before the epoch.
pub fn system_time_ms(passed: Option<Elapsed>) -> (millis: Option<u64>)
    ensures
        millis == time_millis(passed),
{
    match passed {
        Some(passed) => {
            let millis: u128 = passed.secs as u128 * 1000 + (passed.nanos / 1_000_000) as u128;
            Some((millis % 0x1_0000_0000_0000_0000) as u64)
        },
        None => None,
    }
}

/// The low 64 bits of the milliseconds from the Unix epoch to a time, or 0 for a time before the
/// epoch.
pub open spec fn millis_after(passed: Option<Elapsed>) -> u64 {
    match passed {
        Some(passed) => (whole_millis(passed) % 0x1_0000_0000_0000_0000) as u64,
        None => 0,
    }
}

/// The milliseconds from the Unix epoch to a time, or 0 for a time before the epoch: `passed`
/// is what lies between them.
pub fn unix_ms_after(passed: Option<Elapsed>) -> (millis: u64)
    ensures
        millis == millis_after(passed),
{
    match system_time_ms(passed) {
        Some(millis) => millis,
        None => 0,
    }
}

/// The present time in milliseconds since the Unix epoch, or 0 where the clock stands before
/// it: what `unix_ms_after` makes of the clock's time, of which nothing is known.
pub fn unix_ms() -> (millis: u64)
    ensures
        exists|passed: Option<Elapsed>|
            (passed matches Some(passed) ==> passed.nanos < 1_000_000_000) && millis
                == #[trigger] millis_after(passed),
{
    let now: SystemTime = SystemTime::now();
    unix_ms_after(since_epoch(&now))
}

} // verus!
