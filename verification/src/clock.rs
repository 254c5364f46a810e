//! The time since the epoch.
use std::time::SystemTime;
use vstd::prelude::*;

verus! {

/// A point in time, as the system measures it.
#[verifier::external_type_specification]
#[verifier::external_body]
pub struct ExSystemTime(std::time::SystemTime);

/// `SystemTime::now` reads the system's clock. Nothing is claimed of the time.
pub assume_specification[ SystemTime::now ]() -> (now: SystemTime);

/// `SystemTime::duration_since` the epoch, as whole seconds and the nanoseconds
/// beyond them; `None` for a time before the epoch. That the nanoseconds are less
/// than a second is what `Duration::subsec_nanos` promises.
#[verifier::external_body]
fn duration_since_epoch(t: &SystemTime) -> (res: Option<(u64, u32)>)
    ensures
        res matches Some((secs, nanos)) ==> nanos < 1_000_000_000,
{
    match t.duration_since(std::time::UNIX_EPOCH) {
        Ok(d) => Some((d.as_secs(), d.subsec_nanos())),
        Err(_) => None,
    }
}

/// The whole microseconds in a number of seconds and nanoseconds.
pub open spec fn micros(secs: nat, nanos: nat) -> nat {
    secs * 1_000_000 + nanos / 1_000
}

/// The microseconds that a reading of the clock comes to.
pub open spec fn micros_of(since: Option<(u64, u32)>) -> Option<u128> {
    match since {
        Some((secs, nanos)) => Some(micros(secs as nat, nanos as nat) as u128),
        None => None,
    }
}

/// The whole seconds that a reading of the clock comes to.
pub open spec fn seconds_of(since: Option<(u64, u32)>) -> Option<u64> {
    match since {
        Some((secs, _)) => Some(secs),
        None => None,
    }
}

/// The microseconds that a reading of the clock comes to.
pub fn micros_since(since: Option<(u64, u32)>) -> (res: Option<u128>)
    ensures
        res == micros_of(since),
        res matches Some(n) ==> n == micros((since->0).0 as nat, (since->0).1 as nat),
{
    match since {
        Some((secs, nanos)) => Some(secs as u128 * 1_000_000 + nanos as u128 / 1_000),
        None => None,
    }
}

/// The whole seconds that a reading of the clock comes to.
pub fn seconds_since(since: Option<(u64, u32)>) -> (res: Option<u64>)
    ensures
        res == seconds_of(since),
{
    match since {
        Some((secs, _)) => Some(secs),
        None => None,
    }
}

/// Whether the clock reads so many seconds and nanoseconds since the epoch, or a time
/// before it: `SystemTime::now` gives a time for which `duration_since_epoch` gives this.
pub closed spec fn clock_reads(since: Option<(u64, u32)>) -> bool {
    exists|t: SystemTime|
        call_ensures(SystemTime::now, (), t) && #[trigger] call_ensures(
            duration_since_epoch,
            (&t,),
            since,
        )
}

/// Whether the clock reads so many microseconds since the epoch, or a time before it.
pub open spec fn clock_reads_micros(now: Option<u128>) -> bool {
    exists|since: Option<(u64, u32)>| #[trigger] clock_reads(since) && now == micros_of(since)
}

/// Whether the clock reads so many whole seconds since the epoch, or a time before it.
pub open spec fn clock_reads_seconds(now: Option<u64>) -> bool {
    exists|since: Option<(u64, u32)>| #[trigger] clock_reads(since) && now == seconds_of(since)
}

/// Reads the clock.
pub(crate) fn read_clock() -> (res: Option<(u64, u32)>)
    ensures
        clock_reads(res),
        res matches Some((secs, nanos)) ==> nanos < 1_000_000_000,
{
    let now = SystemTime::now();
    duration_since_epoch(&now)
}

/// The microseconds since the epoch, or `None` where the clock stands before it.
pub(crate) fn micros_now() -> (res: Option<u128>)
    ensures
        clock_reads_micros(res),
        res matches Some(n) ==> n < micros(u64::MAX as nat, 1_000_000_000),
{
    micros_since(read_clock())
}

/// The whole seconds since the epoch, or `None` where the clock stands before it.
pub(crate) fn seconds_now() -> (res: Option<u64>)
    ensures
        clock_reads_seconds(res),
{
    seconds_since(read_clock())
}

} // verus!
