use vstd::prelude::*;
use std::time::{Duration, SystemTime};

verus! {

#[verifier::external_type_specification]
#[verifier::external_body]
pub struct ExSystemTime(std::time::SystemTime);

/// `SystemTime::now`: the current time of the system clock. It depends on
/// the moment of the call, so nothing is claimed of it.
#[verifier::external_body]
fn system_now() -> (r: SystemTime) {
    SystemTime::now()
}

/// `SystemTime::duration_since(UNIX_EPOCH)`: how long after the Unix epoch
/// `time` lies, `None` when it lies before. Nothing is claimed of the value,
/// which `Duration` keeps out of sight.
#[verifier::external_body]
fn duration_since_unix_epoch(time: &SystemTime) -> (r: Option<Duration>) {
    time.duration_since(std::time::UNIX_EPOCH).ok()
}

/// `Duration::as_millis`: the whole milliseconds of `d`. Nothing is claimed
/// of the value, which `Duration` keeps out of sight.
#[verifier::external_body]
fn whole_millis(d: &Duration) -> (r: u128) {
    d.as_millis()
}

/// A time as stored: its milliseconds since the Unix epoch cut to 64 bits
/// (as `as i64` cuts them), 0 for a time before the epoch (`None`).
pub fn unix_millis_as_i64(since_epoch: Option<u128>) -> (r: i64)
    ensures
        match since_epoch {
            Some(ms) => r == ms as i64,
            None => r == 0,
        },
{
    match since_epoch {
        Some(ms) => ms as i64,
        None => 0,
    }
}

/// `time` as stored (see [`unix_millis_as_i64`]). `SystemTime` and `Duration`
/// keep their values out of sight, so no clause says which value comes back.
pub fn system_time_ms(time: SystemTime) -> (r: i64) {
    let since = match duration_since_unix_epoch(&time) {
        Some(d) => Some(whole_millis(&d)),
        None => None,
    };
    unix_millis_as_i64(since)
}

/// The current time as stored (see [`system_time_ms`]); it depends on the
/// moment of the call.
pub fn now_ms() -> (r: i64) {
    system_time_ms(system_now())
}

} // verus!
