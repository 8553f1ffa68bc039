use crate::text::{decimal, push_decimal};
use vstd::prelude::*;
use vstd::std_specs::convert::FromSpec;

verus! {

/// `SystemTime::now`, as the time since the Unix epoch: the whole seconds,
/// and the low 32 bits of the nanoseconds. Both are zero for a clock that is
/// set before the epoch. Nothing is promised of the values: two calls may
/// differ.
#[verifier::external_body]
fn unix_clock() -> (u64, u32) {
    match std::time::SystemTime::now().duration_since(std::time::UNIX_EPOCH) {
        Ok(elapsed) => (elapsed.as_secs(), elapsed.as_nanos() as u32),
        Err(_) => (0, 0),
    }
}

/// The current time in seconds since the Unix epoch.
pub fn now_seconds() -> u64 {
    unix_clock().0
}

/// A value that differs from call to call, made from the clock. It is good
/// enough to tell ids apart and is no secret.
pub fn random<T: From<u32>>() -> (r: T)
    ensures
        T::obeys_from_spec() ==> exists|n: u32| r == T::from_spec(n),
{
    let n = unix_clock().1;
    let r = T::from(n);
    assert(T::obeys_from_spec() ==> r == T::from_spec(n));
    r
}

/// How long ago `timestamp` was at the time `now`, in the largest unit that
/// fits: seconds, minutes, hours or days; `future` for a time yet to come.
pub open spec fn time_ago(now: u64, timestamp: u64) -> Seq<char> {
    if timestamp > now {
        "future"@
    } else {
        let diff = (now - timestamp) as nat;
        if diff < 60 {
            decimal(diff) + "s"@
        } else if diff < 3600 {
            decimal(diff / 60) + "m"@
        } else if diff < 86400 {
            decimal(diff / 3600) + "h"@
        } else {
            decimal(diff / 86400) + "d"@
        }
    }
}

/// Writes out how long ago `timestamp` was at the time `now`.
pub fn format_time_ago_at(now: u64, timestamp: u64) -> (text: String)
    ensures
        text@ == time_ago(now, timestamp),
{
    if timestamp > now {
        return String::from_str("future");
    }
    let diff = now - timestamp;
    let mut text = String::new();
    if diff < 60 {
        push_decimal(&mut text, diff);
        text.append("s");
    } else if diff < 3600 {
        push_decimal(&mut text, diff / 60);
        text.append("m");
    } else if diff < 86400 {
        push_decimal(&mut text, diff / 3600);
        text.append("h");
    } else {
        push_decimal(&mut text, diff / 86400);
        text.append("d");
    }
    assert(text@ =~= time_ago(now, timestamp));
    text
}

/// Writes out how long ago `timestamp` was, going by the clock.
pub fn format_time_ago(timestamp: u64) -> (text: String)
    ensures
        exists|now: u64| text@ == time_ago(now, timestamp),
{
    let now = unix_clock().0;
    format_time_ago_at(now, timestamp)
}

} // verus!
