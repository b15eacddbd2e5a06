//! The time of a poll as text.
//!
//! The caller reads the clock. A time is a number of nanoseconds since the
//! start of 1970 in UTC, and it is written as RFC 2822 writes a date, which
//! has four digits for the year.

use crate::poll::NANOS_PER_SECOND;
use vstd::prelude::*;

verus! {

/// The last second of the year 9999, counted from the start of 1970.
pub const LAST_SECOND: u128 = 253_402_300_799;

/// What the `chrono` crate writes for the time `secs` seconds and `nanos`
/// nanoseconds after the start of 1970: `None` where it makes no time of
/// them, else the time as RFC 2822 writes it.
pub uninterp spec fn rfc2822_text(secs: i64, nanos: u32) -> Option<Seq<char>>;

/// Makes the time with `chrono::DateTime::from_timestamp` and writes it with
/// `DateTime::to_rfc2822`. Both depend on their arguments alone, so the
/// outcome is named by `rfc2822_text`. `to_rfc2822` panics on a year below 0
/// or above 9999: the bounds keep the time between the start of 1970 and the
/// end of 9999. Within these bounds `from_timestamp` makes a time of every
/// number of seconds and of every number of nanoseconds below a second, so
/// there is a text; what the text is is not claimed.
#[verifier::external_body]
fn rfc2822(secs: i64, nanos: u32) -> (text: Option<String>)
    requires
        0 <= secs <= LAST_SECOND,
        nanos < NANOS_PER_SECOND,
    ensures
        text.deep_view() == rfc2822_text(secs, nanos),
        text is Some,
{
    match chrono::DateTime::from_timestamp(secs, nanos) {
        Some(time) => Some(time.to_rfc2822()),
        None => None,
    }
}

/// The time `now` as text: nothing for a time after the year 9999, else
/// what is written for its whole seconds and the nanoseconds that are left.
pub open spec fn timestamp_of(now: nat) -> Option<Seq<char>> {
    if now / (NANOS_PER_SECOND as nat) > LAST_SECOND {
        None
    } else {
        rfc2822_text(
            (now / (NANOS_PER_SECOND as nat)) as i64,
            (now % (NANOS_PER_SECOND as nat)) as u32,
        )
    }
}

/// Writes the time `now`, which can be written up to the end of the year
/// 9999 and no further.
pub fn timestamp(now: u128) -> (text: Option<String>)
    ensures
        text.deep_view() == timestamp_of(now as nat),
        text is Some <==> now / NANOS_PER_SECOND <= LAST_SECOND,
{
    let secs: u128 = now / NANOS_PER_SECOND;
    if secs > LAST_SECOND {
        None
    } else {
        rfc2822(secs as i64, (now % NANOS_PER_SECOND) as u32)
    }
}

} // verus!
