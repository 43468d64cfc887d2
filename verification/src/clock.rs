//! The current time and the date formats of chrono that dsw shows.

use vstd::prelude::*;
use crate::factory::{MAX_TIMESTAMP, MIN_TIMESTAMP};

verus! {

/// The RFC 3339 text chrono writes for the UTC instant `secs` seconds
/// after the epoch (`DateTime::<Utc>::to_rfc3339`).
pub uninterp spec fn rfc3339_text(secs: i64) -> Seq<char>;

/// The `%Y-%m-%d` text chrono writes for the UTC day of the instant `secs`
/// seconds after the epoch.
pub uninterp spec fn day_text(secs: i64) -> Seq<char>;

/// The `%Y%m%dT%H%M%S%3fZ` text chrono writes for the UTC instant `secs`
/// seconds and `nanos` nanoseconds after the epoch.
pub uninterp spec fn stamp_text(secs: i64, nanos: u32) -> Seq<char>;

/// The last second of the year 9999: up to it, a year has four digits.
pub const MAX_STAMP_SECS: i64 = 253402300799;

/// A character `0` to `9`.
pub open spec fn is_digit(c: char) -> bool {
    '0' <= c && c <= '9'
}

/// The shape of a backup id: 19 characters, eight digits (the date), `T`,
/// nine digits (the time to the millisecond), `Z`; so no `/` and no `.`.
pub open spec fn stamp_shape(s: Seq<char>) -> bool {
    &&& s.len() == 19
    &&& forall|i: int| 0 <= i < 8 ==> is_digit(#[trigger] s[i])
    &&& s[8] == 'T'
    &&& forall|i: int| 9 <= i < 18 ==> is_digit(#[trigger] s[i])
    &&& s[18] == 'Z'
}

/// The time elapsed since the Unix epoch by the system clock
/// (`SystemTime::now().duration_since(UNIX_EPOCH)`), as whole seconds and
/// the nanoseconds past them; `None` when the clock is set before the
/// epoch. `Duration::subsec_nanos` is always below one billion.
#[verifier::external_body]
fn system_time() -> (r: Option<(u64, u32)>)
    ensures
        r matches Some(t) ==> t.1 < 1_000_000_000,
{
    std::time::SystemTime::now()
        .duration_since(std::time::UNIX_EPOCH)
        .ok()
        .map(|d| (d.as_secs(), d.subsec_nanos()))
}

/// The current UTC time, as whole seconds since the epoch and the
/// nanoseconds past them; `None` when the system clock is before the epoch
/// or past the last instant chrono can hold.
pub fn now_utc() -> (r: Option<(i64, u32)>)
    ensures
        r matches Some(t) ==> 0 <= t.0 <= MAX_TIMESTAMP && t.1 < 1_000_000_000,
{
    match system_time() {
        Some((secs, nanos)) => if secs <= MAX_TIMESTAMP as u64 {
            Some((secs as i64, nanos))
        } else {
            None
        },
        None => None,
    }
}

/// What a command that needs the current time prints when the system
/// clock cannot be read as such a time.
pub open spec fn spec_clock_error_text() -> Seq<char> {
    "the system clock is set outside the years 1970 to 9999"@
}

/// The message of `spec_clock_error_text`.
pub fn clock_error_text() -> (r: &'static str)
    ensures
        r@ == spec_clock_error_text(),
{
    "the system clock is set outside the years 1970 to 9999"
}

/// `to_rfc3339` of the chrono UTC instant `secs` seconds after the epoch;
/// the instant must be one chrono can hold. Claims only that the text is
/// `rfc3339_text(secs)`.
#[verifier::external_body]
pub fn rfc3339(secs: i64) -> (r: String)
    requires
        MIN_TIMESTAMP <= secs <= MAX_TIMESTAMP,
    ensures
        r@ == rfc3339_text(secs),
{
    chrono::DateTime::from_timestamp(secs, 0).unwrap().to_rfc3339()
}

/// `format("%Y-%m-%d")` of the chrono UTC instant `secs` seconds after the
/// epoch; the instant must be one chrono can hold. Claims only that the
/// text is `day_text(secs)`.
#[verifier::external_body]
pub fn format_day(secs: i64) -> (r: String)
    requires
        MIN_TIMESTAMP <= secs <= MAX_TIMESTAMP,
    ensures
        r@ == day_text(secs),
{
    chrono::DateTime::from_timestamp(secs, 0).unwrap().format("%Y-%m-%d").to_string()
}

/// `format("%Y%m%dT%H%M%S%3fZ")` of the chrono UTC instant `secs` seconds
/// and `nanos` nanoseconds after the epoch, for an instant from 1970 to the
/// end of 9999. The text is `stamp_text(secs, nanos)`; chrono documents
/// `%Y` as the year zero-padded to four digits (a sign only outside 0 to
/// 9999), `%m %d %H %M %S` as two digits each and `%3f` as three digits of
/// the fraction, so the text has `stamp_shape`.
#[verifier::external_body]
pub(crate) fn format_stamp(secs: i64, nanos: u32) -> (r: String)
    requires
        0 <= secs <= MAX_STAMP_SECS,
        nanos < 1_000_000_000,
    ensures
        r@ == stamp_text(secs, nanos),
        stamp_shape(r@),
{
    chrono::DateTime::from_timestamp(secs, nanos).unwrap().format("%Y%m%dT%H%M%S%3fZ").to_string()
}

} // verus!
