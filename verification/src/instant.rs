//! Instants are integers: nanoseconds since the Unix epoch, in UTC.

use vstd::arithmetic::div_mod::lemma_mod_multiples_vanish;
use vstd::prelude::*;
use vstd::string::*;

use crate::error::ServiceAccountPluginError;

verus! {

/// Instants that a calendar date can stand for (years of at most six digits).
pub open spec fn calendar_instant(t: int) -> bool {
    -40_000_000_000_000_000_000_000 <= t <= 40_000_000_000_000_000_000_000
}

/// Whether a calendar date can stand for `t`.
pub fn is_calendar_instant(t: i128) -> (r: bool)
    ensures
        r == calendar_instant(t as int),
{
    -40_000_000_000_000_000_000_000 <= t && t <= 40_000_000_000_000_000_000_000
}

/// Instants from the start of year 0 to the end of year 9999.
pub open spec fn rfc3339_range(t: int) -> bool {
    -62_167_219_200_000_000_000 <= t <= 253_402_300_799_999_999_999
}

/// `t` moved `seconds` into the future.
pub open spec fn after_seconds(t: int, seconds: int) -> int {
    t + seconds * 1_000_000_000
}

/// The RFC 3339 form, in UTC, that `time` gives an instant.
pub uninterp spec fn rfc3339_text(unix_nanos: int) -> Seq<char>;

/// The instant that `time` reads in an RFC 3339 text, if it is one.
pub uninterp spec fn rfc3339_instant(text: Seq<char>) -> Option<int>;

/// `time::OffsetDateTime::now_utc`, as nanoseconds since the Unix epoch. All
/// that is claimed is that the clock shows a calendar date.
#[verifier::external_body]
fn clock() -> (now: i128)
    ensures
        calendar_instant(now as int),
{
    time::OffsetDateTime::now_utc().unix_timestamp_nanos()
}

/// `time::OffsetDateTime::format` with the well-known format `Rfc3339`, on the
/// UTC date-time of an instant. It succeeds exactly on the years 0 to 9999, and
/// its text depends on the instant alone.
#[verifier::external_body]
fn format_rfc3339(unix_nanos: i128) -> (r: Result<String, time::Error>)
    ensures
        r is Ok <==> rfc3339_range(unix_nanos as int),
        r matches Ok(text) ==> text@ == rfc3339_text(unix_nanos as int),
{
    let format = time::format_description::well_known::Rfc3339;
    Ok(time::OffsetDateTime::from_unix_timestamp_nanos(unix_nanos)?.format(&format)?)
}

/// `time::OffsetDateTime::parse` with the well-known format `Rfc3339`. Whether
/// the text is accepted, and the instant it denotes, depend on the text alone.
#[verifier::external_body]
fn parse_rfc3339(text: &str) -> (r: Option<i128>)
    ensures
        match r {
            Some(t) => rfc3339_instant(text@) == Some(t as int),
            None => rfc3339_instant(text@) is None,
        },
{
    let format = time::format_description::well_known::Rfc3339;
    time::OffsetDateTime::parse(text, &format).ok().map(|value| value.unix_timestamp_nanos())
}

/// How `time::OffsetDateTime` writes an instant, in UTC, for diagnostics;
/// nothing where no date-time stands for it.
pub uninterp spec fn date_time_text(unix_nanos: int) -> Option<Seq<char>>;

/// `Debug` of `time::OffsetDateTime::from_unix_timestamp_nanos`. Whether there
/// is such a date-time, and its text, depend on the instant alone.
#[verifier::external_body]
fn date_time_debug(unix_nanos: i128) -> (r: Option<String>)
    ensures
        r.deep_view() == date_time_text(unix_nanos as int),
{
    let value = time::OffsetDateTime::from_unix_timestamp_nanos(unix_nanos).ok()?;
    Some(format!("{:?}", value))
}

/// How an instant is written for diagnostics.
pub open spec fn instant_text(t: int) -> Seq<char> {
    match date_time_text(t) {
        Some(text) => text,
        None => "<out of range>"@,
    }
}

/// How an instant is written for diagnostics.
pub fn debug_instant(t: i128) -> (r: String)
    ensures
        r@ == instant_text(t as int),
{
    match date_time_debug(t) {
        Some(text) => text,
        None => "<out of range>".to_string(),
    }
}

pub open spec fn optional_instant_text(t: Option<int>) -> Seq<char> {
    match t {
        None => "None"@,
        Some(t) => "Some("@ + instant_text(t) + ")"@,
    }
}

pub fn debug_optional_instant(t: Option<i128>) -> (r: String)
    ensures
        r@ == optional_instant_text(instant_view(t)),
{
    match t {
        None => "None".to_string(),
        Some(t) => {
            let mut out: String = "Some(".to_string();
            out.append(debug_instant(t).as_str());
            out.append(")");
            out
        },
    }
}

/// The current instant.
pub fn now_utc() -> (now: i128)
    ensures
        calendar_instant(now as int),
{
    clock()
}

/// The RFC 3339 form of an instant.
pub fn format_time(value: i128) -> (r: Result<String, ServiceAccountPluginError>)
    ensures
        match r {
            Ok(text) => rfc3339_range(value as int) && text@ == rfc3339_text(value as int),
            Err(error) => !rfc3339_range(value as int) && error is FormatTime,
        },
{
    match format_rfc3339(value) {
        Ok(text) => Ok(text),
        Err(error) => Err(ServiceAccountPluginError::FormatTime(error)),
    }
}

/// The instant that an RFC 3339 text denotes.
pub fn parse_time(text: &str) -> (r: Option<i128>)
    ensures
        match r {
            Some(t) => rfc3339_instant(text@) == Some(t as int),
            None => rfc3339_instant(text@) is None,
        },
{
    parse_rfc3339(text)
}

/// `value` moved `seconds` into the future.
pub fn later(value: i128, seconds: u64) -> (r: i128)
    requires
        calendar_instant(value as int),
    ensures
        r == after_seconds(value as int, seconds as int),
{
    value + seconds as i128 * 1_000_000_000
}

/// The earlier of two instants.
pub fn earliest(a: i128, b: i128) -> (r: i128)
    ensures
        r == if a <= b { a } else { b },
{
    if a <= b {
        a
    } else {
        b
    }
}

/// Start of the year 2000, from which stored instants are counted.
pub const STORE_EPOCH: i128 = 946_684_800_000_000_000;

/// An instant as the store keeps it: whole microseconds, the rest cut off
/// towards the start of the year 2000.
pub open spec fn stored_instant(t: int) -> int {
    if t >= STORE_EPOCH {
        t - (t - STORE_EPOCH) % 1_000
    } else {
        t + (STORE_EPOCH - t) % 1_000
    }
}

/// An instant as the store keeps it.
pub fn to_stored(t: i128) -> (r: i128)
    ensures
        r == stored_instant(t as int),
        calendar_instant(t as int) ==> calendar_instant(r as int),
{
    if t >= STORE_EPOCH {
        t - (t - STORE_EPOCH) % 1_000
    } else if t >= 0 {
        t + (STORE_EPOCH - t) % 1_000
    } else {
        let below: i128 = -(t + 1);
        let cut: i128 = (below % 1_000 + 1) % 1_000;
        assert((STORE_EPOCH - t) % 1_000 == cut) by {
            lemma_mod_multiples_vanish(
                946_684_800_000_000 + below as int / 1_000,
                below as int % 1_000 + 1,
                1_000,
            );
        }
        t + cut
    }
}

pub open spec fn instant_view(t: Option<i128>) -> Option<int> {
    match t {
        Some(t) => Some(t as int),
        None => None,
    }
}

} // verus!
