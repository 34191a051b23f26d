//! What the time zone database and the RFC 3339 codec of `chrono` and
//! `chrono-tz` compute. Every item here is trusted: its contract restates
//! what those crates do, under names whose values are fixed by their inputs.

use vstd::prelude::*;
use crate::instant::{Instant, MIN_TIMESTAMP, MAX_TIMESTAMP};
use crate::text::{signed_decimal, two_digits};
use chrono::{Datelike, Timelike};

verus! {

/// Whether `chrono-tz` knows a time zone by this IANA name.
pub uninterp spec fn known_timezone(name: Seq<char>) -> bool;

/// The local (ISO weekday numbered from Monday = 1, hour, minute) that the
/// time zone `timezone` shows at the UTC timestamp `secs`.
pub uninterp spec fn local_clock(timezone: Seq<char>, secs: i64) -> (u32, u32, u32);

/// The offset of local time from UTC, in seconds, that `timezone` has at the
/// UTC timestamp `secs`.
pub uninterp spec fn utc_offset(timezone: Seq<char>, secs: i64) -> i32;

/// What `chrono` makes of an RFC 3339 text: the UTC timestamp and
/// nanoseconds of the instant it denotes, or the text of the parse error.
pub uninterp spec fn rfc3339_parse(text: Seq<char>) -> Result<(i64, u32), Seq<char>>;

/// The RFC 3339 text that `chrono` writes for a UTC instant.
pub uninterp spec fn rfc3339_text(secs: i64, nanos: u32) -> Seq<char>;

/// `chrono_tz::Tz::from_str`: the contract claims that the answer depends on
/// the name alone (the zone table is compiled into the crate).
#[verifier::external_body]
pub(crate) fn is_known_timezone(name: &str) -> (r: bool)
    ensures
        r == known_timezone(name@),
{
    match name.parse::<chrono_tz::Tz>() {
        Ok(_) => true,
        Err(_) => false,
    }
}

/// `DateTime::with_timezone` followed by `weekday().number_from_monday()`,
/// `hour()` and `minute()`: the contract claims the result is the local
/// clock named `local_clock`, a function of the zone and the timestamp.
#[verifier::external_body]
pub(crate) fn local_clock_at(timezone: &str, secs: i64) -> (r: (u32, u32, u32))
    requires
        known_timezone(timezone@),
        MIN_TIMESTAMP <= secs <= MAX_TIMESTAMP,
    ensures
        r == local_clock(timezone@, secs),
{
    let tz: chrono_tz::Tz = timezone.parse().unwrap();
    let local = chrono::DateTime::from_timestamp(secs, 0).unwrap().with_timezone(&tz);
    (local.weekday().number_from_monday(), local.hour(), local.minute())
}

/// The sign and hours and minutes of a UTC offset, as `%z` writes them:
/// the offset is rounded to the nearest minute, then written `+HHMM` or
/// `-HHMM`.
pub open spec fn offset_text(offset: int) -> Seq<char> {
    let magnitude = if offset < 0 { -offset } else { offset };
    let minutes = (magnitude + 30) / 60;
    seq![if offset < 0 { '-' } else { '+' }] + two_digits((minutes / 60) as nat) + two_digits(
        (minutes % 60) as nat,
    )
}

/// The date as Git reads it: the UNIX timestamp, a space and the local
/// offset, as the format `%s %z` writes them.
pub open spec fn git_date_text(secs: i64, offset: i32) -> Seq<char> {
    signed_decimal(secs as int) + " "@ + offset_text(offset as int)
}

/// `DateTime::with_timezone` and `format("%s %z")`: the contract claims the
/// text is the timestamp and the zone's offset at that instant, written as
/// chrono's `%s` (plain decimal) and `%z` (offset rounded to the minute,
/// `+HHMM`) write them; the offset is named `utc_offset`.
#[verifier::external_body]
pub(crate) fn git_date_at(timezone: &str, secs: i64) -> (r: String)
    requires
        known_timezone(timezone@),
        MIN_TIMESTAMP <= secs <= MAX_TIMESTAMP,
    ensures
        r@ == git_date_text(secs, utc_offset(timezone@, secs)),
{
    let tz: chrono_tz::Tz = timezone.parse().unwrap();
    let local = chrono::DateTime::from_timestamp(secs, 0).unwrap().with_timezone(&tz);
    local.format("%s %z").to_string()
}

/// `DateTime::parse_from_rfc3339`, converted to UTC: the contract claims the
/// outcome, timestamp and nanoseconds or error text, is `rfc3339_parse` of
/// the text.
#[verifier::external_body]
pub(crate) fn parse_rfc3339(text: &str) -> (r: Result<(i64, u32), String>)
    ensures
        match r {
            Ok(p) => rfc3339_parse(text@) == Ok::<(i64, u32), Seq<char>>(p),
            Err(e) => rfc3339_parse(text@) == Err::<(i64, u32), Seq<char>>(e@),
        },
{
    match chrono::DateTime::parse_from_rfc3339(text) {
        Ok(d) => Ok((d.timestamp(), d.timestamp_subsec_nanos())),
        Err(e) => Err(e.to_string()),
    }
}

/// `DateTime::<Utc>::to_rfc3339`: the contract claims the text is
/// `rfc3339_text` of the instant.
#[verifier::external_body]
pub(crate) fn format_rfc3339(at: Instant) -> (r: String)
    requires
        at.valid(),
    ensures
        r@ == rfc3339_text(at.secs, at.nanos),
{
    chrono::DateTime::from_timestamp(at.secs, at.nanos).unwrap().to_rfc3339()
}

} // verus!
