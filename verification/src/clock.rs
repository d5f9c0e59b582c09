//! The time of day and fresh identifiers.

use vstd::prelude::*;

use crate::number;

verus! {

/// A number in so many decimal digits, with zeros in front.
pub open spec fn padded(value: nat, width: nat) -> Seq<char>
    decreases width,
{
    if width == 0 {
        Seq::empty()
    } else {
        padded(value / 10, (width - 1) as nat).push(number::digit(value % 10))
    }
}

/// The days of a month in the Gregorian calendar.
pub open spec fn days_in(year: nat, month: nat) -> nat {
    if month == 2 {
        if year % 4 == 0 && (year % 100 != 0 || year % 400 == 0) {
            29
        } else {
            28
        }
    } else if month == 4 || month == 6 || month == 9 || month == 11 {
        30
    } else {
        31
    }
}

/// A day of the calendar.
pub open spec fn is_day(year: nat, month: nat, day: nat) -> bool {
    1 <= month <= 12 && 1 <= day <= days_in(year, month)
}

/// A day in ISO 8601 notation: year, month and day. A year of more than four digits has a
/// sign.
pub open spec fn date_text(year: nat, month: nat, day: nat) -> Seq<char> {
    (if year <= 9999 {
        padded(year, 4)
    } else {
        "+"@ + number::decimal(year)
    }) + "-"@ + padded(month, 2) + "-"@ + padded(day, 2)
}

/// The fraction of a second, in as many groups of three digits as it needs.
pub open spec fn fraction_text(nanos: nat) -> Seq<char> {
    if nanos == 0 {
        Seq::empty()
    } else if nanos % 1_000_000 == 0 {
        "."@ + padded(nanos / 1_000_000, 3)
    } else if nanos % 1_000 == 0 {
        "."@ + padded(nanos / 1_000, 6)
    } else {
        "."@ + padded(nanos, 9)
    }
}

/// A time of day to the nanosecond.
pub open spec fn time_text(hour: nat, minute: nat, second: nat, nanos: nat) -> Seq<char> {
    padded(hour, 2) + ":"@ + padded(minute, 2) + ":"@ + padded(second, 2) + fraction_text(nanos)
}

/// The text is a day in ISO 8601 notation, none before the year 1969: the earliest local
/// day at a time from 1970 on.
pub open spec fn is_date(text: Seq<char>) -> bool {
    exists|year: nat, month: nat, day: nat|
        year >= 1969 && is_day(year, month, day) && text == #[trigger] date_text(year, month, day)
}

/// The text is a time from 1970 on in RFC 3339 notation, in UTC.
pub open spec fn is_timestamp(text: Seq<char>) -> bool {
    exists|year: nat, month: nat, day: nat, hour: nat, minute: nat, second: nat, nanos: nat|
        year >= 1970 && is_day(year, month, day) && hour < 24 && minute < 60 && second < 60 && nanos
            < 1_000_000_000 && text == #[trigger] date_text(year, month, day) + "T"@
            + #[trigger] time_text(hour, minute, second, nanos) + "+00:00"@
}

/// `chrono::Utc::now().to_rfc3339()`: the present time in RFC 3339 notation. Which time it
/// is depends on the clock; one set before 1970 makes the call panic.
#[verifier::external_body]
pub(crate) fn utc_now() -> (r: String)
    ensures
        is_timestamp(r@),
{
    chrono::Utc::now().to_rfc3339()
}

/// `chrono::Local::now()`, formatted by `pattern`: the present local day. Which day it is
/// depends on the clock and on the machine's time zone; a clock set before 1970 makes the
/// call panic. The pattern for a calendar date is the only one admitted, since formatting
/// panics on an ill-formed one.
#[verifier::external_body]
pub(crate) fn local_now(pattern: &str) -> (r: String)
    requires
        pattern@ == "%Y-%m-%d"@,
    ensures
        is_date(r@),
{
    chrono::Local::now().format(pattern).to_string()
}

/// A lower-case hexadecimal digit.
pub open spec fn is_hex(c: char) -> bool {
    '0' <= c <= '9' || 'a' <= c <= 'f'
}

/// The hyphenated notation of a UUID.
pub open spec fn is_uuid(id: Seq<char>) -> bool {
    &&& id.len() == 36
    &&& forall|i: int|
        0 <= i < 36 ==> if i == 8 || i == 13 || i == 18 || i == 23 {
            #[trigger] id[i] == '-'
        } else {
            is_hex(id[i])
        }
}

/// `uuid::Uuid::new_v4().to_string()`: a random identifier in hyphenated notation. Which
/// one it is depends on chance.
#[verifier::external_body]
pub(crate) fn fresh_uuid() -> (r: String)
    ensures
        is_uuid(r@),
{
    uuid::Uuid::new_v4().to_string()
}

} // verus!
