//! The wall clock, read through the `time` crate.

use vstd::prelude::*;
use vstd::string::*;

verus! {

/// A point in time with a UTC offset, as the `time` crate holds it. Nothing
/// inside it is visible here.
#[verifier::external_type_specification]
#[verifier::external_body]
pub struct ExOffsetDateTime(time::OffsetDateTime);

/// The error of the `time` crate's formatting. Nothing inside it is visible
/// here.
#[verifier::external_type_specification]
#[verifier::external_body]
pub struct ExFormatError(time::error::Format);

/// `time::OffsetDateTime::now_utc` reads the system clock. Nothing is claimed
/// of the value that comes back.
pub assume_specification[ time::OffsetDateTime::now_utc ]() -> (now: time::OffsetDateTime);

/// A decimal digit.
pub open spec fn is_digit(c: char) -> bool {
    '0' <= c && c <= '9'
}

/// The date and the time of day in the first nineteen places of a text, as
/// `YYYY-MM-DDTHH:MM:SS`.
pub open spec fn has_date_and_time(s: Seq<char>) -> bool {
    &&& s.len() >= 19
    &&& is_digit(s[0]) && is_digit(s[1]) && is_digit(s[2]) && is_digit(s[3])
    &&& s[4] == '-'
    &&& is_digit(s[5]) && is_digit(s[6])
    &&& s[7] == '-'
    &&& is_digit(s[8]) && is_digit(s[9])
    &&& s[10] == 'T'
    &&& is_digit(s[11]) && is_digit(s[12])
    &&& s[13] == ':'
    &&& is_digit(s[14]) && is_digit(s[15])
    &&& s[16] == ':'
    &&& is_digit(s[17]) && is_digit(s[18])
}

/// A UTC offset as RFC 3339 writes it: `Z`, or a sign, two digits of hours,
/// a colon and two digits of minutes.
pub open spec fn is_offset(s: Seq<char>) -> bool {
    ||| s.len() == 1 && s[0] == 'Z'
    ||| {
        &&& s.len() == 6
        &&& s[0] == '+' || s[0] == '-'
        &&& is_digit(s[1]) && is_digit(s[2])
        &&& s[3] == ':'
        &&& is_digit(s[4]) && is_digit(s[5])
    }
}

/// A full stop, a fraction of a second in `n` digits (one to nine), and a
/// UTC offset.
pub open spec fn is_fraction_and_offset(s: Seq<char>, n: int) -> bool {
    &&& 1 <= n <= 9
    &&& s.len() > n
    &&& s[0] == '.'
    &&& forall|i: int| 1 <= i <= n ==> is_digit(#[trigger] s[i])
    &&& is_offset(s.skip(n + 1))
}

/// A date and time written as RFC 3339 asks: date and time of day, then a
/// fraction of a second where there is one, then the UTC offset.
pub open spec fn is_rfc3339(s: Seq<char>) -> bool {
    &&& has_date_and_time(s)
    &&& (is_offset(s.skip(19)) || exists|n: int| #[trigger] is_fraction_and_offset(s.skip(19), n))
}

/// Calls `time::OffsetDateTime::format` with the RFC 3339 description.
/// Believed: where the call succeeds, the text has the shape that the
/// formatter writes, which `is_rfc3339` spells out. Nothing is claimed of
/// which date and time the text gives, nor that the call succeeds: it fails
/// for a year outside 0 to 9999 and for an offset with seconds.
#[verifier::external_body]
pub(crate) fn format_rfc3339(at: time::OffsetDateTime) -> (r: Result<String, time::error::Format>)
    ensures
        r matches Ok(text) ==> is_rfc3339(text@),
{
    at.format(&time::format_description::well_known::Rfc3339)
}

/// The text put in place of a time stamp that could not be formatted.
pub open spec fn fallback_stamp() -> Seq<char> {
    "now"@
}

/// The stamp to use, given what formatting returned: the formatted text, or
/// `now` where formatting failed.
pub fn stamp_or_fallback(formatted: Result<String, time::error::Format>) -> (stamp: String)
    ensures
        stamp@ == match formatted {
            Ok(text) => text@,
            Err(_) => fallback_stamp(),
        },
{
    match formatted {
        Ok(text) => text,
        Err(_) => String::from_str("now"),
    }
}

/// The current time as an RFC 3339 text, or `now` where it cannot be written
/// so. Which time the text gives depends on the clock; its shape does not.
pub fn current_stamp() -> (stamp: String)
    ensures
        is_rfc3339(stamp@) || stamp@ == fallback_stamp(),
{
    let now = time::OffsetDateTime::now_utc();
    stamp_or_fallback(format_rfc3339(now))
}

} // verus!
