//! Reading a date and a time from their written form.

use vstd::prelude::*;

verus! {

/// The moment that the RFC 3339 text `text` names, in nanoseconds since the
/// start of 1970: `None` where the text names no moment, `Some(None)` where
/// the moment lies too far from 1970 to be counted in 64 bits.
pub uninterp spec fn rfc3339_moment(text: Seq<char>) -> Option<Option<i64>>;

/// The moment that `text` names when read by the pattern `format`, in the
/// same form as `rfc3339_moment`.
pub uninterp spec fn formatted_moment(text: Seq<char>, format: Seq<char>) -> Option<Option<i64>>;

/// Calls `chrono::DateTime::parse_from_rfc3339`, and `timestamp_nanos_opt`
/// on what it returns. The contract names the result.
#[verifier::external_body]
pub(crate) fn parse_rfc3339(text: &str) -> (r: Option<Option<i64>>)
    ensures
        r == rfc3339_moment(text@),
{
    chrono::DateTime::parse_from_rfc3339(text).ok().map(|moment| moment.timestamp_nanos_opt())
}

/// Calls `chrono::DateTime::parse_from_str`, and `timestamp_nanos_opt` on
/// what it returns. The contract names the result.
#[verifier::external_body]
pub(crate) fn parse_formatted(text: &str, format: &str) -> (r: Option<Option<i64>>)
    ensures
        r == formatted_moment(text@, format@),
{
    chrono::DateTime::parse_from_str(text, format).ok().map(|moment| moment.timestamp_nanos_opt())
}

/// The number that a count of nanoseconds becomes where it is kept without
/// a sign: itself, or, below zero, its distance from two to the power 64.
pub open spec fn unsigned(nanos: Option<i64>) -> u64 {
    match nanos {
        Some(n) => if n >= 0 {
            n as u64
        } else {
            (n + 0x1_0000_0000_0000_0000) as u64
        },
        None => 0,
    }
}

/// The moment that a written date and time names: read as RFC 3339, or
/// failing that by the first of four patterns that fits; `None` where
/// nothing fits.
pub open spec fn written_moment(text: Seq<char>) -> Option<u64> {
    if rfc3339_moment(text) is Some {
        Some(unsigned(rfc3339_moment(text).unwrap()))
    } else if formatted_moment(text, "%Y-%m-%dT%H:%M:%S%.fZ"@) is Some {
        Some(unsigned(formatted_moment(text, "%Y-%m-%dT%H:%M:%S%.fZ"@).unwrap()))
    } else if formatted_moment(text, "%Y-%m-%dT%H:%M:%SZ"@) is Some {
        Some(unsigned(formatted_moment(text, "%Y-%m-%dT%H:%M:%SZ"@).unwrap()))
    } else if formatted_moment(text, "%Y-%m-%d %H:%M:%S%.fZ"@) is Some {
        Some(unsigned(formatted_moment(text, "%Y-%m-%d %H:%M:%S%.fZ"@).unwrap()))
    } else if formatted_moment(text, "%Y-%m-%d %H:%M:%SZ"@) is Some {
        Some(unsigned(formatted_moment(text, "%Y-%m-%d %H:%M:%SZ"@).unwrap()))
    } else {
        None
    }
}

fn to_unsigned(nanos: Option<i64>) -> (r: u64)
    ensures
        r == unsigned(nanos),
{
    match nanos {
        Some(n) => if n >= 0 {
            n as u64
        } else {
            (n as i128 + 0x1_0000_0000_0000_0000) as u64
        },
        None => 0,
    }
}

/// The moment that a written date and time names, if it names one.
pub fn read_moment(text: &str) -> (r: Option<u64>)
    ensures
        r == written_moment(text@),
{
    match parse_rfc3339(text) {
        Some(n) => {
            return Some(to_unsigned(n));
        },
        None => {},
    }
    match parse_formatted(text, "%Y-%m-%dT%H:%M:%S%.fZ") {
        Some(n) => {
            return Some(to_unsigned(n));
        },
        None => {},
    }
    match parse_formatted(text, "%Y-%m-%dT%H:%M:%SZ") {
        Some(n) => {
            return Some(to_unsigned(n));
        },
        None => {},
    }
    match parse_formatted(text, "%Y-%m-%d %H:%M:%S%.fZ") {
        Some(n) => {
            return Some(to_unsigned(n));
        },
        None => {},
    }
    match parse_formatted(text, "%Y-%m-%d %H:%M:%SZ") {
        Some(n) => {
            return Some(to_unsigned(n));
        },
        None => {},
    }
    None
}

/// The moment that a written date and time names, or `now` where it names none.
pub fn parse_iso8601(iso_string: &str, now: u64) -> (r: Result<u64, ()>)
    ensures
        r == Ok::<u64, ()>(
            match written_moment(iso_string@) {
                Some(moment) => moment,
                None => now,
            },
        ),
{
    match read_moment(iso_string) {
        Some(moment) => Ok(moment),
        None => Ok(now),
    }
}

/// The moment that a written date and time names, or `now` where it names none.
pub fn parse_rfc3339_to_timestamp(rfc3339: &str, now: u64) -> (r: Option<u64>)
    ensures
        r == Some(
            match written_moment(rfc3339@) {
                Some(moment) => moment,
                None => now,
            },
        ),
{
    match read_moment(rfc3339) {
        Some(moment) => Some(moment),
        None => Some(now),
    }
}

} // verus!
