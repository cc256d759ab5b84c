//! The clock boundary: wall-clock reads promise nothing, and the two
//! RFC 3339 conversions are named functions of their arguments alone.

use vstd::prelude::*;

verus! {

/// What the RFC 3339 parser yields for a string, as Unix seconds; a
/// function of the characters alone.
pub uninterp spec fn rfc3339_epoch_of(s: Seq<char>) -> Option<int>;

/// What an epoch second renders as in RFC 3339 text with millisecond
/// precision; a function of the epoch alone.
pub uninterp spec fn rfc3339_millis_of_epoch(e: int) -> Seq<char>;

/// Whether an epoch second lies in the range the calendar library can
/// represent and render; a function of the epoch alone.
pub uninterp spec fn rfc3339_renderable(e: int) -> bool;

/// Relies on chrono::DateTime::parse_from_rfc3339, taking the parsed
/// instant's timestamp(): accepts exactly the well-formed RFC 3339
/// strings, and the result depends on the characters alone.
#[verifier::external_body]
pub(crate) fn parse_rfc3339_epoch(s: &str) -> (r: Option<i64>)
    ensures
        r is Some <==> rfc3339_epoch_of(s@) is Some,
        r matches Some(e) ==> rfc3339_epoch_of(s@) == Some(e as int),
{
    match chrono::DateTime::parse_from_rfc3339(s) {
        Ok(dt) => Some(dt.timestamp()),
        Err(_) => None,
    }
}

/// Relies on chrono::DateTime::from_timestamp and to_rfc3339_opts with
/// millisecond precision: exactly the representable epochs render, as a
/// function of the epoch alone; an out-of-range epoch yields nothing.
#[verifier::external_body]
pub(crate) fn epoch_to_rfc3339_millis(e: i64) -> (r: Option<String>)
    ensures
        r is Some <==> rfc3339_renderable(e as int),
        r matches Some(s) ==> s@ == rfc3339_millis_of_epoch(e as int),
{
    match chrono::DateTime::<chrono::Utc>::from_timestamp(e, 0) {
        Some(dt) => Some(dt.to_rfc3339_opts(chrono::SecondsFormat::Millis, true)),
        None => None,
    }
}

} // verus!
