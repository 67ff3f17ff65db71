//! Instants in UTC, parsed from and formatted as RFC 3339 text by chrono.

use vstd::prelude::*;
use vstd::string::StringSliceAdditionalSpecFns;

verus! {

/// An instant: whole seconds since the Unix epoch and the nanoseconds past them,
/// as chrono's `DateTime<Utc>` reports them (`timestamp`, `timestamp_subsec_nanos`).
#[derive(Clone, Copy, Debug, PartialEq, Eq, Structural)]
pub struct Timestamp {
    pub secs: i64,
    pub nanos: u32,
}

/// The instant, as (seconds, nanoseconds) in UTC, that chrono's
/// `DateTime::parse_from_rfc3339` reads from a text, or `None` where it refuses it.
pub uninterp spec fn rfc3339_instant(text: Seq<char>) -> Option<(i64, u32)>;

/// The RFC 3339 text that chrono's `DateTime<Utc>::to_rfc3339` writes for the instant
/// `DateTime::<Utc>::from_timestamp(secs, nanos)`, or `None` where chrono cannot
/// represent that instant.
pub uninterp spec fn rfc3339_text(secs: i64, nanos: u32) -> Option<Seq<char>>;

/// Calls `chrono::DateTime::parse_from_rfc3339` and converts the result to UTC
/// (`with_timezone(&Utc)`), giving its seconds and nanoseconds.
/// Claims that the result is the one named `rfc3339_instant`, and, as chrono's source
/// shows (it refuses any input of fewer than 19 bytes), that a text of fewer than
/// 19 bytes is refused.
#[verifier::external_body]
fn chrono_parse_rfc3339(text: &str) -> (res: Option<(i64, u32)>)
    ensures
        res == rfc3339_instant(text@),
        text.spec_bytes().len() < 19 ==> res is None,
{
    match chrono::DateTime::parse_from_rfc3339(text) {
        Ok(dt) => {
            let utc = dt.with_timezone(&chrono::Utc);
            Some((utc.timestamp(), utc.timestamp_subsec_nanos()))
        },
        Err(_) => None,
    }
}

/// Calls `chrono::DateTime::<Utc>::from_timestamp` and then `to_rfc3339`.
/// Claims only that the result is the one named `rfc3339_text`.
#[verifier::external_body]
fn chrono_to_rfc3339(secs: i64, nanos: u32) -> (res: Option<String>)
    ensures
        match res {
            Some(s) => rfc3339_text(secs, nanos) == Some(s@),
            None => rfc3339_text(secs, nanos) is None,
        },
{
    match chrono::DateTime::<chrono::Utc>::from_timestamp(secs, nanos) {
        Some(dt) => Some(dt.to_rfc3339()),
        None => None,
    }
}

/// The instant that an RFC 3339 text denotes, if chrono accepts it.
pub open spec fn parsed_instant(text: Seq<char>) -> Option<Timestamp> {
    match rfc3339_instant(text) {
        Some(p) => Some(Timestamp { secs: p.0, nanos: p.1 }),
        None => None,
    }
}

impl Timestamp {
    /// Parses an RFC 3339 date and time, converted to UTC.
    pub fn parse_rfc3339(text: &str) -> (res: Option<Timestamp>)
        ensures
            res == parsed_instant(text@),
            text.spec_bytes().len() < 19 ==> res is None,
    {
        match chrono_parse_rfc3339(text) {
            Some(p) => Some(Timestamp { secs: p.0, nanos: p.1 }),
            None => None,
        }
    }

    /// Formats the instant in RFC 3339, or `None` where chrono cannot represent it.
    pub fn to_rfc3339(&self) -> (res: Option<String>)
        ensures
            match res {
                Some(s) => rfc3339_text(self.secs, self.nanos) == Some(s@),
                None => rfc3339_text(self.secs, self.nanos) is None,
            },
    {
        chrono_to_rfc3339(self.secs, self.nanos)
    }
}

} // verus!
