//! HTTP status codes as the Immich API answers them: success test and the
//! status line that error messages quote.

use vstd::prelude::*;
use crate::text::{decimal_string, decimal_text};

verus! {

/// The canonical reason phrase that reqwest's `StatusCode` (the `http` crate's
/// table) associates with a status code, if it has one.
pub uninterp spec fn canonical_reason_text(code: u16) -> Option<Seq<char>>;

/// A code that reqwest's `StatusCode` can hold: 100 to 999.
pub open spec fn valid_status(code: u16) -> bool {
    100 <= code <= 999
}

/// Calls `reqwest::StatusCode::is_success` on the status with this code.
/// Claims what its source does: true exactly for codes 200 to 299.
/// `StatusCode::from_u16` accepts every code in 100..=999, which `requires` demands.
#[verifier::external_body]
fn status_code_is_success(code: u16) -> (res: bool)
    requires
        valid_status(code),
    ensures
        res == (200 <= code <= 299),
{
    reqwest::StatusCode::from_u16(code).unwrap().is_success()
}

/// Calls `reqwest::StatusCode::canonical_reason` on the status with this code.
/// Claims only that the result is the reason phrase named `canonical_reason_text(code)`.
#[verifier::external_body]
fn status_code_canonical_reason(code: u16) -> (res: Option<String>)
    requires
        valid_status(code),
    ensures
        match res {
            Some(r) => canonical_reason_text(code) == Some(r@),
            None => canonical_reason_text(code) is None,
        },
{
    match reqwest::StatusCode::from_u16(code).unwrap().canonical_reason() {
        Some(reason) => Some(reason.to_string()),
        None => None,
    }
}

/// Whether a response with this status counts as a success.
pub fn is_success(code: u16) -> (res: bool)
    requires
        valid_status(code),
    ensures
        res == (200 <= code <= 299),
{
    status_code_is_success(code)
}

/// The status line of a code with the given reason phrase: the code, a space,
/// and the phrase, or `<unknown status code>` where there is none.
pub open spec fn status_line_with(code: u16, reason: Option<Seq<char>>) -> Seq<char> {
    decimal_text(code as nat) + seq![' '] + match reason {
        Some(r) => r,
        None => "<unknown status code>"@,
    }
}

/// The text that a status displays as, with the reason phrase that reqwest
/// keeps for its code.
pub open spec fn status_line_text(code: u16) -> Seq<char> {
    status_line_with(code, canonical_reason_text(code))
}

/// Formats a status line from a code and its reason phrase.
pub fn format_status_line(code: u16, reason: Option<&str>) -> (res: String)
    ensures
        res@ == status_line_with(code, match reason {
            Some(r) => Some(r@),
            None => None,
        }),
{
    let mut s = decimal_string(code);
    proof {
        reveal_strlit(" ");
    }
    s.append(" ");
    match reason {
        Some(r) => s.append(r),
        None => s.append("<unknown status code>"),
    }
    s
}

/// Formats a status as reqwest's `StatusCode` displays it (`"404 Not Found"`).
pub fn status_line(code: u16) -> (res: String)
    requires
        valid_status(code),
    ensures
        res@ == status_line_text(code),
{
    match status_code_canonical_reason(code) {
        Some(reason) => format_status_line(code, Some(reason.as_str())),
        None => format_status_line(code, None),
    }
}

} // verus!
