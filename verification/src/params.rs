//! The decoding of what a request carries in its path.

use crate::decimal::{decimal_i32, parse_i32};
use crate::error::{invalid_path_message, ErrorView, TypedError};
use vstd::prelude::*;

verus! {

/// What percent-decoding makes of a text: each `%` that two hexadecimal
/// digits follow gives the byte they write, every other byte stands for
/// itself, and the bytes are read as UTF-8. `None` where they are not
/// UTF-8.
pub uninterp spec fn percent_decoded(raw: Seq<char>) -> Option<Seq<char>>;

/// The text of an optional string.
pub open spec fn optional_text(text: Option<String>) -> Option<Seq<char>> {
    match text {
        Some(t) => Some(t@),
        None => None,
    }
}

/// Calls `percent_encoding::percent_decode_str` and reads the bytes as
/// UTF-8 with `decode_utf8`. The contract names the result: the same text
/// is always decoded alike.
#[verifier::external_body]
fn percent_decode(raw: &str) -> (text: Option<String>)
    ensures
        optional_text(text) == percent_decoded(raw@),
{
    percent_encoding::percent_decode_str(raw).decode_utf8().ok().map(|text| text.into_owned())
}

/// The integer that a decoded path component denotes, or the failure that
/// reports that it denotes none.
pub open spec fn integer_of(decoded: Option<Seq<char>>) -> Result<i32, ErrorView> {
    match decoded {
        Some(text) => match decimal_i32(text) {
            Some(value) => Ok(value),
            None => Err(ErrorView::BadRequest(invalid_path_message())),
        },
        None => Err(ErrorView::BadRequest(invalid_path_message())),
    }
}

/// An integer or a failure, as contracts speak of them.
pub open spec fn integer_view(outcome: Result<i32, TypedError>) -> Result<i32, ErrorView> {
    match outcome {
        Ok(value) => Ok(value),
        Err(error) => Err(error@),
    }
}

/// Reads a 32-bit integer from a path component that has been
/// percent-decoded; `None` stands for a component that could not be.
pub fn integer_from(decoded: Option<&str>) -> (outcome: Result<i32, TypedError>)
    ensures
        integer_view(outcome) == integer_of(
            match decoded {
                Some(text) => Some(text@),
                None => None,
            },
        ),
{
    let parsed = match decoded {
        Some(text) => parse_i32(text),
        None => None,
    };
    match parsed {
        Some(value) => Ok(value),
        None => Err(TypedError::invalid_path()),
    }
}

/// Reads a 32-bit integer from a path component as it stands in the
/// request: percent-decodes it, then reads the decimal text.
pub fn path_integer(raw: &str) -> (outcome: Result<i32, TypedError>)
    ensures
        integer_view(outcome) == integer_of(percent_decoded(raw@)),
{
    match percent_decode(raw) {
        Some(text) => integer_from(Some(text.as_str())),
        None => integer_from(None),
    }
}

} // verus!
