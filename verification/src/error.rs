//! The failures of the pipeline and the responses that report them.

use crate::http::{message_response, Response, ResponseView};
use vstd::prelude::*;

verus! {

/// Why a request could not be served. Each kind carries a message for a
/// human reader.
#[derive(Clone, Debug, PartialEq, Eq)]
pub enum TypedError {
    /// The path, the query or the body could not be decoded.
    BadRequest(String),
    /// No route matches the request.
    NotFound(String),
    /// The body is longer than the service accepts.
    PayloadTooLarge(String),
    /// Anything else. The message is a diagnostic and is never sent out.
    Internal(String),
}

/// A failure, as contracts speak of it.
pub enum ErrorView {
    BadRequest(Seq<char>),
    NotFound(Seq<char>),
    PayloadTooLarge(Seq<char>),
    Internal(Seq<char>),
}

impl View for TypedError {
    type V = ErrorView;

    open spec fn view(&self) -> ErrorView {
        match self {
            TypedError::BadRequest(m) => ErrorView::BadRequest(m@),
            TypedError::NotFound(m) => ErrorView::NotFound(m@),
            TypedError::PayloadTooLarge(m) => ErrorView::PayloadTooLarge(m@),
            TypedError::Internal(m) => ErrorView::Internal(m@),
        }
    }
}

impl ErrorView {
    /// The status code of the failure.
    pub open spec fn status(self) -> u16 {
        match self {
            ErrorView::BadRequest(_) => 400,
            ErrorView::NotFound(_) => 404,
            ErrorView::PayloadTooLarge(_) => 413,
            ErrorView::Internal(_) => 500,
        }
    }

    /// The message that the failure carries.
    pub open spec fn message(self) -> Seq<char> {
        match self {
            ErrorView::BadRequest(m) => m,
            ErrorView::NotFound(m) => m,
            ErrorView::PayloadTooLarge(m) => m,
            ErrorView::Internal(m) => m,
        }
    }

    /// The message that a client is shown: the failure's own, but for an
    /// internal failure, whose diagnostic stays inside.
    pub open spec fn disclosed(self) -> Seq<char> {
        match self {
            ErrorView::Internal(_) => "Internal Server Error"@,
            _ => self.message(),
        }
    }

    /// The response that reports the failure.
    pub open spec fn response(self) -> ResponseView {
        message_response(self.status(), self.disclosed())
    }
}

/// The message of the failure that reports a request without a route.
pub open spec fn not_found_message() -> Seq<char> {
    "no route matches the request"@
}

/// The message of the failure that reports a body over the limit.
pub open spec fn too_large_message() -> Seq<char> {
    "request body exceeds the size limit"@
}

/// The message of the failure that reports a path parameter which is no
/// 32-bit integer.
pub open spec fn invalid_path_message() -> Seq<char> {
    "invalid path parameter: expected a 32-bit integer"@
}

/// The message of the failure that reports a body which is not the
/// document that the handler expects.
pub open spec fn invalid_body_message() -> Seq<char> {
    "invalid request body"@
}

/// The diagnostic of the failure that reports a route which names the
/// sample handler but binds no variable `path`.
pub open spec fn unbound_path_message() -> Seq<char> {
    "the route binds no variable named path"@
}

impl TypedError {
    /// The failure that reports a request without a route.
    pub fn not_found() -> (error: TypedError)
        ensures
            error@ == ErrorView::NotFound(not_found_message()),
    {
        TypedError::NotFound("no route matches the request".to_owned())
    }

    /// The failure that reports a body over the limit.
    pub fn too_large() -> (error: TypedError)
        ensures
            error@ == ErrorView::PayloadTooLarge(too_large_message()),
    {
        TypedError::PayloadTooLarge("request body exceeds the size limit".to_owned())
    }

    /// The failure that reports a path parameter which is no 32-bit
    /// integer.
    pub fn invalid_path() -> (error: TypedError)
        ensures
            error@ == ErrorView::BadRequest(invalid_path_message()),
    {
        TypedError::BadRequest("invalid path parameter: expected a 32-bit integer".to_owned())
    }

    /// The failure that reports a body which is not the document that the
    /// handler expects.
    pub fn invalid_body() -> (error: TypedError)
        ensures
            error@ == ErrorView::BadRequest(invalid_body_message()),
    {
        TypedError::BadRequest("invalid request body".to_owned())
    }

    /// The failure that reports a route which names the sample handler but
    /// binds no variable `path`.
    pub fn unbound_path() -> (error: TypedError)
        ensures
            error@ == ErrorView::Internal(unbound_path_message()),
    {
        TypedError::Internal("the route binds no variable named path".to_owned())
    }

    /// The status code of the failure.
    pub fn status_code(&self) -> (status: u16)
        ensures
            status == self@.status(),
    {
        match self {
            TypedError::BadRequest(_) => 400,
            TypedError::NotFound(_) => 404,
            TypedError::PayloadTooLarge(_) => 413,
            TypedError::Internal(_) => 500,
        }
    }

    /// The message that the failure carries.
    pub fn message(&self) -> (message: &str)
        ensures
            message@ == self@.message(),
    {
        match self {
            TypedError::BadRequest(m) => m.as_str(),
            TypedError::NotFound(m) => m.as_str(),
            TypedError::PayloadTooLarge(m) => m.as_str(),
            TypedError::Internal(m) => m.as_str(),
        }
    }
}

/// Turns a failure into the response that reports it: the status code of
/// its kind, and a JSON object with the message that may be disclosed.
pub fn map_error(error: &TypedError) -> (response: Response)
    ensures
        response@ == error@.response(),
{
    match error {
        TypedError::Internal(_) => Response::message(500, "Internal Server Error"),
        _ => Response::message(error.status_code(), error.message()),
    }
}

} // verus!
