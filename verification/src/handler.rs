//! The handlers of the service.

use crate::decimal::{decimal_text, format_i32};
use crate::error::{ErrorView, TypedError};
use crate::http::{empty_response, message_response, text_response, Response, ResponseView};
use crate::model::{RequestData, ResponseData};
use crate::query::Query;
use vstd::prelude::*;

verus! {

/// The handlers that a route can name.
#[derive(Clone, Copy, Debug, PartialEq, Eq, Structural)]
pub enum Handler {
    /// Answers `pong`.
    Ping,
    /// Accepts every login.
    Login,
    /// Accepts every request for the profile.
    Profile,
    /// Echoes what it was sent.
    Sample,
}

/// A handler's result, as contracts speak of it.
pub open spec fn reply_view(reply: Result<Response, TypedError>) -> Result<
    ResponseView,
    ErrorView,
> {
    match reply {
        Ok(response) => Ok(response@),
        Err(error) => Err(error@),
    }
}

/// Answers `pong`.
pub fn ping_handler() -> (reply: Result<Response, TypedError>)
    ensures
        reply_view(reply) == Ok::<ResponseView, ErrorView>(text_response(200, "pong"@)),
{
    Ok(Response::text(200, "pong"))
}

/// Accepts every login: answers with success and an empty body.
pub fn login_handler() -> (reply: Result<Response, TypedError>)
    ensures
        reply_view(reply) == Ok::<ResponseView, ErrorView>(empty_response(200)),
{
    Ok(Response::empty(200))
}

/// Accepts every request for the profile: answers with success and an
/// empty body.
pub fn profile_handler() -> (reply: Result<Response, TypedError>)
    ensures
        reply_view(reply) == Ok::<ResponseView, ErrorView>(empty_response(200)),
{
    Ok(Response::empty(200))
}

/// The value of the parameter `query`, or the empty text where the query
/// string gives none.
pub open spec fn query_parameter(query: Map<Seq<char>, Seq<char>>) -> Seq<char> {
    if query.contains_key("query"@) {
        query["query"@]
    } else {
        Seq::empty()
    }
}

/// The message with which the sample endpoint echoes its inputs.
pub open spec fn sample_text(
    path: int,
    query: Seq<char>,
    name: Seq<char>,
    message: Seq<char>,
) -> Seq<char> {
    "path: "@ + decimal_text(path) + ", query: "@ + query + ", body: { name: "@ + name
        + ", message: "@ + message + " }"@
}

/// The response of the sample endpoint.
pub open spec fn sample_response(
    path: i32,
    query: Map<Seq<char>, Seq<char>>,
    name: Seq<char>,
    message: Seq<char>,
) -> ResponseView {
    message_response(200, sample_text(path as int, query_parameter(query), name, message))
}

/// A query string without the parameter `query` is answered like one that
/// gives it the empty text.
pub proof fn lemma_absent_query_reads_as_empty(
    path: i32,
    query: Map<Seq<char>, Seq<char>>,
    name: Seq<char>,
    message: Seq<char>,
)
    requires
        !query.contains_key("query"@),
    ensures
        sample_response(path, query, name, message) == sample_response(
            path,
            query.insert("query"@, Seq::empty()),
            name,
            message,
        ),
{
}

/// Echoes the path parameter, the query parameter `query` and the fields
/// of the body in one message.
pub fn sample_handler(path: i32, query: &Query, body: &RequestData) -> (reply: Result<
    Response,
    TypedError,
>)
    ensures
        reply_view(reply) == Ok::<ResponseView, ErrorView>(
            sample_response(path, query@, body.name@, body.message@),
        ),
{
    let given = match query.get("query") {
        Some(value) => value,
        None => "",
    };
    proof {
        reveal_strlit("");
    }
    let mut message = String::from_str("path: ");
    message.append(format_i32(path).as_str());
    message.append(", query: ");
    message.append(given);
    message.append(", body: { name: ");
    message.append(body.name.as_str());
    message.append(", message: ");
    message.append(body.message.as_str());
    message.append(" }");
    let result: ResponseData = ResponseData { message };
    Ok(Response::json(200, &result))
}

/// A handler together with the arguments that were decoded for it.
#[derive(Clone, Debug, PartialEq, Eq)]
pub enum Invocation {
    Ping,
    Login,
    Profile,
    Sample { path: i32, body: RequestData },
}

/// An invocation, as contracts speak of it.
pub enum InvocationView {
    Ping,
    Login,
    Profile,
    Sample { path: i32, name: Seq<char>, message: Seq<char> },
}

impl View for Invocation {
    type V = InvocationView;

    open spec fn view(&self) -> InvocationView {
        match self {
            Invocation::Ping => InvocationView::Ping,
            Invocation::Login => InvocationView::Login,
            Invocation::Profile => InvocationView::Profile,
            Invocation::Sample { path, body } => InvocationView::Sample {
                path: *path,
                name: body.name@,
                message: body.message@,
            },
        }
    }
}

impl InvocationView {
    /// The handler that is invoked.
    pub open spec fn handler(self) -> Handler {
        match self {
            InvocationView::Ping => Handler::Ping,
            InvocationView::Login => Handler::Login,
            InvocationView::Profile => Handler::Profile,
            InvocationView::Sample { .. } => Handler::Sample,
        }
    }

    /// What the handler answers to a request with the query `query`.
    pub open spec fn reply(self, query: Map<Seq<char>, Seq<char>>) -> Result<
        ResponseView,
        ErrorView,
    > {
        match self {
            InvocationView::Ping => Ok(text_response(200, "pong"@)),
            InvocationView::Login => Ok(empty_response(200)),
            InvocationView::Profile => Ok(empty_response(200)),
            InvocationView::Sample { path, name, message } => Ok(
                sample_response(path, query, name, message),
            ),
        }
    }
}

impl Invocation {
    /// The handler that is invoked.
    pub fn handler(&self) -> (handler: Handler)
        ensures
            handler == self@.handler(),
    {
        match self {
            Invocation::Ping => Handler::Ping,
            Invocation::Login => Handler::Login,
            Invocation::Profile => Handler::Profile,
            Invocation::Sample { .. } => Handler::Sample,
        }
    }
}

/// Runs the handler of an invocation on its arguments.
pub fn invoke(call: &Invocation, query: &Query) -> (reply: Result<Response, TypedError>)
    ensures
        reply_view(reply) == call@.reply(query@),
{
    match call {
        Invocation::Ping => ping_handler(),
        Invocation::Login => login_handler(),
        Invocation::Profile => profile_handler(),
        Invocation::Sample { path, body } => sample_handler(*path, query, body),
    }
}

} // verus!
