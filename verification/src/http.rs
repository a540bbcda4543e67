//! The plain values that travel through the pipeline: methods, header
//! lists, query mappings, requests and responses.

use crate::headers::Headers;
use crate::json::{message_document, message_json_bytes};
use crate::model::ResponseData;
use crate::query::Query;
use crate::text::TextPair;
use vstd::prelude::*;
use vstd::utf8::encode_utf8;

verus! {

/// The request methods that the service tells apart.
#[derive(Clone, Copy, Debug, PartialEq, Eq, Structural)]
pub enum HttpMethod {
    Get,
    Post,
    Put,
    Patch,
    Delete,
    Head,
    Options,
    Trace,
    Connect,
    /// Any method beyond the standard ones.
    Other,
}

/// A request whose body has been read into memory.
#[derive(Clone, Debug)]
pub struct Request {
    pub method: HttpMethod,
    pub path: String,
    pub query: Query,
    pub headers: Headers,
    pub body: Vec<u8>,
}

/// A response, ready to be handed to the transport.
#[derive(Clone, Debug, PartialEq, Eq)]
pub struct Response {
    pub status: u16,
    pub headers: Headers,
    pub body: Vec<u8>,
}

/// A request, as contracts speak of it.
pub struct RequestView {
    pub method: HttpMethod,
    pub path: Seq<char>,
    pub query: Map<Seq<char>, Seq<char>>,
    pub headers: Seq<TextPair>,
    pub body: Seq<u8>,
}

impl View for Request {
    type V = RequestView;

    open spec fn view(&self) -> RequestView {
        RequestView {
            method: self.method,
            path: self.path@,
            query: self.query@,
            headers: self.headers@,
            body: self.body@,
        }
    }
}

/// A response, as contracts speak of it.
pub struct ResponseView {
    pub status: u16,
    pub headers: Seq<TextPair>,
    pub body: Seq<u8>,
}

impl View for Response {
    type V = ResponseView;

    open spec fn view(&self) -> ResponseView {
        ResponseView { status: self.status, headers: self.headers@, body: self.body@ }
    }
}

/// A response without headers and without a body.
pub open spec fn empty_response(status: u16) -> ResponseView {
    ResponseView { status, headers: Seq::empty(), body: Seq::empty() }
}

/// A response that carries `text` as plain text in UTF-8.
pub open spec fn text_response(status: u16, text: Seq<char>) -> ResponseView {
    ResponseView {
        status,
        headers: seq![("content-type"@, "text/plain; charset=utf-8"@)],
        body: encode_utf8(text),
    }
}

/// A response that carries the JSON object whose only member, `message`,
/// is `message`.
pub open spec fn message_response(status: u16, message: Seq<char>) -> ResponseView {
    ResponseView {
        status,
        headers: seq![("content-type"@, "application/json"@)],
        body: message_json_bytes(message),
    }
}

impl Response {
    /// A response with the same status, headers and body.
    pub fn duplicate(&self) -> (copy: Response)
        ensures
            copy@ == self@,
    {
        Response {
            status: self.status,
            headers: self.headers.duplicate(),
            body: self.body.clone(),
        }
    }

    /// A response without headers and without a body.
    pub fn empty(status: u16) -> (response: Response)
        ensures
            response@ == empty_response(status),
    {
        Response { status, headers: Headers::new(), body: Vec::new() }
    }

    /// A response that carries `text` as plain text.
    pub fn text(status: u16, text: &str) -> (response: Response)
        ensures
            response@ == text_response(status, text@),
    {
        let mut headers = Headers::new();
        headers.append("content-type", "text/plain; charset=utf-8");
        Response { status, headers, body: text.as_bytes_vec() }
    }

    /// A response that carries `data` as a JSON object.
    pub fn json(status: u16, data: &ResponseData) -> (response: Response)
        ensures
            response@ == message_response(status, data.message@),
    {
        Response::message(status, data.message.as_str())
    }

    /// A response that carries `message` in a JSON object.
    pub fn message(status: u16, message: &str) -> (response: Response)
        ensures
            response@ == message_response(status, message@),
    {
        let mut headers = Headers::new();
        headers.append("content-type", "application/json");
        Response { status, headers, body: message_document(message) }
    }
}

} // verus!
