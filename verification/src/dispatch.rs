//! The dispatcher: from a request to the response that answers it.

use crate::body::{BodyBuffer, BodyBufferView};
use crate::error::{
    invalid_body_message, not_found_message, too_large_message, unbound_path_message, ErrorView,
    TypedError,
};
use crate::handler::{Handler, Invocation, InvocationView};
use crate::http::{HttpMethod, Request, RequestView, ResponseView};
use crate::middleware::{
    chain_response, chain_trace, handler_ran, settled, Event, Exchange, MiddlewareChain,
    WrapperView,
};
use crate::model::{RequestData, RequestDataView};
use crate::params::{integer_of, path_integer, percent_decoded};
use crate::route::{lookup, RouteTable, RouteView};
use crate::text::{pairs_view, TextPair};
use vstd::prelude::*;

verus! {

/// The largest body that the service accepts unless it is told otherwise:
/// 100 MiB.
pub const MAX_BODY_BYTES: usize = 104857600;

/// The component that the first variable named `name` is bound to.
pub open spec fn bound_value(params: Seq<TextPair>, name: Seq<char>) -> Option<Seq<char>>
    decreases params.len(),
{
    if params.len() == 0 {
        None
    } else if params[0].0 == name {
        Some(params[0].1)
    } else {
        bound_value(params.drop_first(), name)
    }
}

/// An optional body document, as contracts speak of it.
pub open spec fn document_view(document: Option<RequestData>) -> Option<RequestDataView> {
    match document {
        Some(data) => Some(data@),
        None => None,
    }
}

/// The invocation that a resolved request leads to: the handler with the
/// arguments that it declares, decoded from the bindings of the path and
/// from the body document. `document` is `None` where the body is not the
/// document that the sample handler expects.
pub open spec fn prepared(
    handler: Handler,
    params: Seq<TextPair>,
    document: Option<RequestDataView>,
) -> Result<InvocationView, ErrorView> {
    match handler {
        Handler::Ping => Ok(InvocationView::Ping),
        Handler::Login => Ok(InvocationView::Login),
        Handler::Profile => Ok(InvocationView::Profile),
        Handler::Sample => match bound_value(params, "path"@) {
            None => Err(ErrorView::Internal(unbound_path_message())),
            Some(raw) => match integer_of(percent_decoded(raw)) {
                Err(error) => Err(error),
                Ok(path) => match document {
                    None => Err(ErrorView::BadRequest(invalid_body_message())),
                    Some(data) => Ok(
                        InvocationView::Sample { path, name: data.name, message: data.message },
                    ),
                },
            },
        },
    }
}

/// The response to a request and the events that lead to it.
///
/// A request that no route serves is answered with 404. One that a route
/// serves, but whose body is longer than `limit`, is answered with 413.
/// One whose arguments cannot be decoded is answered with 400. In all
/// three cases neither a wrapper nor a handler runs. Every other request
/// goes through the middleware chain to its handler.
pub open spec fn served(
    routes: Seq<RouteView>,
    chain: Seq<WrapperView>,
    limit: usize,
    request: RequestView,
    document: Option<RequestDataView>,
) -> (ResponseView, Seq<Event>) {
    match lookup(routes, request.method, request.path) {
        None => (ErrorView::NotFound(not_found_message()).response(), Seq::empty()),
        Some((handler, params)) => if request.body.len() > limit {
            (ErrorView::PayloadTooLarge(too_large_message()).response(), Seq::empty())
        } else {
            match prepared(handler, params, document) {
                Err(error) => (error.response(), Seq::empty()),
                Ok(call) => (
                    chain_response(chain, request, settled(call.reply(request.query))),
                    chain_trace(chain, request, call.handler()),
                ),
            }
        },
    }
}

/// Finds the component that the first variable named `name` is bound to.
pub fn find_bound<'a>(params: &'a Vec<(String, String)>, name: &str) -> (found: Option<&'a str>)
    ensures
        match found {
            Some(value) => bound_value(pairs_view(params@), name@) == Some(value@),
            None => bound_value(pairs_view(params@), name@) is None,
        },
{
    let wanted = name.to_owned();
    let ghost all = pairs_view(params@);
    let mut i: usize = 0;
    assert(all.subrange(0, all.len() as int) =~= all);
    while i < params.len()
        invariant
            i <= params@.len(),
            wanted@ == name@,
            all == pairs_view(params@),
            bound_value(all, name@) == bound_value(all.subrange(i as int, all.len() as int), name@),
        decreases params@.len() - i,
    {
        let ghost rest = all.subrange(i as int, all.len() as int);
        assert(rest.drop_first() =~= all.subrange(i + 1, all.len() as int));
        if params[i].0 == wanted {
            return Some(params[i].1.as_str());
        }
        i = i + 1;
    }
    None
}

/// An invocation or a failure, as contracts speak of them.
pub open spec fn prepared_view(outcome: Result<Invocation, TypedError>) -> Result<
    InvocationView,
    ErrorView,
> {
    match outcome {
        Ok(call) => Ok(call@),
        Err(error) => Err(error@),
    }
}

/// Decodes the arguments that `handler` declares.
pub fn prepare(
    handler: Handler,
    params: &Vec<(String, String)>,
    document: Option<RequestData>,
) -> (outcome: Result<Invocation, TypedError>)
    ensures
        prepared_view(outcome) == prepared(handler, pairs_view(params@), document_view(document)),
{
    match handler {
        Handler::Ping => Ok(Invocation::Ping),
        Handler::Login => Ok(Invocation::Login),
        Handler::Profile => Ok(Invocation::Profile),
        Handler::Sample => match find_bound(params, "path") {
            None => Err(TypedError::unbound_path()),
            Some(raw) => match path_integer(raw) {
                Err(error) => Err(error),
                Ok(path) => match document {
                    None => Err(TypedError::invalid_body()),
                    Some(body) => Ok(Invocation::Sample { path, body }),
                },
            },
        },
    }
}

/// A route table, a middleware chain and a limit on the size of bodies.
#[derive(Clone, Debug, PartialEq, Eq)]
pub struct Dispatcher {
    pub table: RouteTable,
    pub chain: MiddlewareChain,
    pub max_body: usize,
}

impl Dispatcher {
    /// A dispatcher over `table` and `chain` that accepts bodies of up to
    /// `max_body` bytes.
    pub fn new(table: RouteTable, chain: MiddlewareChain, max_body: usize) -> (dispatcher:
        Dispatcher)
        ensures
            dispatcher.table@ == table@,
            dispatcher.chain@ == chain@,
            dispatcher.max_body == max_body,
    {
        Dispatcher { table, chain, max_body }
    }

    /// The first step for a request of which only the head is known. Where
    /// no route serves it, the answer is due at once and the body need not
    /// be read; else a buffer is handed out that takes the body in, up to
    /// the limit.
    pub fn intake(&self, method: HttpMethod, path: &str) -> (step: Result<BodyBuffer, Exchange>)
        ensures
            match step {
                Ok(buffer) => {
                    &&& lookup(self.table@, method, path@) is Some
                    &&& buffer@ == (BodyBufferView {
                        limit: self.max_body,
                        bytes: Seq::empty(),
                        refused: false,
                    })
                },
                Err(exchange) => {
                    &&& lookup(self.table@, method, path@) is None
                    &&& exchange@ == (
                        ErrorView::NotFound(not_found_message()).response(),
                        Seq::<Event>::empty(),
                    )
                },
            },
    {
        match self.table.resolve(method, path) {
            Some(_) => Ok(BodyBuffer::new(self.max_body)),
            None => Err(Exchange::failure(&TypedError::not_found())),
        }
    }

    /// Whether the request is served by a handler that reads the body.
    pub fn expects_document(&self, method: HttpMethod, path: &str) -> (expected: bool)
        ensures
            expected == match lookup(self.table@, method, path@) {
                Some((handler, _)) => handler == Handler::Sample,
                None => false,
            },
    {
        match self.table.resolve(method, path) {
            Some((handler, _)) => handler == Handler::Sample,
            None => false,
        }
    }

    /// Answers a request. `document` is what the body holds, read as the
    /// document of the sample endpoint; `None` where it holds no such
    /// document.
    ///
    /// Every request is answered: a failure becomes the response that
    /// reports it.
    pub fn dispatch(&self, request: &Request, document: Option<RequestData>) -> (exchange:
        Exchange)
        ensures
            exchange@ == served(
                self.table@,
                self.chain@,
                self.max_body,
                request@,
                document_view(document),
            ),
            lookup(self.table@, request@.method, request@.path) is None ==> {
                &&& exchange@.0.status == 404
                &&& !handler_ran(exchange@.1)
            },
            lookup(self.table@, request@.method, request@.path) is Some && request@.body.len()
                > self.max_body ==> {
                &&& exchange@.0.status == 413
                &&& !handler_ran(exchange@.1)
            },
    {
        let error = match self.table.resolve(request.method, request.path.as_str()) {
            None => TypedError::not_found(),
            Some((handler, params)) => {
                if request.body.len() > self.max_body {
                    TypedError::too_large()
                } else {
                    match prepare(handler, &params, document) {
                        Ok(call) => {
                            return self.chain.run(request, &call);
                        },
                        Err(error) => error,
                    }
                }
            },
        };
        Exchange::failure(&error)
    }
}

} // verus!
