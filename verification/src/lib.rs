//! A request pipeline for a small HTTP service: a route table, an onion of
//! middleware wrappers, the handlers, a mapping from typed failures to
//! responses, and the dispatcher that ties them together.
//!
//! A request passes through four stages. [`dispatch::Dispatcher::intake`]
//! answers a request that no route serves, and otherwise hands out the
//! [`body::BodyBuffer`] that takes the body in, up to the limit.
//! [`dispatch::Dispatcher::dispatch`] then resolves the route, decodes the
//! arguments of the handler, and runs the [`middleware::MiddlewareChain`]
//! around the handler. Whatever fails on the way becomes a response through
//! [`error::map_error`].
//!
//! Every function works on plain values, so the transport that feeds the
//! pipeline (sockets, body streams, logging) stays outside. What the
//! pipeline did for a request is told by the events of its
//! [`middleware::Exchange`].

pub mod body;
pub mod decimal;
pub mod dispatch;
pub mod error;
pub mod handler;
pub mod headers;
pub mod http;
pub mod json;
pub mod middleware;
pub mod model;
pub mod params;
pub mod path;
pub mod pattern;
pub mod query;
pub mod route;
pub mod service;
pub mod text;
