//! The service as it is deployed: its routes, its middleware and its
//! limit on bodies.

use crate::dispatch::{served, Dispatcher, MAX_BODY_BYTES};
use crate::error::ErrorView;
use crate::handler::{sample_response, Handler};
use crate::http::{text_response, HttpMethod, RequestView};
use crate::middleware::{
    chain_trace, depth, lemma_depth, Event, MiddlewareChain, Wrapper, WrapperView,
};
use crate::model::RequestDataView;
use crate::params::{integer_of, percent_decoded};
use crate::path::{components, lemma_one_component, lemma_root_components, lemma_two_components};
use crate::pattern::{
    bindings, pattern_of, patterns_overlap, segments_overlap, PathPattern, SegmentView,
};
use crate::route::{
    conflict, holds_conflict, lemma_resolves_to_serving_route, lookup, unambiguous, RouteTable,
    RouteView,
};
use crate::text::TextPair;
use vstd::prelude::*;

verus! {

/// The routes of the service.
pub open spec fn standard_routes() -> Seq<RouteView> {
    seq![
        RouteView { method: HttpMethod::Get, pattern: pattern_of("/"@), handler: Handler::Ping },
        RouteView {
            method: HttpMethod::Get,
            pattern: pattern_of("/login"@),
            handler: Handler::Login,
        },
        RouteView {
            method: HttpMethod::Post,
            pattern: pattern_of("/login"@),
            handler: Handler::Login,
        },
        RouteView {
            method: HttpMethod::Get,
            pattern: pattern_of("/profile"@),
            handler: Handler::Profile,
        },
        RouteView {
            method: HttpMethod::Post,
            pattern: pattern_of("/profile"@),
            handler: Handler::Profile,
        },
        RouteView {
            method: HttpMethod::Post,
            pattern: pattern_of("/sample/:path"@),
            handler: Handler::Sample,
        },
    ]
}

/// The wrappers of the service: one observer.
pub open spec fn standard_wrappers() -> Seq<WrapperView> {
    seq![WrapperView::Observer]
}

/// The patterns of the service's routes, segment by segment.
pub proof fn lemma_standard_patterns()
    ensures
        pattern_of("/"@) == Seq::<SegmentView>::empty(),
        pattern_of("/login"@) == seq![SegmentView::Literal("login"@)],
        pattern_of("/profile"@) == seq![SegmentView::Literal("profile"@)],
        pattern_of("/sample/:path"@) == seq![
            SegmentView::Literal("sample"@),
            SegmentView::Variable("path"@),
        ],
{
    lemma_root_components();
    reveal_strlit("/login");
    reveal_strlit("login");
    assert("/login"@ =~= seq!['/'] + "login"@);
    lemma_one_component("/login"@, "login"@);
    reveal_strlit("/profile");
    reveal_strlit("profile");
    assert("/profile"@ =~= seq!['/'] + "profile"@);
    lemma_one_component("/profile"@, "profile"@);
    reveal_strlit("/sample/:path");
    reveal_strlit("sample");
    reveal_strlit(":path");
    reveal_strlit("path");
    assert("/sample/:path"@ =~= seq!['/'] + "sample"@ + seq!['/'] + ":path"@);
    lemma_two_components("/sample/:path"@, "sample"@, ":path"@);
    assert(":path"@.drop_first() =~= "path"@);
    assert(pattern_of("/sample/:path"@) =~= seq![
        SegmentView::Literal("sample"@),
        SegmentView::Variable("path"@),
    ]);
}

/// No two routes of the service conflict.
pub proof fn lemma_standard_routes_unambiguous()
    ensures
        unambiguous(standard_routes()),
{
    lemma_standard_patterns();
    reveal_strlit("login");
    reveal_strlit("profile");
    let routes = standard_routes();
    let login = seq![SegmentView::Literal("login"@)];
    let profile = seq![SegmentView::Literal("profile"@)];
    assert(!patterns_overlap(login, profile)) by {
        if patterns_overlap(login, profile) {
            assert(segments_overlap(login[0], profile[0]));
        }
    }
    assert(!patterns_overlap(profile, login));
    assert forall|i: int, j: int| 0 <= i < j < routes.len() implies !conflict(
        #[trigger] routes[i],
        #[trigger] routes[j],
    ) by {}
}

/// The route table of the service.
pub fn standard_table() -> (table: RouteTable)
    ensures
        table@ == standard_routes(),
        unambiguous(table@),
{
    proof {
        lemma_standard_routes_unambiguous();
    }
    let ghost routes = standard_routes();
    let mut table = RouteTable::new();
    let _ = table.register(HttpMethod::Get, PathPattern::parse("/"), Handler::Ping);
    let _ = table.register(HttpMethod::Get, PathPattern::parse("/login"), Handler::Login);
    assert(table@ =~= routes.subrange(0, 2)) by {
        lemma_no_conflict_before(1);
    }
    let _ = table.register(HttpMethod::Post, PathPattern::parse("/login"), Handler::Login);
    assert(table@ =~= routes.subrange(0, 3)) by {
        lemma_no_conflict_before(2);
    }
    let _ = table.register(HttpMethod::Get, PathPattern::parse("/profile"), Handler::Profile);
    assert(table@ =~= routes.subrange(0, 4)) by {
        lemma_no_conflict_before(3);
    }
    let _ = table.register(HttpMethod::Post, PathPattern::parse("/profile"), Handler::Profile);
    assert(table@ =~= routes.subrange(0, 5)) by {
        lemma_no_conflict_before(4);
    }
    let _ = table.register(HttpMethod::Post, PathPattern::parse("/sample/:path"), Handler::Sample);
    assert(table@ =~= routes.subrange(0, 6)) by {
        lemma_no_conflict_before(5);
    }
    table
}

/// No route of the service conflicts with one that stands before it.
proof fn lemma_no_conflict_before(k: int)
    requires
        0 <= k < standard_routes().len(),
    ensures
        !holds_conflict(standard_routes().subrange(0, k), standard_routes()[k]),
{
    lemma_standard_routes_unambiguous();
}

/// What the service resolves `GET /` to.
pub proof fn lemma_root_resolves()
    ensures
        lookup(standard_routes(), HttpMethod::Get, "/"@) == Some(
            (Handler::Ping, Seq::<TextPair>::empty()),
        ),
{
    lemma_standard_patterns();
    lemma_standard_routes_unambiguous();
    lemma_root_components();
    lemma_resolves_to_serving_route(standard_routes(), 0, HttpMethod::Get, "/"@);
}

/// What the service resolves a `POST` to `/sample/` and one more component
/// to.
pub proof fn lemma_sample_resolves(segment: Seq<char>)
    requires
        segment.len() > 0,
        forall|i: int| 0 <= i < segment.len() ==> segment[i] != '/',
    ensures
        lookup(standard_routes(), HttpMethod::Post, "/sample/"@ + segment) == Some(
            (Handler::Sample, seq![("path"@, segment)]),
        ),
{
    lemma_standard_patterns();
    lemma_standard_routes_unambiguous();
    reveal_strlit("/sample/");
    reveal_strlit("sample");
    let path = "/sample/"@ + segment;
    assert(path =~= seq!['/'] + "sample"@ + seq!['/'] + segment);
    lemma_two_components(path, "sample"@, segment);
    let pattern = standard_routes()[5].pattern;
    let parts = components(path);
    lemma_resolves_to_serving_route(standard_routes(), 5, HttpMethod::Post, path);
    assert(bindings(pattern, parts) =~= seq![("path"@, segment)]) by {
        assert(bindings(pattern.drop_last().drop_last(), parts.drop_last().drop_last())
            =~= Seq::<TextPair>::empty());
        assert(bindings(pattern.drop_last(), parts.drop_last()) =~= Seq::<TextPair>::empty());
    }
}

/// The events of a request that passes the service's one observer on its
/// way to `handler` and back.
pub open spec fn observed(handler: Handler) -> Seq<Event> {
    seq![Event::Pre(0), Event::Handler(handler), Event::Post(0)]
}

/// The events of the service's chain around `handler`.
pub proof fn lemma_standard_trace(request: RequestView, handler: Handler)
    ensures
        depth(standard_wrappers(), request) == 1,
        chain_trace(standard_wrappers(), request, handler) == observed(handler),
{
    lemma_depth(standard_wrappers(), request, 1);
    assert(chain_trace(standard_wrappers(), request, handler) =~= observed(
        handler,
    ));
}

/// `GET /` is answered with `pong` every time: whatever else the request
/// carries, and however often it is sent, as long as the body stays within
/// the limit.
pub proof fn lemma_ping_always_answers_pong(
    request: RequestView,
    document: Option<RequestDataView>,
)
    requires
        request.method == HttpMethod::Get,
        request.path == "/"@,
        request.body.len() <= MAX_BODY_BYTES,
    ensures
        served(standard_routes(), standard_wrappers(), MAX_BODY_BYTES, request, document) == (
            text_response(200, "pong"@),
            observed(Handler::Ping),
        ),
{
    lemma_root_resolves();
    lemma_standard_trace(request, Handler::Ping);
}

/// A `POST` to `/sample/` and a component that denotes a 32-bit integer,
/// with a body that holds the expected document, is answered with the echo
/// of the integer, of the query and of the document.
pub proof fn lemma_sample_echoes(
    request: RequestView,
    segment: Seq<char>,
    path: i32,
    document: RequestDataView,
)
    requires
        request.method == HttpMethod::Post,
        request.path == "/sample/"@ + segment,
        segment.len() > 0,
        forall|i: int| 0 <= i < segment.len() ==> segment[i] != '/',
        integer_of(percent_decoded(segment)) == Ok::<i32, ErrorView>(path),
        request.body.len() <= MAX_BODY_BYTES,
    ensures
        served(
            standard_routes(),
            standard_wrappers(),
            MAX_BODY_BYTES,
            request,
            Some(document),
        ) == (
            sample_response(path, request.query, document.name, document.message),
            observed(Handler::Sample),
        ),
{
    lemma_sample_resolves(segment);
    lemma_standard_trace(request, Handler::Sample);
}

/// A `POST` to `/sample/` and a component that denotes no 32-bit integer
/// is answered with 400, and neither a wrapper nor the handler runs.
pub proof fn lemma_sample_rejects_other_paths(
    request: RequestView,
    segment: Seq<char>,
    document: Option<RequestDataView>,
)
    requires
        request.method == HttpMethod::Post,
        request.path == "/sample/"@ + segment,
        segment.len() > 0,
        forall|i: int| 0 <= i < segment.len() ==> segment[i] != '/',
        integer_of(percent_decoded(segment)) is Err,
        request.body.len() <= MAX_BODY_BYTES,
    ensures
        served(standard_routes(), standard_wrappers(), MAX_BODY_BYTES, request, document).0.status
            == 400,
        served(standard_routes(), standard_wrappers(), MAX_BODY_BYTES, request, document).1
            == Seq::<Event>::empty(),
{
    lemma_sample_resolves(segment);
}

/// The middleware chain of the service.
pub fn standard_chain() -> (chain: MiddlewareChain)
    ensures
        chain@ == standard_wrappers(),
{
    let mut chain = MiddlewareChain::new();
    chain.push(Wrapper::Observer);
    chain
}

impl Dispatcher {
    /// The dispatcher of the service.
    pub fn standard() -> (dispatcher: Dispatcher)
        ensures
            dispatcher.table@ == standard_routes(),
            dispatcher.chain@ == standard_wrappers(),
            dispatcher.max_body == MAX_BODY_BYTES,
    {
        Dispatcher::new(standard_table(), standard_chain(), MAX_BODY_BYTES)
    }
}

} // verus!
