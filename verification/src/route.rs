//! The route table: which handler serves which method and path.

use crate::handler::Handler;
use crate::http::HttpMethod;
use crate::path::{components, lemma_trailing_slash_is_ignored, split_path};
use crate::pattern::{
    bindings, pattern_matches, patterns_overlap, segment_accepts, segments_overlap, PathPattern,
    SegmentView,
};
use crate::text::{pairs_view, texts, TextPair};
use vstd::prelude::*;

verus! {

/// A binding of a method and a pattern to a handler.
#[derive(Clone, Debug, PartialEq, Eq)]
pub struct Route {
    pub method: HttpMethod,
    pub pattern: PathPattern,
    pub handler: Handler,
}

/// A route, as contracts speak of it.
pub struct RouteView {
    pub method: HttpMethod,
    pub pattern: Seq<SegmentView>,
    pub handler: Handler,
}

impl View for Route {
    type V = RouteView;

    open spec fn view(&self) -> RouteView {
        RouteView { method: self.method, pattern: self.pattern@, handler: self.handler }
    }
}

/// Why a route was not registered.
#[derive(Clone, Copy, Debug, PartialEq, Eq, Structural)]
pub enum RegisterError {
    /// The table holds a route with the same method and the same pattern.
    DuplicateRoute,
    /// The table holds no such route, but one with the same method whose
    /// pattern matches some path that the new pattern matches too.
    AmbiguousRoute,
}

/// Whether two routes have the same method and the same pattern.
pub open spec fn identical(a: RouteView, b: RouteView) -> bool {
    a.method == b.method && a.pattern == b.pattern
}

/// Whether two routes have the same method and overlapping patterns.
pub open spec fn conflict(a: RouteView, b: RouteView) -> bool {
    a.method == b.method && patterns_overlap(a.pattern, b.pattern)
}

/// Whether some route of `routes` is identical to `route`.
pub open spec fn holds_identical(routes: Seq<RouteView>, route: RouteView) -> bool {
    exists|i: int| 0 <= i < routes.len() && identical(#[trigger] routes[i], route)
}

/// Whether some route of `routes` conflicts with `route`.
pub open spec fn holds_conflict(routes: Seq<RouteView>, route: RouteView) -> bool {
    exists|i: int| 0 <= i < routes.len() && conflict(#[trigger] routes[i], route)
}

/// Whether no two routes conflict.
pub open spec fn unambiguous(routes: Seq<RouteView>) -> bool {
    forall|i: int, j: int|
        0 <= i < j < routes.len() ==> !conflict(#[trigger] routes[i], #[trigger] routes[j])
}

/// Whether a route serves a method and a list of components.
pub open spec fn route_accepts(route: RouteView, method: HttpMethod, parts: Seq<Seq<char>>) -> bool {
    route.method == method && pattern_matches(route.pattern, parts)
}

/// The position of the first route that serves `method` and `parts`.
pub open spec fn first_match(
    routes: Seq<RouteView>,
    method: HttpMethod,
    parts: Seq<Seq<char>>,
) -> Option<int>
    decreases routes.len(),
{
    if routes.len() == 0 {
        None
    } else {
        match first_match(routes.drop_last(), method, parts) {
            Some(i) => Some(i),
            None => if route_accepts(routes.last(), method, parts) {
                Some(routes.len() - 1)
            } else {
                None
            },
        }
    }
}

/// What a table resolves a method and a path to: the handler of the route
/// that serves them, and what the variables of its pattern are bound to.
pub open spec fn lookup(routes: Seq<RouteView>, method: HttpMethod, path: Seq<char>) -> Option<
    (Handler, Seq<TextPair>),
> {
    let parts = components(path);
    match first_match(routes, method, parts) {
        Some(i) => Some((routes[i].handler, bindings(routes[i].pattern, parts))),
        None => None,
    }
}

/// One slash at the end of a path changes nothing of what it resolves to.
pub proof fn lemma_resolve_ignores_trailing_slash(
    routes: Seq<RouteView>,
    method: HttpMethod,
    path: Seq<char>,
)
    requires
        path.len() == 0 || path.last() != '/',
    ensures
        lookup(routes, method, path.push('/')) == lookup(routes, method, path),
{
    lemma_trailing_slash_is_ignored(path);
}

/// `first_match` gives the least position that serves, and none where no
/// route serves.
pub proof fn lemma_first_match(routes: Seq<RouteView>, method: HttpMethod, parts: Seq<Seq<char>>)
    ensures
        match first_match(routes, method, parts) {
            Some(i) => {
                &&& 0 <= i < routes.len()
                &&& route_accepts(routes[i], method, parts)
                &&& forall|j: int| 0 <= j < i ==> !route_accepts(#[trigger] routes[j], method, parts)
            },
            None => forall|j: int|
                0 <= j < routes.len() ==> !route_accepts(#[trigger] routes[j], method, parts),
        },
    decreases routes.len(),
{
    if routes.len() > 0 {
        let front = routes.drop_last();
        lemma_first_match(front, method, parts);
        assert forall|j: int| 0 <= j < front.len() implies front[j] == routes[j] by {}
        match first_match(front, method, parts) {
            Some(i) => {
                assert forall|j: int| 0 <= j < i implies !route_accepts(
                    #[trigger] routes[j],
                    method,
                    parts,
                ) by {}
            },
            None => {
                assert forall|j: int| 0 <= j < front.len() implies !route_accepts(
                    #[trigger] routes[j],
                    method,
                    parts,
                ) by {}
            },
        }
    }
}

/// Two patterns that match the same components overlap.
pub proof fn lemma_common_match_overlaps(
    p: Seq<SegmentView>,
    q: Seq<SegmentView>,
    parts: Seq<Seq<char>>,
)
    requires
        pattern_matches(p, parts),
        pattern_matches(q, parts),
    ensures
        patterns_overlap(p, q),
{
    assert forall|i: int| 0 <= i < p.len() implies segments_overlap(#[trigger] p[i], q[i]) by {}
}

/// The components that two overlapping patterns both match: at each place
/// the text of a literal, where one of the two segments is one.
pub open spec fn common_parts(p: Seq<SegmentView>, q: Seq<SegmentView>) -> Seq<Seq<char>> {
    Seq::new(
        p.len(),
        |i: int|
            match (p[i], q[i]) {
                (SegmentView::Literal(x), _) => x,
                (_, SegmentView::Literal(y)) => y,
                _ => Seq::empty(),
            },
    )
}

/// Two patterns that overlap match the same components somewhere: a route
/// is turned away only where it would make some request ambiguous.
pub proof fn lemma_overlap_has_common_match(p: Seq<SegmentView>, q: Seq<SegmentView>)
    requires
        patterns_overlap(p, q),
    ensures
        pattern_matches(p, common_parts(p, q)),
        pattern_matches(q, common_parts(p, q)),
{
    let parts = common_parts(p, q);
    assert forall|i: int| 0 <= i < p.len() implies segment_accepts(#[trigger] p[i], parts[i]) by {}
    assert forall|i: int| 0 <= i < q.len() implies segment_accepts(#[trigger] q[i], parts[i]) by {}
}

/// In a table without conflicts, a request that a route serves resolves to
/// that route, wherever in the table the route stands.
pub proof fn lemma_resolves_to_serving_route(
    routes: Seq<RouteView>,
    i: int,
    method: HttpMethod,
    path: Seq<char>,
)
    requires
        unambiguous(routes),
        0 <= i < routes.len(),
        routes[i].method == method,
        pattern_matches(routes[i].pattern, components(path)),
    ensures
        lookup(routes, method, path) == Some(
            (routes[i].handler, bindings(routes[i].pattern, components(path))),
        ),
{
    let parts = components(path);
    lemma_first_match(routes, method, parts);
    let k = first_match(routes, method, parts)->0;
    if k != i {
        lemma_common_match_overlaps(routes[k].pattern, routes[i].pattern, parts);
        lemma_common_match_overlaps(routes[i].pattern, routes[k].pattern, parts);
    }
}

/// Two tables without conflicts that hold the same routes resolve every
/// request alike, in whatever order the routes were registered.
pub proof fn lemma_order_does_not_matter(
    a: Seq<RouteView>,
    b: Seq<RouteView>,
    method: HttpMethod,
    path: Seq<char>,
)
    requires
        unambiguous(a),
        unambiguous(b),
        forall|i: int| 0 <= i < a.len() ==> b.contains(#[trigger] a[i]),
        forall|i: int| 0 <= i < b.len() ==> a.contains(#[trigger] b[i]),
    ensures
        lookup(a, method, path) == lookup(b, method, path),
{
    let parts = components(path);
    lemma_first_match(a, method, parts);
    lemma_first_match(b, method, parts);
    match first_match(a, method, parts) {
        Some(i) => {
            let k = choose|k: int| 0 <= k < b.len() && b[k] == a[i];
            lemma_resolves_to_serving_route(b, k, method, path);
        },
        None => {},
    }
}

/// The routes of a service. No two of them serve the same request, so the
/// order in which they were registered decides nothing.
#[derive(Clone, Debug, PartialEq, Eq)]
pub struct RouteTable {
    routes: Vec<Route>,
}

impl View for RouteTable {
    type V = Seq<RouteView>;

    closed spec fn view(&self) -> Seq<RouteView> {
        Seq::new(self.routes@.len(), |i: int| self.routes@[i]@)
    }
}

impl RouteTable {
    /// A table without routes.
    pub fn new() -> (table: RouteTable)
        ensures
            table@ == Seq::<RouteView>::empty(),
    {
        RouteTable { routes: Vec::new() }
    }

    /// The number of routes.
    pub fn len(&self) -> (n: usize)
        ensures
            n == self@.len(),
    {
        self.routes.len()
    }

    /// Adds a route, unless the table holds one that conflicts with it.
    pub fn register(&mut self, method: HttpMethod, pattern: PathPattern, handler: Handler) -> (outcome:
        Result<(), RegisterError>)
        ensures
            outcome is Ok <==> !holds_conflict(
                old(self)@,
                RouteView { method, pattern: pattern@, handler },
            ),
            outcome is Ok ==> final(self)@ == old(self)@.push(
                RouteView { method, pattern: pattern@, handler },
            ),
            outcome is Err ==> final(self)@ == old(self)@,
            outcome == Err::<(), RegisterError>(RegisterError::DuplicateRoute) <==> holds_identical(
                old(self)@,
                RouteView { method, pattern: pattern@, handler },
            ),
            outcome == Err::<(), RegisterError>(RegisterError::AmbiguousRoute) <==> {
                &&& !holds_identical(old(self)@, RouteView { method, pattern: pattern@, handler })
                &&& holds_conflict(old(self)@, RouteView { method, pattern: pattern@, handler })
            },
            unambiguous(old(self)@) ==> unambiguous(final(self)@),
    {
        let ghost added = RouteView { method, pattern: pattern@, handler };
        let ghost before = self@;
        let mut same: bool = false;
        let mut clash: bool = false;
        let mut i: usize = 0;
        while i < self.routes.len()
            invariant
                i <= self.routes@.len(),
                self@ == before,
                added == (RouteView { method, pattern: pattern@, handler }),
                same <==> holds_identical(before.subrange(0, i as int), added),
                clash <==> holds_conflict(before.subrange(0, i as int), added),
            decreases self.routes@.len() - i,
        {
            let route = &self.routes[i];
            let ghost seen = before.subrange(0, i as int);
            let ghost more = before.subrange(0, i + 1);
            assert(more[i as int] == before[i as int]);
            assert forall|j: int| 0 <= j < i implies seen[j] == more[j] by {}
            let same_method = route.method == method;
            let same_here = same_method && route.pattern.same_as(&pattern);
            let clash_here = same_method && route.pattern.overlaps(&pattern);
            same = same || same_here;
            clash = clash || clash_here;
            i = i + 1;
        }
        assert(before.subrange(0, i as int) =~= before);
        if same {
            Err(RegisterError::DuplicateRoute)
        } else if clash {
            Err(RegisterError::AmbiguousRoute)
        } else {
            self.routes.push(Route { method, pattern, handler });
            assert(self@ =~= before.push(added));
            proof {
                if unambiguous(before) {
                    assert forall|a: int, b: int| 0 <= a < b < self@.len() implies !conflict(
                        #[trigger] self@[a],
                        #[trigger] self@[b],
                    ) by {}
                }
            }
            Ok(())
        }
    }

    /// Resolves a method and a path to the handler of the route that serves
    /// them, and to what the variables of its pattern are bound to.
    pub fn resolve(&self, method: HttpMethod, path: &str) -> (found: Option<
        (Handler, Vec<(String, String)>),
    >)
        ensures
            found is Some <==> lookup(self@, method, path@) is Some,
            found is Some ==> {
                &&& (found->0).0 == (lookup(self@, method, path@)->0).0
                &&& pairs_view((found->0).1@) == (lookup(self@, method, path@)->0).1
            },
    {
        let parts = split_path(path);
        let ghost wanted = components(path@);
        proof {
            lemma_first_match(self@, method, wanted);
        }
        let mut i: usize = 0;
        while i < self.routes.len()
            invariant
                i <= self.routes@.len(),
                wanted == components(path@),
                texts(parts@) == wanted,
                forall|j: int| 0 <= j < i ==> !route_accepts(#[trigger] self@[j], method, wanted),
            decreases self.routes@.len() - i,
        {
            let route = &self.routes[i];
            assert(route@ == self@[i as int]);
            if route.method == method {
                match route.pattern.capture(&parts) {
                    Some(bound) => {
                        proof {
                            lemma_first_match(self@, method, wanted);
                        }
                        return Some((route.handler, bound));
                    },
                    None => {},
                }
            }
            i = i + 1;
        }
        None
    }
}

} // verus!
