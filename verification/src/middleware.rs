//! The middleware chain: wrappers that run around the handler, nested like
//! the layers of an onion.

use crate::error::{map_error, ErrorView, TypedError};
use crate::handler::{invoke, Handler, Invocation};
use crate::http::{Request, RequestView, Response, ResponseView};
use crate::text::carries;
use vstd::prelude::*;

verus! {

/// One wrapper of the chain.
#[derive(Clone, Debug, PartialEq, Eq)]
pub enum Wrapper {
    /// Looks at the request and at the response, and lets both pass.
    Observer,
    /// Lets a request pass only if it carries the header `header`; else
    /// answers with `refusal`, and nothing inside it runs.
    Guard { header: String, refusal: Response },
}

/// A wrapper, as contracts speak of it.
pub enum WrapperView {
    Observer,
    Guard { header: Seq<char>, refusal: ResponseView },
}

impl View for Wrapper {
    type V = WrapperView;

    open spec fn view(&self) -> WrapperView {
        match self {
            Wrapper::Observer => WrapperView::Observer,
            Wrapper::Guard { header, refusal } => WrapperView::Guard {
                header: header@,
                refusal: refusal@,
            },
        }
    }
}

impl WrapperView {
    /// The response with which the wrapper answers a request by itself, if
    /// it does not let the request pass.
    pub open spec fn refuses(self, request: RequestView) -> Option<ResponseView> {
        match self {
            WrapperView::Observer => None,
            WrapperView::Guard { header, refusal } => if carries(request.headers, header) {
                None
            } else {
                Some(refusal)
            },
        }
    }
}

/// What happened while a request was served, in order.
#[derive(Clone, Copy, Debug, PartialEq, Eq, Structural)]
pub enum Event {
    /// The pre-phase of the wrapper at this position ran.
    Pre(usize),
    /// The handler ran.
    Handler(Handler),
    /// The post-phase of the wrapper at this position ran.
    Post(usize),
}

/// Whether the handler ran.
pub open spec fn handler_ran(trace: Seq<Event>) -> bool {
    exists|i: int| 0 <= i < trace.len() && (#[trigger] trace[i]) is Handler
}

/// The number of wrappers, from the outermost inwards, that let the
/// request pass before one refuses it; the length of the chain where none
/// does.
pub open spec fn depth(chain: Seq<WrapperView>, request: RequestView) -> nat
    decreases chain.len(),
{
    if chain.len() == 0 || chain[0].refuses(request) is Some {
        0
    } else {
        1 + depth(chain.drop_first(), request)
    }
}

/// The pre-phases of the first `count` wrappers, outermost first.
pub open spec fn pre_events(count: nat) -> Seq<Event> {
    Seq::new(count, |i: int| Event::Pre(i as usize))
}

/// The post-phases of the first `count` wrappers, innermost first.
pub open spec fn post_events(count: nat) -> Seq<Event> {
    Seq::new(count, |i: int| Event::Post((count - 1 - i) as usize))
}

/// The events of one run of the chain around `handler`. Every wrapper that
/// lets the request pass runs its pre-phase before, and its post-phase
/// after, everything inside it. A wrapper that refuses the request runs
/// its pre-phase only, and neither the wrappers inside it nor the handler
/// run at all.
pub open spec fn chain_trace(chain: Seq<WrapperView>, request: RequestView, handler: Handler) -> Seq<
    Event,
> {
    let passed = depth(chain, request);
    if passed == chain.len() {
        pre_events(passed) + seq![Event::Handler(handler)] + post_events(passed)
    } else {
        pre_events(passed + 1) + post_events(passed)
    }
}

/// The response of one run of the chain: that of the first wrapper that
/// refuses the request, or `inner`, the response of the handler, where
/// none does.
pub open spec fn chain_response(
    chain: Seq<WrapperView>,
    request: RequestView,
    inner: ResponseView,
) -> ResponseView {
    let passed = depth(chain, request);
    if passed == chain.len() {
        inner
    } else {
        chain[passed as int].refuses(request)->0
    }
}

/// The response that a handler's result becomes: its own, or the one that
/// reports its failure.
pub open spec fn settled(reply: Result<ResponseView, ErrorView>) -> ResponseView {
    match reply {
        Ok(response) => response,
        Err(error) => error.response(),
    }
}

/// `depth` is the position of the first wrapper that refuses the request,
/// or the length of the chain where none does.
pub proof fn lemma_depth(chain: Seq<WrapperView>, request: RequestView, k: int)
    requires
        0 <= k <= chain.len(),
        forall|i: int| 0 <= i < k ==> (#[trigger] chain[i]).refuses(request) is None,
        k < chain.len() ==> chain[k].refuses(request) is Some,
    ensures
        depth(chain, request) == k,
    decreases chain.len(),
{
    if k > 0 {
        let rest = chain.drop_first();
        assert forall|i: int| 0 <= i < k - 1 implies (#[trigger] rest[i]).refuses(
            request,
        ) is None by {}
        lemma_depth(rest, request, k - 1);
    }
}

/// The events of a run are nested: around the middle of the trace, the
/// pre-phase of each wrapper that let the request pass is mirrored by its
/// post-phase, so the wrapper that ran first finishes last. In the middle
/// stands the handler, or the pre-phase of the wrapper that refused.
pub proof fn lemma_onion_nesting(chain: Seq<WrapperView>, request: RequestView, handler: Handler)
    ensures
        ({
            let trace = chain_trace(chain, request, handler);
            let passed = depth(chain, request) as int;
            &&& passed <= chain.len()
            &&& trace.len() == 2 * passed + 1
            &&& forall|i: int| 0 <= i < passed ==> trace[i] == Event::Pre(i as usize)
            &&& forall|j: int|
                passed < j <= 2 * passed ==> trace[j] == Event::Post((2 * passed - j) as usize)
            &&& trace[passed] == if passed == chain.len() {
                Event::Handler(handler)
            } else {
                Event::Pre(passed as usize)
            }
        }),
{
    lemma_depth_is_first(chain, request);
}

/// Observers change nothing: through a chain of observers, however long,
/// every request reaches the handler, and the handler's response comes
/// back as it is.
pub proof fn lemma_observers_are_transparent(
    chain: Seq<WrapperView>,
    request: RequestView,
    inner: ResponseView,
)
    requires
        forall|i: int| 0 <= i < chain.len() ==> (#[trigger] chain[i]) is Observer,
    ensures
        depth(chain, request) == chain.len(),
        chain_response(chain, request, inner) == inner,
{
    lemma_depth(chain, request, chain.len() as int);
}

/// The handler runs exactly when no wrapper refuses the request.
pub proof fn lemma_handler_runs_unless_refused(
    chain: Seq<WrapperView>,
    request: RequestView,
    handler: Handler,
)
    ensures
        handler_ran(chain_trace(chain, request, handler)) <==> depth(chain, request)
            == chain.len(),
{
    lemma_depth_is_first(chain, request);
    let trace = chain_trace(chain, request, handler);
    let passed = depth(chain, request) as int;
    if passed == chain.len() {
        assert(trace[passed] is Handler);
    } else {
        assert forall|i: int| 0 <= i < trace.len() implies !((#[trigger] trace[i]) is Handler) by {}
    }
}

/// What `depth` gives: a position that only wrappers which let the request
/// pass stand before, and that holds one which refuses it unless it is the
/// length of the chain.
pub proof fn lemma_depth_is_first(chain: Seq<WrapperView>, request: RequestView)
    ensures
        depth(chain, request) <= chain.len(),
        forall|i: int|
            0 <= i < depth(chain, request) ==> (#[trigger] chain[i]).refuses(request) is None,
        depth(chain, request) < chain.len() ==> chain[depth(chain, request) as int].refuses(
            request,
        ) is Some,
    decreases chain.len(),
{
    if chain.len() > 0 && chain[0].refuses(request) is None {
        let rest = chain.drop_first();
        lemma_depth_is_first(rest, request);
        assert forall|i: int| 0 <= i < depth(chain, request) implies (#[trigger] chain[i]).refuses(
            request,
        ) is None by {
            if i > 0 {
                assert(chain[i] == rest[i - 1]);
            }
        }
    }
}

/// A response together with the events that led to it.
#[derive(Clone, Debug, PartialEq, Eq)]
pub struct Exchange {
    pub response: Response,
    pub trace: Vec<Event>,
}

impl View for Exchange {
    type V = (ResponseView, Seq<Event>);

    open spec fn view(&self) -> (ResponseView, Seq<Event>) {
        (self.response@, self.trace@)
    }
}

impl Exchange {
    /// The exchange that ends before the chain was entered: the response
    /// that reports `error`, and no event.
    pub fn failure(error: &TypedError) -> (exchange: Exchange)
        ensures
            exchange@ == (error@.response(), Seq::<Event>::empty()),
    {
        Exchange { response: map_error(error), trace: Vec::new() }
    }
}

/// What the stages of one request share while it is served: the request,
/// borrowed as it came in, so that no stage copies the body, and the events
/// so far. A context is made when the chain is entered and given up for the
/// exchange when the chain is left.
#[derive(Debug)]
pub struct MiddlewareContext<'a> {
    request: &'a Request,
    events: Vec<Event>,
}

impl<'a> MiddlewareContext<'a> {
    /// The request that is served.
    pub closed spec fn request(&self) -> RequestView {
        self.request@
    }

    /// The events so far.
    pub closed spec fn events(&self) -> Seq<Event> {
        self.events@
    }

    /// The context of a request at the start, before any event.
    pub fn begin(request: &'a Request) -> (context: MiddlewareContext<'a>)
        ensures
            context.request() == request@,
            context.events() == Seq::<Event>::empty(),
    {
        MiddlewareContext { request, events: Vec::new() }
    }

    /// The request, as every stage is shown it.
    pub fn seen(&self) -> (request: &'a Request)
        ensures
            request@ == self.request(),
    {
        self.request
    }

    /// Adds an event behind those that are there.
    pub fn record(&mut self, event: Event)
        ensures
            final(self).request() == old(self).request(),
            final(self).events() == old(self).events().push(event),
    {
        self.events.push(event);
    }

    /// Ends the context: the response, with the events that led to it.
    pub fn finish(self, response: Response) -> (exchange: Exchange)
        ensures
            exchange@ == (response@, self.events()),
    {
        Exchange { response, trace: self.events }
    }
}

impl Wrapper {
    /// The pre-phase of the wrapper at `position`: it is recorded, and
    /// decides whether the request passes on to the next stage. `Some` is
    /// the wrapper's own response to a request that does not.
    pub fn pre(&self, position: usize, context: &mut MiddlewareContext) -> (refusal: Option<
        Response,
    >)
        ensures
            final(context).request() == old(context).request(),
            final(context).events() == old(context).events().push(Event::Pre(position)),
            match refusal {
                Some(response) => self@.refuses(old(context).request()) == Some(response@),
                None => self@.refuses(old(context).request()) is None,
            },
    {
        context.record(Event::Pre(position));
        match self {
            Wrapper::Observer => None,
            Wrapper::Guard { header, refusal } => {
                if context.seen().headers.contains(header.as_str()) {
                    None
                } else {
                    Some(refusal.duplicate())
                }
            },
        }
    }

    /// The post-phase of the wrapper at `position`: it is recorded once
    /// everything inside the wrapper has returned `response`, which the
    /// wrapper is shown and leaves as it is.
    pub fn post(&self, position: usize, context: &mut MiddlewareContext, response: &Response)
        ensures
            final(context).request() == old(context).request(),
            final(context).events() == old(context).events().push(Event::Post(position)),
    {
        context.record(Event::Post(position));
    }
}

/// The wrappers of a service, outermost first.
#[derive(Clone, Debug, PartialEq, Eq)]
pub struct MiddlewareChain {
    wrappers: Vec<Wrapper>,
}

impl View for MiddlewareChain {
    type V = Seq<WrapperView>;

    closed spec fn view(&self) -> Seq<WrapperView> {
        Seq::new(self.wrappers@.len(), |i: int| self.wrappers@[i]@)
    }
}

impl MiddlewareChain {
    /// A chain without wrappers.
    pub fn new() -> (chain: MiddlewareChain)
        ensures
            chain@ == Seq::<WrapperView>::empty(),
    {
        MiddlewareChain { wrappers: Vec::new() }
    }

    /// Adds a wrapper inside those that are there.
    pub fn push(&mut self, wrapper: Wrapper)
        ensures
            final(self)@ == old(self)@.push(wrapper@),
    {
        self.wrappers.push(wrapper);
    }

    /// The number of wrappers.
    pub fn len(&self) -> (n: usize)
        ensures
            n == self@.len(),
    {
        self.wrappers.len()
    }

    /// Runs the chain around one invocation: the pre-phases from the
    /// outermost wrapper inwards, the handler, and the post-phases back
    /// out. A failure of the handler is turned into the response that
    /// reports it before the post-phases see it.
    pub fn run(&self, request: &Request, call: &Invocation) -> (exchange: Exchange)
        ensures
            exchange@ == (
                chain_response(self@, request@, settled(call@.reply(request@.query))),
                chain_trace(self@, request@, call@.handler()),
            ),
    {
        let count: usize = self.wrappers.len();
        let mut context = MiddlewareContext::begin(request);
        let mut passed: usize = 0;
        let mut refusal: Option<Response> = None;
        while passed < count && refusal.is_none()
            invariant
                count == self@.len(),
                passed <= count,
                context.request() == request@,
                forall|i: int| 0 <= i < passed ==> (#[trigger] self@[i]).refuses(request@) is None,
                match refusal {
                    Some(response) => {
                        &&& passed < count
                        &&& self@[passed as int].refuses(request@) == Some(response@)
                        &&& context.events() == pre_events(passed as nat + 1)
                    },
                    None => context.events() == pre_events(passed as nat),
                },
            decreases count - passed + (if refusal is None { 1int } else { 0int }),
        {
            match self.wrappers[passed].pre(passed, &mut context) {
                Some(response) => {
                    refusal = Some(response);
                },
                None => {
                    passed = passed + 1;
                },
            }
        }
        proof {
            lemma_depth(self@, request@, passed as int);
        }
        let response = match refusal {
            Some(response) => response,
            None => {
                context.record(Event::Handler(call.handler()));
                match invoke(call, &request.query) {
                    Ok(response) => response,
                    Err(error) => map_error(&error),
                }
            },
        };
        let ghost entered = context.events();
        let mut left: usize = passed;
        while left > 0
            invariant
                left <= passed,
                passed <= self@.len(),
                context.events() == entered + post_events(passed as nat).subrange(
                    0,
                    passed - left,
                ),
            decreases left,
        {
            left = left - 1;
            self.wrappers[left].post(left, &mut context, &response);
        }
        assert(post_events(passed as nat).subrange(0, passed as int) =~= post_events(
            passed as nat,
        ));
        context.finish(response)
    }
}

} // verus!
