use request_pipeline::body::BodyBuffer;
use request_pipeline::dispatch::{Dispatcher, MAX_BODY_BYTES};
use request_pipeline::error::TypedError;
use request_pipeline::handler::Handler;
use request_pipeline::headers::Headers;
use request_pipeline::http::{HttpMethod, Request, Response};
use request_pipeline::query::Query;
use request_pipeline::middleware::{
    Event, Exchange, MiddlewareChain, MiddlewareContext, Wrapper,
};
use request_pipeline::model::RequestData;
use request_pipeline::pattern::PathPattern;
use request_pipeline::route::RouteTable;
use request_pipeline::service::{standard_chain, standard_table};

fn request(method: HttpMethod, path: &str, query: &str, body: &[u8]) -> Request {
    Request {
        method,
        path: path.to_string(),
        query: Query::parse(query),
        headers: Headers::new(),
        body: body.to_vec(),
    }
}

fn document(body: &[u8]) -> Option<RequestData> {
    let value: serde_json::Value = serde_json::from_slice(body).ok()?;
    let name = value.get("name")?.as_str()?.to_string();
    let message = value.get("message")?.as_str()?.to_string();
    Some(RequestData { name, message })
}

fn serve(dispatcher: &Dispatcher, request: &Request) -> Exchange {
    dispatcher.dispatch(request, document(&request.body))
}

fn content_type(response: &Response) -> Vec<String> {
    response.headers.values("content-type")
}

#[test]
fn ping_answers_pong() {
    let dispatcher = Dispatcher::standard();
    let exchange = serve(&dispatcher, &request(HttpMethod::Get, "/", "", b""));
    assert_eq!(exchange.response.status, 200);
    assert_eq!(exchange.response.body, b"pong".to_vec());
    assert_eq!(content_type(&exchange.response), vec!["text/plain; charset=utf-8".to_string()]);
    assert_eq!(
        exchange.trace,
        vec![Event::Pre(0), Event::Handler(Handler::Ping), Event::Post(0)]
    );
}

#[test]
fn ping_is_the_same_every_time() {
    let dispatcher = Dispatcher::standard();
    let before = dispatcher.clone();
    let incoming = request(HttpMethod::Get, "/", "", b"");
    let first = serve(&dispatcher, &incoming);
    for _ in 0..25 {
        let again = serve(&dispatcher, &incoming);
        assert_eq!(again, first);
        assert_eq!(again.response.status, 200);
        assert_eq!(again.response.body, b"pong".to_vec());
    }
    assert_eq!(dispatcher, before);
}

#[test]
fn login_and_profile_answer_with_an_empty_body() {
    let dispatcher = Dispatcher::standard();
    for method in [HttpMethod::Get, HttpMethod::Post] {
        for path in ["/login", "/profile", "/login/", "/profile/"] {
            let exchange = serve(&dispatcher, &request(method, path, "", b""));
            assert_eq!(exchange.response.status, 200);
            assert!(exchange.response.body.is_empty());
            assert_eq!(exchange.response.headers.len(), 0);
        }
    }
}

#[test]
fn sample_echoes_path_query_and_body() {
    let dispatcher = Dispatcher::standard();
    let incoming = request(
        HttpMethod::Post,
        "/sample/42",
        "query=Q",
        br#"{"name":"A","message":"B"}"#,
    );
    let exchange = serve(&dispatcher, &incoming);
    assert_eq!(exchange.response.status, 200);
    assert_eq!(
        exchange.response.body,
        br#"{"message":"path: 42, query: Q, body: { name: A, message: B }"}"#.to_vec()
    );
    assert_eq!(content_type(&exchange.response), vec!["application/json".to_string()]);
    assert_eq!(
        exchange.trace,
        vec![Event::Pre(0), Event::Handler(Handler::Sample), Event::Post(0)]
    );
}

#[test]
fn sample_without_query_substitutes_the_empty_text() {
    let dispatcher = Dispatcher::standard();
    let body = br#"{"name":"A","message":"B"}"#;
    let without = serve(&dispatcher, &request(HttpMethod::Post, "/sample/42", "", body));
    let with_empty = serve(&dispatcher, &request(HttpMethod::Post, "/sample/42", "query=", body));
    assert_eq!(without.response.status, 200);
    assert_eq!(
        without.response.body,
        br#"{"message":"path: 42, query: , body: { name: A, message: B }"}"#.to_vec()
    );
    assert_eq!(without, with_empty);
}

#[test]
fn sample_with_a_negative_path() {
    let dispatcher = Dispatcher::standard();
    let body = br#"{"name":"n","message":"m"}"#;
    let exchange = serve(&dispatcher, &request(HttpMethod::Post, "/sample/-2147483648", "", body));
    assert_eq!(exchange.response.status, 200);
    assert_eq!(
        exchange.response.body,
        br#"{"message":"path: -2147483648, query: , body: { name: n, message: m }"}"#.to_vec()
    );
}

#[test]
fn sample_reads_a_percent_encoded_path() {
    let dispatcher = Dispatcher::standard();
    let body = br#"{"name":"A","message":"B"}"#;
    let exchange = serve(&dispatcher, &request(HttpMethod::Post, "/sample/%34%32", "", body));
    assert_eq!(exchange.response.status, 200);
    assert_eq!(
        exchange.response.body,
        br#"{"message":"path: 42, query: , body: { name: A, message: B }"}"#.to_vec()
    );
}

#[test]
fn sample_escapes_what_it_echoes() {
    let dispatcher = Dispatcher::standard();
    let body = r#"{"name":"a\"b","message":"line\nbreak\\ \u0001 \u00e9"}"#.as_bytes();
    let exchange = serve(&dispatcher, &request(HttpMethod::Post, "/sample/7", "query=x%22y", body));
    assert_eq!(exchange.response.status, 200);
    let expected = "{\"message\":\"path: 7, query: x\\\"y, body: { name: a\\\"b, message: line\\nbreak\\\\ \\u0001 \u{e9} }\"}";
    assert_eq!(exchange.response.body, expected.as_bytes().to_vec());
}

#[test]
fn sample_with_a_path_that_is_no_integer_is_a_bad_request() {
    let dispatcher = Dispatcher::standard();
    let body = br#"{"name":"A","message":"B"}"#;
    for path in ["/sample/abc", "/sample/4x", "/sample/2147483648", "/sample/+", "/sample/%ff"] {
        let exchange = serve(&dispatcher, &request(HttpMethod::Post, path, "query=Q", body));
        assert_eq!(exchange.response.status, 400, "{path}");
        assert_eq!(
            exchange.response.body,
            br#"{"message":"invalid path parameter: expected a 32-bit integer"}"#.to_vec()
        );
        assert!(exchange.trace.is_empty());
    }
}

#[test]
fn sample_with_a_malformed_body_is_a_bad_request() {
    let dispatcher = Dispatcher::standard();
    for body in [&b""[..], &b"{"[..], &br#"{"name":"A"}"#[..], &br#"{"name":1,"message":"B"}"#[..]] {
        let exchange = serve(&dispatcher, &request(HttpMethod::Post, "/sample/42", "", body));
        assert_eq!(exchange.response.status, 400);
        assert_eq!(exchange.response.body, br#"{"message":"invalid request body"}"#.to_vec());
        assert_eq!(content_type(&exchange.response), vec!["application/json".to_string()]);
        assert!(exchange.trace.is_empty());
    }
}

#[test]
fn unmatched_requests_are_not_found_and_run_nothing() {
    let dispatcher = Dispatcher::standard();
    let cases = [
        (HttpMethod::Get, "/missing"),
        (HttpMethod::Post, "/"),
        (HttpMethod::Get, "/sample/42"),
        (HttpMethod::Post, "/sample"),
        (HttpMethod::Post, "/sample/42/extra"),
        (HttpMethod::Post, "/Sample/42"),
        (HttpMethod::Delete, "/login"),
        (HttpMethod::Get, "//"),
    ];
    for (method, path) in cases {
        let body = br#"{"name":"A","message":"B"}"#;
        let exchange = serve(&dispatcher, &request(method, path, "", body));
        assert_eq!(exchange.response.status, 404, "{path}");
        assert_eq!(
            exchange.response.body,
            br#"{"message":"no route matches the request"}"#.to_vec()
        );
        assert!(exchange.trace.is_empty());
    }
}

#[test]
fn oversized_bodies_are_rejected_before_the_handler() {
    let dispatcher = Dispatcher::new(standard_table(), standard_chain(), 8);
    let exchange = serve(&dispatcher, &request(HttpMethod::Get, "/", "", b"123456789"));
    assert_eq!(exchange.response.status, 413);
    assert_eq!(
        exchange.response.body,
        br#"{"message":"request body exceeds the size limit"}"#.to_vec()
    );
    assert!(exchange.trace.is_empty());
    let at_limit = serve(&dispatcher, &request(HttpMethod::Get, "/", "", b"12345678"));
    assert_eq!(at_limit.response.status, 200);
    let unmatched = serve(&dispatcher, &request(HttpMethod::Get, "/nowhere", "", b"123456789"));
    assert_eq!(unmatched.response.status, 404);
}

#[test]
fn the_standard_limit_is_one_hundred_mebibytes() {
    assert_eq!(MAX_BODY_BYTES, 100 * 1024 * 1024);
    assert_eq!(Dispatcher::standard().max_body, MAX_BODY_BYTES);
}

#[test]
fn wrappers_nest_like_an_onion() {
    let mut chain = MiddlewareChain::new();
    chain.push(Wrapper::Observer);
    chain.push(Wrapper::Observer);
    let dispatcher = Dispatcher::new(standard_table(), chain, MAX_BODY_BYTES);
    let exchange = serve(&dispatcher, &request(HttpMethod::Get, "/", "", b""));
    assert_eq!(
        exchange.trace,
        vec![
            Event::Pre(0),
            Event::Pre(1),
            Event::Handler(Handler::Ping),
            Event::Post(1),
            Event::Post(0),
        ]
    );
    assert_eq!(exchange.response.body, b"pong".to_vec());
}

#[test]
fn an_empty_chain_runs_the_handler_alone() {
    let dispatcher = Dispatcher::new(standard_table(), MiddlewareChain::new(), MAX_BODY_BYTES);
    let exchange = serve(&dispatcher, &request(HttpMethod::Get, "/", "", b""));
    assert_eq!(exchange.trace, vec![Event::Handler(Handler::Ping)]);
}

#[test]
fn a_guard_that_refuses_keeps_the_handler_from_running() {
    let refusal = Response::message(401, "missing credentials");
    let mut chain = MiddlewareChain::new();
    chain.push(Wrapper::Observer);
    chain.push(Wrapper::Guard { header: "authorization".to_string(), refusal: refusal.clone() });
    chain.push(Wrapper::Observer);
    assert_eq!(chain.len(), 3);
    let dispatcher = Dispatcher::new(standard_table(), chain, MAX_BODY_BYTES);

    let refused = serve(&dispatcher, &request(HttpMethod::Get, "/", "", b""));
    assert_eq!(refused.response, refusal);
    assert_eq!(refused.trace, vec![Event::Pre(0), Event::Pre(1), Event::Post(0)]);

    let mut admitted = request(HttpMethod::Get, "/", "", b"");
    admitted.headers.append("authorization", "Bearer token");
    let passed = serve(&dispatcher, &admitted);
    assert_eq!(passed.response.status, 200);
    assert_eq!(
        passed.trace,
        vec![
            Event::Pre(0),
            Event::Pre(1),
            Event::Pre(2),
            Event::Handler(Handler::Ping),
            Event::Post(2),
            Event::Post(1),
            Event::Post(0),
        ]
    );
}

#[test]
fn a_context_shows_every_stage_the_same_request() {
    let incoming = request(HttpMethod::Get, "/", "", b"some body");
    let refusal = Response::message(401, "missing credentials");
    let guard = Wrapper::Guard { header: "authorization".to_string(), refusal: refusal.clone() };
    let mut context = MiddlewareContext::begin(&incoming);
    assert!(std::ptr::eq(context.seen(), &incoming));
    assert_eq!(Wrapper::Observer.pre(0, &mut context), None);
    assert_eq!(guard.pre(1, &mut context), Some(refusal.clone()));
    assert!(std::ptr::eq(context.seen().body.as_ptr(), incoming.body.as_ptr()));
    Wrapper::Observer.post(0, &mut context, &refusal);
    let exchange = context.finish(refusal.clone());
    assert_eq!(exchange.response, refusal);
    assert_eq!(exchange.trace, vec![Event::Pre(0), Event::Pre(1), Event::Post(0)]);

    let mut admitted = request(HttpMethod::Get, "/", "", b"");
    admitted.headers.append("authorization", "Bearer token");
    let mut context = MiddlewareContext::begin(&admitted);
    assert_eq!(guard.pre(0, &mut context), None);
    guard.post(0, &mut context, &refusal);
    assert_eq!(context.finish(refusal).trace, vec![Event::Pre(0), Event::Post(0)]);
}

struct OnceSource {
    chunks: Vec<Vec<u8>>,
    reads: usize,
}

impl OnceSource {
    fn read(&mut self) -> Result<Vec<Vec<u8>>, String> {
        self.reads += 1;
        if self.reads > 1 {
            return Err("the body was read before".to_string());
        }
        Ok(std::mem::take(&mut self.chunks))
    }
}

#[test]
fn the_body_is_read_once_however_many_wrappers_look_at_it() {
    let text = br#"{"name":"A","message":"B"}"#;
    let mut source = OnceSource { chunks: text.chunks(5).map(|c| c.to_vec()).collect(), reads: 0 };
    let mut buffer = BodyBuffer::new(MAX_BODY_BYTES);
    for chunk in source.read().expect("first read") {
        buffer.push(&chunk).expect("within the limit");
    }
    let body = buffer.finish().expect("within the limit");
    assert_eq!(body, text.to_vec());

    let mut chain = MiddlewareChain::new();
    for _ in 0..5 {
        chain.push(Wrapper::Observer);
    }
    let dispatcher = Dispatcher::new(standard_table(), chain, MAX_BODY_BYTES);
    let exchange = serve(&dispatcher, &request(HttpMethod::Post, "/sample/1", "", &body));
    assert_eq!(exchange.response.status, 200);
    assert_eq!(exchange.trace.len(), 11);
    assert_eq!(source.reads, 1);
    assert!(source.read().is_err());
}

#[test]
fn a_buffer_turns_away_what_goes_over_its_limit() {
    let mut buffer = BodyBuffer::new(4);
    assert!(buffer.push(b"ab").is_ok());
    assert!(buffer.push(b"cd").is_ok());
    assert_eq!(buffer.len(), 4);
    let error = buffer.push(b"e").expect_err("over the limit");
    assert_eq!(
        error,
        TypedError::PayloadTooLarge("request body exceeds the size limit".to_string())
    );
    assert_eq!(buffer.len(), 0);
    assert!(buffer.push(b"").is_err());
    assert!(buffer.finish().is_err());

    let mut exact = BodyBuffer::new(3);
    assert!(exact.push(b"").is_ok());
    assert!(exact.push(b"abc").is_ok());
    assert_eq!(exact.finish(), Ok(b"abc".to_vec()));

    let mut none = BodyBuffer::new(0);
    assert!(none.push(b"").is_ok());
    assert!(none.push(b"x").is_err());
}

#[test]
fn a_body_is_stored_whole_wherever_its_chunks_are_cut() {
    let body: Vec<u8> = (0..=40).collect();
    for limit in [0usize, 1, 39, 40, 41, 42, 100] {
        for size in [1usize, 2, 3, 7, 41, 64] {
            let mut buffer = BodyBuffer::new(limit);
            let mut refused = false;
            for chunk in body.chunks(size) {
                refused = buffer.push(chunk).is_err() || refused;
            }
            assert_eq!(refused, body.len() > limit);
            if refused {
                assert!(buffer.finish().is_err());
            } else {
                assert_eq!(buffer.finish(), Ok(body.clone()));
            }
        }
    }
}

#[test]
fn intake_answers_unmatched_requests_at_once() {
    let dispatcher = Dispatcher::new(standard_table(), standard_chain(), 16);
    let refused = dispatcher.intake(HttpMethod::Get, "/nowhere").expect_err("no route");
    assert_eq!(refused.response.status, 404);
    assert!(refused.trace.is_empty());
    assert_eq!(
        refused,
        serve(&dispatcher, &request(HttpMethod::Get, "/nowhere", "", b""))
    );
    let mut buffer = dispatcher.intake(HttpMethod::Post, "/sample/1").expect("a route");
    assert_eq!(buffer.len(), 0);
    assert!(buffer.push(&[0u8; 16]).is_ok());
    let error = buffer.push(&[0u8; 1]).expect_err("over the limit");
    let rejected = Exchange::failure(&error);
    assert_eq!(rejected.response.status, 413);
    assert_eq!(
        rejected,
        serve(&dispatcher, &request(HttpMethod::Post, "/sample/1", "", &[0u8; 17]))
    );
}

#[test]
fn a_dispatcher_says_which_requests_need_the_document() {
    let dispatcher = Dispatcher::standard();
    assert!(dispatcher.expects_document(HttpMethod::Post, "/sample/1"));
    assert!(dispatcher.expects_document(HttpMethod::Post, "/sample/abc"));
    assert!(!dispatcher.expects_document(HttpMethod::Get, "/"));
    assert!(!dispatcher.expects_document(HttpMethod::Get, "/sample/1"));
    assert!(!dispatcher.expects_document(HttpMethod::Post, "/nowhere"));
}

#[test]
fn a_sample_route_without_a_path_variable_is_an_internal_failure() {
    let mut table = RouteTable::new();
    table
        .register(HttpMethod::Post, PathPattern::parse("/echo/:id"), Handler::Sample)
        .expect("no conflict");
    let dispatcher = Dispatcher::new(table, MiddlewareChain::new(), MAX_BODY_BYTES);
    let body = br#"{"name":"A","message":"B"}"#;
    let exchange = serve(&dispatcher, &request(HttpMethod::Post, "/echo/5", "", body));
    assert_eq!(exchange.response.status, 500);
    assert_eq!(exchange.response.body, br#"{"message":"Internal Server Error"}"#.to_vec());
    assert!(exchange.trace.is_empty());
}
