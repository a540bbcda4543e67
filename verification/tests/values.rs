use request_pipeline::decimal::{format_i32, parse_i32};
use request_pipeline::dispatch::{find_bound, prepare};
use request_pipeline::error::{map_error, TypedError};
use request_pipeline::handler::{
    invoke, login_handler, ping_handler, profile_handler, sample_handler, Handler, Invocation,
};
use request_pipeline::headers::Headers;
use request_pipeline::http::Response;
use request_pipeline::query::Query;
use request_pipeline::json::message_document;
use request_pipeline::model::{RequestData, ResponseData};
use request_pipeline::params::{integer_from, path_integer};

fn bad_path() -> TypedError {
    TypedError::BadRequest("invalid path parameter: expected a 32-bit integer".to_string())
}

#[test]
fn integers_are_read_from_decimal_text() {
    assert_eq!(parse_i32("0"), Some(0));
    assert_eq!(parse_i32("42"), Some(42));
    assert_eq!(parse_i32("+42"), Some(42));
    assert_eq!(parse_i32("-42"), Some(-42));
    assert_eq!(parse_i32("-0"), Some(0));
    assert_eq!(parse_i32("007"), Some(7));
    assert_eq!(parse_i32("2147483647"), Some(i32::MAX));
    assert_eq!(parse_i32("-2147483648"), Some(i32::MIN));
    assert_eq!(parse_i32("00000000000000000000002147483647"), Some(i32::MAX));
    assert_eq!(parse_i32("2147483648"), None);
    assert_eq!(parse_i32("-2147483649"), None);
    assert_eq!(parse_i32("99999999999999999999999"), None);
    assert_eq!(parse_i32(""), None);
    assert_eq!(parse_i32("+"), None);
    assert_eq!(parse_i32("-"), None);
    assert_eq!(parse_i32("--1"), None);
    assert_eq!(parse_i32("+-1"), None);
    assert_eq!(parse_i32(" 1"), None);
    assert_eq!(parse_i32("1 "), None);
    assert_eq!(parse_i32("1_000"), None);
    assert_eq!(parse_i32("12a"), None);
    assert_eq!(parse_i32("abc"), None);
    assert_eq!(parse_i32("\u{663}"), None);
}

#[test]
fn integers_are_read_as_std_reads_them() {
    let texts = ["0", "-0", "+0", "17", "-17", "+17", "0017", "2147483647", "2147483648",
        "-2147483648", "-2147483649", "", "+", "-", "1e3", "0x10", "4 2", "\u{ff11}"];
    for text in texts {
        assert_eq!(parse_i32(text), text.parse::<i32>().ok(), "{text:?}");
    }
}

#[test]
fn integers_are_written_as_decimal_text() {
    assert_eq!(format_i32(0), "0");
    assert_eq!(format_i32(7), "7");
    assert_eq!(format_i32(10), "10");
    assert_eq!(format_i32(42), "42");
    assert_eq!(format_i32(-1), "-1");
    assert_eq!(format_i32(-120), "-120");
    assert_eq!(format_i32(1000000), "1000000");
    assert_eq!(format_i32(i32::MAX), "2147483647");
    assert_eq!(format_i32(i32::MIN), "-2147483648");
}

#[test]
fn written_integers_read_back() {
    for value in [0, 1, -1, 9, 10, 11, 99, 100, 101, -999, 123456789, i32::MAX, i32::MIN] {
        assert_eq!(parse_i32(&format_i32(value)), Some(value));
        assert_eq!(format_i32(value), value.to_string());
    }
}

#[test]
fn path_integers_are_percent_decoded_first() {
    assert_eq!(path_integer("42"), Ok(42));
    assert_eq!(path_integer("%34%32"), Ok(42));
    assert_eq!(path_integer("%2D7"), Ok(-7));
    assert_eq!(path_integer("%2b7"), Ok(7));
    assert_eq!(path_integer("4%"), Err(bad_path()));
    assert_eq!(path_integer("%zz"), Err(bad_path()));
    assert_eq!(path_integer("%ff"), Err(bad_path()));
    assert_eq!(path_integer("abc"), Err(bad_path()));
    assert_eq!(path_integer(""), Err(bad_path()));
    assert_eq!(integer_from(Some("12")), Ok(12));
    assert_eq!(integer_from(Some("x")), Err(bad_path()));
    assert_eq!(integer_from(None), Err(bad_path()));
}

#[test]
fn query_strings_are_decoded_and_the_last_value_wins() {
    let query = Query::parse("query=Q&page=2&query=R");
    assert_eq!(query.get("query"), Some("R"));
    assert_eq!(query.get("page"), Some("2"));
    assert_eq!(query.get("missing"), None);
    let decoded = Query::parse("a+b=c%20d&e=%E2%9C%93&flag&=x&&k=v=w");
    assert_eq!(decoded.get("a b"), Some("c d"));
    assert_eq!(decoded.get("e"), Some("\u{2713}"));
    assert_eq!(decoded.get("flag"), Some(""));
    assert_eq!(decoded.get(""), Some("x"));
    assert_eq!(decoded.get("k"), Some("v=w"));
    assert_eq!(decoded.get("a+b"), None);
    assert_eq!(Query::parse("").get("query"), None);
}

#[test]
fn queries_map_each_key_to_its_last_value() {
    let mut query = Query::new();
    assert_eq!(query.get("k"), None);
    query.insert("k", "1");
    query.insert("other", "x");
    query.insert("k", "2");
    assert_eq!(query.get("k"), Some("2"));
    assert_eq!(query.get("other"), Some("x"));
    let pairs = vec![
        ("a".to_string(), "1".to_string()),
        ("b".to_string(), "2".to_string()),
        ("a".to_string(), "3".to_string()),
    ];
    let listed = Query::from_pairs(pairs);
    assert_eq!(listed.get("a"), Some("3"));
    assert_eq!(listed.get("b"), Some("2"));
}

#[test]
fn headers_keep_their_lines_in_order() {
    let mut headers = Headers::new();
    assert_eq!(headers.len(), 0);
    assert!(!headers.contains("accept"));
    headers.append("accept", "text/html");
    headers.append("host", "example.org");
    headers.append("accept", "application/json");
    assert_eq!(headers.len(), 3);
    assert!(headers.contains("accept"));
    assert!(!headers.contains("Accept"));
    assert_eq!(
        headers.values("accept"),
        vec!["text/html".to_string(), "application/json".to_string()]
    );
    assert_eq!(headers.values("cookie"), Vec::<String>::new());
    assert_eq!(headers.entry(1), Some(("host", "example.org")));
    assert_eq!(headers.entry(3), None);
    assert_eq!(headers.duplicate(), headers);
}

#[test]
fn message_documents_are_json() {
    assert_eq!(message_document("hello"), br#"{"message":"hello"}"#.to_vec());
    assert_eq!(message_document(""), br#"{"message":""}"#.to_vec());
    assert_eq!(message_document("a\"b\\c"), br#"{"message":"a\"b\\c"}"#.to_vec());
    assert_eq!(
        message_document("\u{8}\t\n\u{c}\r"),
        br#"{"message":"\b\t\n\f\r"}"#.to_vec()
    );
    assert_eq!(
        message_document("\u{0}\u{1}\u{b}\u{e}\u{1f}"),
        br#"{"message":"\u0000\u0001\u000b\u000e\u001f"}"#.to_vec()
    );
    assert_eq!(
        message_document("/ \u{7f} \u{e9} \u{1f600}"),
        "{\"message\":\"/ \u{7f} \u{e9} \u{1f600}\"}".as_bytes().to_vec()
    );
}

#[test]
fn every_ascii_character_is_escaped_as_json_asks() {
    for code in 0u8..128 {
        let c = char::from(code);
        let escaped = match code {
            b'"' => "\\\"".to_string(),
            b'\\' => "\\\\".to_string(),
            8 => "\\b".to_string(),
            9 => "\\t".to_string(),
            10 => "\\n".to_string(),
            12 => "\\f".to_string(),
            13 => "\\r".to_string(),
            0..=31 => format!("\\u{:04x}", code),
            _ => c.to_string(),
        };
        let text = format!("a{c}z");
        let expected = format!("{{\"message\":\"a{escaped}z\"}}");
        assert_eq!(message_document(&text), expected.into_bytes(), "{code}");
    }
}

#[test]
fn message_documents_read_back_with_a_json_reader() {
    for text in ["plain", "quote \" backslash \\ slash /", "\u{0}\u{1f}\u{20}", "tab\tline\n", "\u{2028}\u{fffd}"] {
        let value: serde_json::Value =
            serde_json::from_slice(&message_document(text)).expect("a JSON document");
        assert_eq!(value.get("message").and_then(|m| m.as_str()), Some(text));
        assert_eq!(value.as_object().map(|object| object.len()), Some(1));
    }
}

#[test]
fn failures_map_to_their_status_codes() {
    let cases = [
        (TypedError::BadRequest("bad".to_string()), 400, "bad"),
        (TypedError::NotFound("gone".to_string()), 404, "gone"),
        (TypedError::PayloadTooLarge("big".to_string()), 413, "big"),
        (TypedError::Internal("stack trace at 0xdeadbeef".to_string()), 500, "Internal Server Error"),
    ];
    for (error, status, disclosed) in cases {
        assert_eq!(error.status_code(), status);
        let response = map_error(&error);
        assert_eq!(response.status, status);
        assert_eq!(response.body, message_document(disclosed));
        assert_eq!(response.headers.values("content-type"), vec!["application/json".to_string()]);
        assert_eq!(response, Response::message(status, disclosed));
    }
    assert_eq!(TypedError::Internal("detail".to_string()).message(), "detail");
    assert_eq!(TypedError::NotFound("gone".to_string()).message(), "gone");
}

#[test]
fn responses_are_built_from_their_parts() {
    let empty = Response::empty(204);
    assert_eq!(empty.status, 204);
    assert!(empty.body.is_empty());
    assert_eq!(empty.headers.len(), 0);
    let text = Response::text(200, "caf\u{e9}");
    assert_eq!(text.body, "caf\u{e9}".as_bytes().to_vec());
    assert_eq!(text.headers.entry(0), Some(("content-type", "text/plain; charset=utf-8")));
    let json = Response::json(201, &ResponseData { message: "made".to_string() });
    assert_eq!(json.status, 201);
    assert_eq!(json.body, br#"{"message":"made"}"#.to_vec());
    assert_eq!(json.headers.entry(0), Some(("content-type", "application/json")));
    assert_eq!(json.duplicate(), json);
}

#[test]
fn handlers_answer_as_documented() {
    assert_eq!(ping_handler(), Ok(Response::text(200, "pong")));
    assert_eq!(login_handler(), Ok(Response::empty(200)));
    assert_eq!(profile_handler(), Ok(Response::empty(200)));
    let body = RequestData { name: "A".to_string(), message: "B".to_string() };
    let reply = sample_handler(42, &Query::parse("query=Q"), &body).expect("an answer");
    assert_eq!(reply.status, 200);
    assert_eq!(
        reply.body,
        br#"{"message":"path: 42, query: Q, body: { name: A, message: B }"}"#.to_vec()
    );
    let silent = sample_handler(-5, &Query::parse("other=1"), &body).expect("an answer");
    assert_eq!(
        silent.body,
        br#"{"message":"path: -5, query: , body: { name: A, message: B }"}"#.to_vec()
    );
}

#[test]
fn invocations_run_their_handler() {
    let query = Query::new();
    assert_eq!(invoke(&Invocation::Ping, &query), ping_handler());
    assert_eq!(invoke(&Invocation::Login, &query), login_handler());
    assert_eq!(invoke(&Invocation::Profile, &query), profile_handler());
    let body = RequestData { name: "n".to_string(), message: "m".to_string() };
    let call = Invocation::Sample { path: 3, body: body.clone() };
    assert_eq!(call.handler(), Handler::Sample);
    assert_eq!(invoke(&call, &query), sample_handler(3, &query, &body));
    assert_eq!(Invocation::Ping.handler(), Handler::Ping);
}

#[test]
fn arguments_are_decoded_for_the_handler() {
    let body = RequestData { name: "n".to_string(), message: "m".to_string() };
    let bound = vec![("path".to_string(), "12".to_string())];
    assert_eq!(prepare(Handler::Ping, &bound, None), Ok(Invocation::Ping));
    assert_eq!(prepare(Handler::Login, &vec![], None), Ok(Invocation::Login));
    assert_eq!(prepare(Handler::Profile, &vec![], Some(body.clone())), Ok(Invocation::Profile));
    assert_eq!(
        prepare(Handler::Sample, &bound, Some(body.clone())),
        Ok(Invocation::Sample { path: 12, body: body.clone() })
    );
    assert_eq!(
        prepare(Handler::Sample, &bound, None),
        Err(TypedError::BadRequest("invalid request body".to_string()))
    );
    let wrong = vec![("path".to_string(), "twelve".to_string())];
    assert_eq!(prepare(Handler::Sample, &wrong, Some(body.clone())), Err(bad_path()));
    assert_eq!(prepare(Handler::Sample, &wrong, None), Err(bad_path()));
    assert_eq!(
        prepare(Handler::Sample, &vec![], Some(body)),
        Err(TypedError::Internal("the route binds no variable named path".to_string()))
    );
    let twice = vec![
        ("id".to_string(), "1".to_string()),
        ("path".to_string(), "2".to_string()),
        ("path".to_string(), "3".to_string()),
    ];
    assert_eq!(find_bound(&twice, "path"), Some("2"));
    assert_eq!(find_bound(&twice, "id"), Some("1"));
    assert_eq!(find_bound(&twice, "none"), None);
}
