use apicore::api_server::{
    server_handler, setup_server_state, ApiHttpServer, ApiServerConfig, ApiServerConnectionHandler,
    ApiServerRequestHandler, ApiServerState, Lifecycle, DEFAULT_REQUEST_BODY_MAX_BYTES,
};
use apicore::request::{complete_request, request_id, Invocation, PendingRequest};
use apicore::body::{BodyDrain, BodyReader};
use apicore::error::{HttpError, HttpErrorResponseBody};
use apicore::response::HttpResponse;
use apicore::router::{split_path, Method, Operation, RouteError, RouteTable};
use hyper::body::HttpBody;
use std::sync::Arc;

fn widgets(cap: usize) -> ApiServerRequestHandler<()> {
    let state = Arc::new(ApiServerState {
        backend: Arc::new(()),
        config: ApiServerConfig { request_body_max_bytes: cap },
        routes: RouteTable::new("widgets".to_string()),
    });
    server_handler(state).accept()
}

fn run(pending: PendingRequest, chunks: &[&[u8]]) -> Result<Invocation, HttpError> {
    let mut pending = pending;
    for chunk in chunks {
        pending.accept(chunk);
    }
    pending.conclude()
}

fn status_of(r: Result<Invocation, HttpError>) -> u16 {
    match r {
        Ok(_) => 200,
        Err(e) => e.status_code(),
    }
}

fn pretty(message: &str, request_id: &str) -> String {
    let mut object = serde_json::Map::new();
    object.insert("message".to_string(), serde_json::Value::String(message.to_string()));
    object.insert("request_id".to_string(), serde_json::Value::String(request_id.to_string()));
    serde_json::to_string_pretty(&serde_json::Value::Object(object)).unwrap()
}

#[test]
fn split_path_drops_empty_segments() {
    let none: Vec<String> = Vec::new();
    assert_eq!(split_path(""), none);
    assert_eq!(split_path("/"), none);
    assert_eq!(split_path("///"), none);
    assert_eq!(split_path("/widgets"), vec!["widgets"]);
    assert_eq!(split_path("widgets"), vec!["widgets"]);
    assert_eq!(split_path("/widgets/"), vec!["widgets"]);
    assert_eq!(split_path("//widgets//a/"), vec!["widgets", "a"]);
    assert_eq!(split_path("/widgets/a/b"), vec!["widgets", "a", "b"]);
    assert_eq!(split_path("/w\u{e9}dgets/\u{1f600}"), vec!["w\u{e9}dgets", "\u{1f600}"]);
}

#[test]
fn method_names_are_matched_with_case() {
    assert_eq!(Method::from_name("GET"), Method::Get);
    assert_eq!(Method::from_name("POST"), Method::Post);
    assert_eq!(Method::from_name("PUT"), Method::Put);
    assert_eq!(Method::from_name("DELETE"), Method::Delete);
    assert_eq!(Method::from_name("HEAD"), Method::Other);
    assert_eq!(Method::from_name("get"), Method::Other);
    assert_eq!(Method::from_name(""), Method::Other);
    assert_eq!(Method::from_name("GETS"), Method::Other);
}

#[test]
fn route_table_knows_two_shapes() {
    let table = RouteTable::new("widgets".to_string());
    assert_eq!(table.collection_name(), "widgets");
    assert_eq!(table.route(Method::Get, "/widgets"), Ok(Operation::ListItems));
    assert_eq!(table.route(Method::Post, "/widgets"), Ok(Operation::CreateItem));
    assert_eq!(table.route(Method::Post, "/widgets/"), Ok(Operation::CreateItem));
    assert_eq!(
        table.route(Method::Get, "/widgets/a"),
        Ok(Operation::GetItem { id: "a".to_string() })
    );
    assert_eq!(
        table.route(Method::Put, "/widgets/a"),
        Ok(Operation::UpdateItem { id: "a".to_string() })
    );
    assert_eq!(
        table.route(Method::Delete, "//widgets//a"),
        Ok(Operation::DeleteItem { id: "a".to_string() })
    );
    assert_eq!(table.route(Method::Put, "/widgets"), Err(RouteError::MethodNotSupported));
    assert_eq!(table.route(Method::Delete, "/widgets"), Err(RouteError::MethodNotSupported));
    assert_eq!(table.route(Method::Other, "/widgets"), Err(RouteError::MethodNotSupported));
    assert_eq!(table.route(Method::Post, "/widgets/a"), Err(RouteError::MethodNotSupported));
    assert_eq!(table.route(Method::Other, "/widgets/a"), Err(RouteError::MethodNotSupported));
}

#[test]
fn unknown_paths_are_not_found_whatever_the_method() {
    let handler = widgets(16);
    for method in [Method::Get, Method::Post, Method::Put, Method::Delete, Method::Other] {
        for path in ["", "/", "/nonexistent", "/widget", "/widgetsx", "/x/widgets", "/widgets/a/b"] {
            for body in [&b""[..], &b"{}"[..], &[7u8; 100][..]] {
                let e = run(handler.begin(method, path), &[body]).unwrap_err();
                assert_eq!(e.status_code(), 404);
                assert_eq!(e.external_message(), "Not Found");
                assert_eq!(e.internal_message(), "Not Found");
            }
        }
    }
}

#[test]
fn unsupported_methods_are_not_allowed() {
    let handler = widgets(16);
    let cases = [
        (Method::Put, "/widgets"),
        (Method::Delete, "/widgets"),
        (Method::Other, "/widgets"),
        (Method::Post, "/widgets/a"),
        (Method::Other, "/widgets/a"),
    ];
    for (method, path) in cases {
        for body in [&b""[..], &b"x"[..], &[7u8; 100][..]] {
            let e = run(handler.begin(method, path), &[body]).unwrap_err();
            assert_eq!(e.status_code(), 405);
            assert_eq!(e.external_message(), "Method Not Allowed");
        }
    }
}

#[test]
fn forbidden_body_is_a_bad_request() {
    let handler = widgets(16);
    for (method, path) in [(Method::Get, "/widgets"), (Method::Get, "/widgets/a"), (Method::Delete, "/widgets/a")] {
        let e = run(handler.begin(method, path), &[b"", b"x"]).unwrap_err();
        assert_eq!(e.status_code(), 400);
        assert_eq!(e.external_message(), "expected empty body");
        let call = run(handler.begin(method, path), &[b"", b""]).unwrap();
        assert!(call.body.is_empty());
    }
    let call = run(handler.begin(Method::Delete, "/widgets/a"), &[]).unwrap();
    assert_eq!(call.operation, Operation::DeleteItem { id: "a".to_string() });
}

#[test]
fn body_over_cap_is_a_bad_request_that_names_the_cap() {
    let handler = widgets(1024);
    let big = [b'a'; 1025];
    let e = run(handler.begin(Method::Post, "/widgets"), &[&big]).unwrap_err();
    assert_eq!(e.status_code(), 400);
    assert_eq!(e.external_message(), "request body exceeded maximum size of 1024 bytes");
    assert_eq!(e.internal_message(), "request body exceeded maximum size of 1024 bytes");
    let e = run(handler.begin(Method::Put, "/widgets/a"), &[&big[..1000], &big[..25], b"later"])
        .unwrap_err();
    assert_eq!(e.status_code(), 400);
    for (method, path) in [(Method::Get, "/widgets"), (Method::Get, "/widgets/a"), (Method::Delete, "/widgets/a")] {
        assert_eq!(status_of(run(handler.begin(method, path), &[&big])), 400);
    }
    assert_eq!(status_of(run(handler.begin(Method::Get, "/nonexistent"), &[&big])), 404);
}

#[test]
fn body_within_cap_is_handed_to_the_operation() {
    let handler = widgets(10);
    let call = run(handler.begin(Method::Post, "/widgets"), &[b"01234", b"", b"56789"]).unwrap();
    assert_eq!(call.operation, Operation::CreateItem);
    assert_eq!(call.body, b"0123456789");
    let call = run(handler.begin(Method::Put, "/widgets/a"), &[]).unwrap();
    assert_eq!(call.operation, Operation::UpdateItem { id: "a".to_string() });
    assert!(call.body.is_empty());
    let handler = widgets(0);
    let call = run(handler.begin(Method::Post, "/widgets"), &[b"", b""]).unwrap();
    assert!(call.body.is_empty());
    assert_eq!(status_of(run(handler.begin(Method::Post, "/widgets"), &[b"x"])), 400);
}

#[test]
fn trailers_are_wanted_behind_a_body_that_was_kept() {
    let handler = widgets(4);
    let mut pending = handler.begin(Method::Post, "/widgets");
    assert!(pending.wants_trailers());
    pending.accept(b"1234");
    assert!(pending.wants_trailers());
    pending.accept(b"5");
    assert!(!pending.wants_trailers());
    assert!(!handler.begin(Method::Get, "/widgets").wants_trailers());
    assert!(!handler.begin(Method::Get, "/nope").wants_trailers());
}

#[test]
fn a_request_after_a_refused_one_is_handled_as_any_other() {
    let handler = widgets(4);
    assert_eq!(status_of(run(handler.begin(Method::Post, "/widgets"), &[b"12345"])), 400);
    let call = run(handler.begin(Method::Post, "/widgets"), &[b"1234"]).unwrap();
    assert_eq!(call.body, b"1234");
}

#[test]
fn reader_keeps_up_to_the_cap() {
    let mut reader = BodyReader::new(3);
    reader.accept(b"ab");
    assert!(!reader.overflowed());
    reader.accept(b"c");
    assert!(!reader.overflowed());
    assert_eq!(reader.finish().unwrap(), b"abc");
    let mut reader = BodyReader::new(3);
    reader.accept(b"ab");
    reader.accept(b"cd");
    assert!(reader.overflowed());
    reader.accept(b"");
    let e = reader.finish().unwrap_err();
    assert_eq!(e.external_message(), "request body exceeded maximum size of 3 bytes");
    for cap in [0usize, 9, 10, 99, 100, 12345, usize::MAX] {
        let mut reader = BodyReader::new(cap);
        if cap == usize::MAX {
            continue;
        }
        reader.accept(&vec![0u8; cap.min(200) + 1][..]);
        if cap < 200 {
            let e = reader.finish().unwrap_err();
            assert_eq!(
                e.external_message(),
                format!("request body exceeded maximum size of {} bytes", cap)
            );
        }
    }
}

#[test]
fn drain_counts_what_it_drops() {
    let mut drain = BodyDrain::new();
    assert_eq!(drain.discarded(), 0);
    drain.discard(b"");
    assert_eq!(drain.discarded(), 0);
    drain.discard(b"abc");
    drain.discard(b"de");
    assert_eq!(drain.discarded(), 5);
}

#[test]
fn errors_are_built_as_documented() {
    let e = HttpError::for_bad_request("nope".to_string());
    assert_eq!((e.status_code(), e.external_message(), e.internal_message()), (400, "nope", "nope"));
    let e = HttpError::for_client_error(409, "taken".to_string());
    assert_eq!((e.status_code(), e.external_message(), e.internal_message()), (409, "taken", "taken"));
    let e = HttpError::for_status(404);
    assert_eq!((e.status_code(), e.external_message(), e.internal_message()), (404, "Not Found", "Not Found"));
    let e = HttpError::for_status(405);
    assert_eq!(e.external_message(), "Method Not Allowed");
    let e = HttpError::for_status(400);
    assert_eq!(e.external_message(), "Bad Request");
    let e = HttpError::for_status(418);
    assert_eq!(e.external_message(), "I'm a teapot");
    let e = HttpError::for_internal_error("db at 10.1.2.3 is down".to_string());
    assert_eq!(e.status_code(), 500);
    assert_eq!(e.external_message(), "Internal Server Error");
    assert_eq!(e.internal_message(), "db at 10.1.2.3 is down");
}

#[test]
fn every_client_status_with_a_phrase_has_its_phrase() {
    for code in 400u16..500 {
        let known = (400..=418).contains(&code)
            || (421..=424).contains(&code)
            || [426, 428, 429, 431, 451].contains(&code);
        let phrase = http::StatusCode::from_u16(code).unwrap().canonical_reason();
        assert_eq!(phrase.is_some(), known, "{}", code);
        if known {
            let e = HttpError::for_status(code);
            assert_eq!(e.status_code(), code);
            assert_eq!(e.external_message(), phrase.unwrap());
        }
    }
}

#[test]
fn outside_errors_become_bad_requests() {
    let parse = serde_json::from_str::<serde_json::Value>("").unwrap_err();
    let text = parse.to_string();
    let e = HttpError::from(parse);
    assert_eq!(e.status_code(), 400);
    assert_eq!(e.external_message(), format!("invalid input: {}", text));
    assert_eq!(e.external_message(), e.internal_message());
    assert_eq!(e.external_message(), "invalid input: EOF while parsing a value at line 1 column 0");
    let built = http::Response::builder().header("bad name", "x").body(()).unwrap_err();
    let text = built.to_string();
    let e = HttpError::from(built);
    assert_eq!(e.status_code(), 400);
    assert_eq!(e.external_message(), format!("error processing request: {}", text));
    assert_eq!(e.external_message(), e.internal_message());
    let e = HttpError::for_invalid_input("x");
    assert_eq!(e.external_message(), "invalid input: x");
    let e = HttpError::for_processing_error("y");
    assert_eq!(e.external_message(), "error processing request: y");
}

#[test]
fn transport_errors_become_bad_requests() {
    let (sender, mut body) = hyper::Body::channel();
    sender.abort();
    let runtime = tokio::runtime::Builder::new_current_thread().build().unwrap();
    let failure = runtime.block_on(body.data()).unwrap().unwrap_err();
    let text = failure.to_string();
    assert!(!text.is_empty());
    let e = HttpError::from(failure);
    assert_eq!(e.status_code(), 400);
    assert_eq!(e.external_message(), format!("error processing request: {}", text));
    assert_eq!(e.external_message(), e.internal_message());
}

#[test]
fn error_response_is_json_with_message_and_request_id() {
    let e = HttpError::for_internal_error("secret detail".to_string());
    let r = e.into_response("req-1");
    assert_eq!(r.status_code, 500);
    assert_eq!(
        r.headers,
        vec![
            ("content-type".to_string(), "application/json".to_string()),
            ("x-request-id".to_string(), "req-1".to_string())
        ]
    );
    assert_eq!(r.body, pretty("Internal Server Error", "req-1"));
    assert_eq!(r.body, "{\n  \"message\": \"Internal Server Error\",\n  \"request_id\": \"req-1\"\n}");
    assert!(!r.body.contains("secret detail"));
    let parsed: serde_json::Value = serde_json::from_str(&r.body).unwrap();
    let object = parsed.as_object().unwrap();
    assert_eq!(object.len(), 2);
    assert_eq!(object["message"], "Internal Server Error");
    assert_eq!(object["request_id"], "req-1");

    let e = HttpError::for_bad_request("quote \" slash \\ line\nbreak \u{1} \u{e9}".to_string());
    let r = e.into_response("id \"7\"");
    assert_eq!(r.status_code, 400);
    assert_eq!(r.body, pretty("quote \" slash \\ line\nbreak \u{1} \u{e9}", "id \"7\""));
    let parsed: serde_json::Value = serde_json::from_str(&r.body).unwrap();
    assert_eq!(parsed["message"], "quote \" slash \\ line\nbreak \u{1} \u{e9}");
    assert_eq!(parsed["request_id"], "id \"7\"");
}

#[test]
fn error_body_is_written_by_the_serializer() {
    let body = HttpErrorResponseBody { message: "m".to_string(), request_id: "r".to_string() };
    assert_eq!(body.to_json().unwrap(), pretty("m", "r"));
    let (r, fault) = HttpResponse::for_error(404, "r", Ok("{}".to_string()));
    assert_eq!((r.status_code, r.body.as_str()), (404, "{}"));
    assert!(fault.is_none());
    let failure = serde_json::from_str::<serde_json::Value>("{").unwrap_err();
    let said = failure.to_string();
    let (r, fault) = HttpResponse::for_error(404, "r", Err(failure));
    let fault = fault.unwrap();
    assert_eq!(fault.status_code(), 500);
    assert_eq!(fault.external_message(), "Internal Server Error");
    assert_eq!(fault.internal_message(), said);
    assert_eq!(r.status_code, 500);
    assert_eq!(r.headers[1], ("x-request-id".to_string(), "r".to_string()));
    let parsed: serde_json::Value = serde_json::from_str(&r.body).unwrap();
    assert_eq!(parsed["message"], "Internal Server Error");
    assert_eq!(parsed["request_id"], "");
}

#[test]
fn every_refusal_is_answered_with_the_error_shape() {
    let handler = widgets(2);
    let refusals = [
        (Method::Get, "/nope", &b""[..], 404u16),
        (Method::Other, "/widgets", &b""[..], 405),
        (Method::Get, "/widgets", &b"x"[..], 400),
        (Method::Post, "/widgets", &b"xyz"[..], 400),
    ];
    for (method, path, body, status) in refusals {
        let outcome = run(handler.begin(method, path), &[body]);
        let e = outcome.unwrap_err();
        let message = e.external_message().to_string();
        let r = handler.complete("abc", Err(e));
        assert_eq!(r.status_code, status);
        let parsed: serde_json::Value = serde_json::from_str(&r.body).unwrap();
        let object = parsed.as_object().unwrap();
        assert_eq!(object.len(), 2);
        assert_eq!(object["message"], serde_json::Value::String(message));
        assert_eq!(object["request_id"], "abc");
    }
    let ok = HttpResponse::with_json_body(200, "abc", "[]".to_string());
    let r = handler.complete("abc", Ok(ok.clone()));
    assert_eq!(r, ok);
    let r = complete_request("abc", Err(HttpError::for_status(404)));
    assert_eq!(r.status_code, 404);
    let table = RouteTable::new("widgets".to_string());
    let pending = PendingRequest::begin(&table, 1, Method::Post, "/widgets");
    assert_eq!(status_of(run(pending, &[b"ab"])), 400);
}

#[test]
fn every_error_is_answered_with_its_own_status() {
    for code in [400u16, 404, 405, 409, 418, 451, 499] {
        let r = HttpError::for_client_error(code, "m".to_string()).into_response("r");
        assert_eq!(r.status_code, code);
        assert_eq!(r.body, pretty("m", "r"));
    }
    let r = HttpError::for_internal_error("m".to_string()).into_response("r");
    assert_eq!(r.status_code, 500);
}

#[test]
fn request_identifiers_follow_the_numbers() {
    assert_eq!(request_id(0), "req-0");
    assert_eq!(request_id(7), "req-7");
    assert_eq!(request_id(10), "req-10");
    assert_eq!(request_id(1234567890), "req-1234567890");
    assert_eq!(request_id(u64::MAX), format!("req-{}", u64::MAX));
    let mut seen = std::collections::BTreeSet::new();
    for number in 0..2000u64 {
        assert!(seen.insert(request_id(number)));
    }
}

#[test]
fn a_response_without_a_body_carries_the_identifier() {
    let r = HttpResponse::without_body(204, "req-9");
    assert_eq!(r.status_code, 204);
    assert_eq!(r.headers, vec![("x-request-id".to_string(), "req-9".to_string())]);
    assert_eq!(r.body, "");
}

#[test]
fn state_is_set_up_with_the_defaults() {
    let state = setup_server_state(7u8);
    assert_eq!(*state.backend, 7);
    assert_eq!(state.config.request_body_max_bytes, 1024);
    assert_eq!(DEFAULT_REQUEST_BODY_MAX_BYTES, 1024);
    assert_eq!(state.routes.collection_name(), "projects");
    let connections = ApiServerConnectionHandler::new(Arc::clone(&state));
    let requests = connections.accept();
    assert!(Arc::ptr_eq(requests.state(), &state));
    let call = run(requests.begin(Method::Get, "/projects/simproject1"), &[]).unwrap();
    assert_eq!(call.operation, Operation::GetItem { id: "simproject1".to_string() });
    let requests = ApiServerRequestHandler::new(Arc::clone(&state));
    assert_eq!(status_of(run(requests.begin(Method::Get, "/widgets"), &[])), 404);
}

#[test]
fn server_handle_is_run_once_and_then_closed() {
    let mut server = ApiHttpServer::new("future", 8080u16, "sender");
    assert_eq!(server.state(), Lifecycle::Built);
    assert_eq!(server.local_addr(), 8080);
    assert_eq!(server.run(), "future");
    assert_eq!(server.state(), Lifecycle::Running);
    assert_eq!(server.local_addr(), 8080);
    assert_eq!(server.close(), "sender");
}
