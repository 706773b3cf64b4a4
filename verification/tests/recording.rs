use stubr::engine::response_status_for;
use stubr::json::JsonValue;
use stubr::matcher::predicate_satisfied;
use stubr::record::{
    exchange_to_stub, recorded_request, stub_filename, stub_to_json, base_uri, RecordConfig,
    RecordedExchange, RecordedRequest, RecordedResponse,
};
use stubr::repository::{load, parse_stub, StubFile};

fn s(x: &str) -> JsonValue {
    JsonValue::Str(x.to_string())
}

fn obj(members: Vec<(&str, JsonValue)>) -> JsonValue {
    JsonValue::Object(members.into_iter().map(|(k, v)| (k.to_string(), v)).collect())
}

fn actix_exchange() -> RecordedExchange {
    RecordedExchange(
        RecordedRequest {
            method: "GET".to_string(),
            path: "/record-client/actix".to_string(),
            queries: vec![],
            headers: vec![("accept".to_string(), "*/*".to_string())],
            body_text: None,
            body_json: None,
        },
        RecordedResponse {
            status: 200,
            headers: vec![("date".to_string(), "now".to_string())],
            body_text: None,
            body_json: None,
        },
    )
}

fn relaxed_cfg() -> RecordConfig {
    RecordConfig {
        except_request_headers: vec!["Accept".to_string()],
        except_response_headers: vec!["Date".to_string()],
    }
}

#[test]
fn should_record_from_actix_integration_test() {
    let stub = exchange_to_stub(&actix_exchange(), &relaxed_cfg());
    // request section is exactly {"method": "GET", "urlPath": "/record-client/actix"}
    assert_eq!(stub.request.method, "GET");
    assert_eq!(stub.request.url_path.as_deref(), Some("/record-client/actix"));
    assert!(stub.request.url_path_pattern.is_none());
    assert!(stub.request.query_parameters.is_empty());
    assert!(stub.request.body_patterns.is_empty());
    // excluded headers are absent from both sections
    assert!(stub.request.headers.is_empty());
    assert!(stub.response.headers.is_empty());
    // response section is exactly {"status": 200}
    assert_eq!(stub.response.status, 200);
    assert!(stub.response.body.body.is_none());
    assert!(stub.response.body.json_body.is_none());
    assert!(stub.response.fixed_delay_milliseconds.is_none());
}

#[test]
fn should_record_from_actix_failing_integration_test() {
    let mut ex = actix_exchange();
    ex.0.path = "/record-client/actix/ko".to_string();
    ex.1.status = 500;
    let stub = exchange_to_stub(&ex, &relaxed_cfg());
    assert_eq!(stub.request.method, "GET");
    assert_eq!(stub.request.url_path.as_deref(), Some("/record-client/actix/ko"));
    assert_eq!(stub.response.status, 500);
    assert!(stub.request.headers.is_empty());
    assert!(stub.response.headers.is_empty());
}

#[test]
fn non_excluded_headers_are_recorded_exactly() {
    let mut ex = actix_exchange();
    ex.0.headers.push(("x-custom".to_string(), "kept".to_string()));
    let stub = exchange_to_stub(&ex, &relaxed_cfg());
    assert_eq!(stub.request.headers.len(), 1);
    assert_eq!(stub.request.headers[0].key, "x-custom");
    let v = stub.request.headers[0].value.as_ref().unwrap();
    assert!(matches!(v.equal_to.as_ref().unwrap(), JsonValue::Str(x) if x == "kept"));
    assert!(v.case_insensitive.is_none());
    assert!(v.contains.is_none());
}

#[test]
fn json_response_body_is_captured_as_json() {
    let mut ex = actix_exchange();
    ex.1.headers = vec![("Content-Type".to_string(), "application/json".to_string())];
    ex.1.body_text = Some("{\"ok\":true}".to_string());
    ex.1.body_json = Some(obj(vec![("ok", JsonValue::Bool(true))]));
    let cfg = RecordConfig { except_request_headers: vec![], except_response_headers: vec![] };
    let stub = exchange_to_stub(&ex, &cfg);
    assert!(stub.response.body.body.is_none());
    assert!(matches!(stub.response.body.json_body, Some(JsonValue::Object(_))));
}

#[test]
fn malformed_json_body_falls_back_to_raw_text() {
    let mut ex = actix_exchange();
    ex.1.headers = vec![("Content-Type".to_string(), "application/json".to_string())];
    ex.1.body_text = Some("not json".to_string());
    ex.1.body_json = None;
    let cfg = RecordConfig { except_request_headers: vec![], except_response_headers: vec![] };
    let stub = exchange_to_stub(&ex, &cfg);
    assert!(stub.response.body.json_body.is_none());
    assert_eq!(stub.response.body.body.as_deref(), Some("not json"));
}

#[test]
fn recorded_stub_matches_the_request_that_produced_it() {
    let ex = actix_exchange();
    let stub = exchange_to_stub(&ex, &relaxed_cfg());
    let req = recorded_request(&ex);
    assert!(predicate_satisfied(&req, &stub.request));
}

#[test]
fn recorded_stub_loaded_by_repository_matches_the_request() {
    // the stub as the recorder persists it, reloaded from its file form
    let ex = actix_exchange();
    let req = recorded_request(&ex);
    let doc = obj(vec![
        ("request", obj(vec![("method", s("GET")), ("urlPath", s("/record-client/actix"))])),
        ("response", obj(vec![("status", JsonValue::Int(200))])),
    ]);
    let stubs = load(vec![StubFile { name: "record-client-actix.json".to_string(), content: Some(doc) }]);
    assert_eq!(stubs.len(), 1);
    assert_eq!(response_status_for(&req, &stubs), 200);
}

#[test]
fn filename_is_deterministic_and_overwrite_safe() {
    let a = stub_filename("GET", "/record-client/actix");
    let b = stub_filename("GET", "/record-client/actix");
    assert_eq!(a, b);
    assert!(a.starts_with("record-client-actix-"));
    // a different call names a different file
    let c = stub_filename("POST", "/record-client/actix");
    assert_ne!(a, c);
}

#[test]
fn base_uri_renders_host_and_port() {
    assert_eq!(base_uri("localhost", Some(8080)), "http://localhost:8080/");
    assert_eq!(base_uri("example.test", None), "http://example.test:80/");
}

#[test]
fn recorded_stub_written_and_parsed_back_matches_the_request() {
    let ex = actix_exchange();
    let stub = exchange_to_stub(&ex, &relaxed_cfg());
    let doc = stub_to_json(&stub);
    let loaded = parse_stub(&doc).expect("a recorded stub document parses");
    let req = recorded_request(&ex);
    assert!(predicate_satisfied(&req, &loaded.request));
    assert_eq!(loaded.response.status, 200);
    assert_eq!(loaded.priority, 5);
}
