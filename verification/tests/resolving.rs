use stubr::json::{json_value_eq, JsonValue};
use stubr::matcher::HttpRequest;
use stubr::model::{BodyDto, Config, JsonStub, RequestStub, ResponseDto};
use stubr::resolve::{requires_response_templating, resolve, TemplateError};

fn s(x: &str) -> JsonValue {
    JsonValue::Str(x.to_string())
}

fn obj(members: Vec<(&str, JsonValue)>) -> JsonValue {
    JsonValue::Object(members.into_iter().map(|(k, v)| (k.to_string(), v)).collect())
}

fn stub_with(
    headers: Vec<(&str, &str)>,
    body: Option<&str>,
    json_body: Option<JsonValue>,
    delay: Option<u64>,
) -> JsonStub {
    JsonStub {
        id: None,
        uuid: None,
        priority: 5,
        expect: None,
        request: RequestStub {
            method: "POST".to_string(),
            url_path: None,
            url_path_pattern: None,
            headers: vec![],
            query_parameters: vec![],
            body_patterns: vec![],
        },
        response: ResponseDto {
            status: 200,
            headers: headers.into_iter().map(|(k, v)| (k.to_string(), v.to_string())).collect(),
            body: BodyDto { body: body.map(|b| b.to_string()), json_body },
            fixed_delay_milliseconds: delay,
        },
    }
}

fn post(path: &str, body: Option<JsonValue>) -> HttpRequest {
    HttpRequest {
        method: "POST".to_string(),
        path: path.to_string(),
        queries: vec![],
        headers: vec![],
        body,
    }
}

fn cfg(global_delay: Option<u64>, latency: Option<u64>) -> Config {
    Config { port: None, global_delay, latency, verify: false }
}

#[test]
fn literal_response_is_served_as_declared() {
    let stub = stub_with(vec![("content-type", "application/json")], None, Some(obj(vec![("ok", JsonValue::Bool(true))])), None);
    let c = resolve(&stub, &post("/", None), &cfg(None, None)).unwrap();
    assert_eq!(c.status, 200);
    assert_eq!(c.wait_ms, 0);
    assert_eq!(c.headers.len(), 1);
    assert_eq!(c.headers[0].1, "application/json");
    assert!(json_value_eq(c.body.as_ref().unwrap(), &obj(vec![("ok", JsonValue::Bool(true))])));
}

#[test]
fn json_path_marker_extracts_from_request_body() {
    let stub = stub_with(vec![], None, Some(obj(vec![("name", s("{{jsonPath request.body '$.name'}}"))])), None);
    let req = post("/", Some(obj(vec![("name", s("alice"))])));
    let c = resolve(&stub, &req, &cfg(None, None)).unwrap();
    assert!(json_value_eq(c.body.as_ref().unwrap(), &obj(vec![("name", s("alice"))])));
}

#[test]
fn path_segment_marker_reads_the_url() {
    let stub = stub_with(vec![("x-id", "{{request.pathSegments.[1]}}")], None, Some(s("{{request.pathSegments.[0]}}")), None);
    let c = resolve(&stub, &post("/pets/42", None), &cfg(None, None)).unwrap();
    assert_eq!(c.headers[0].1, "42");
    assert!(json_value_eq(c.body.as_ref().unwrap(), &s("pets")));
}

#[test]
fn unresolved_path_marker_fails_the_response_build() {
    let stub = stub_with(vec![], None, Some(obj(vec![("name", s("{{jsonPath request.body '$.name'}}"))])), None);
    let r = resolve(&stub, &post("/", Some(obj(vec![("other", s("x"))]))), &cfg(None, None));
    assert!(matches!(r, Err(TemplateError::UnresolvedPath { path }) if path == "$.name"));
}

#[test]
fn out_of_range_segment_marker_fails_the_response_build() {
    let stub = stub_with(vec![], None, Some(s("{{request.pathSegments.[9]}}")), None);
    let r = resolve(&stub, &post("/a", None), &cfg(None, None));
    assert!(matches!(r, Err(TemplateError::SegmentOutOfRange { .. })));
}

#[test]
fn verification_markers_cannot_be_served() {
    let stub = stub_with(vec![], None, Some(s("{{anyNonBlankString}}")), None);
    let r = resolve(&stub, &post("/", None), &cfg(None, None));
    assert!(matches!(r, Err(TemplateError::UnsupportedMarker { .. })));
}

#[test]
fn string_body_is_kept_verbatim() {
    let stub = stub_with(vec![], Some("hello"), None, None);
    let c = resolve(&stub, &post("/", None), &cfg(None, None)).unwrap();
    assert!(matches!(c.body, Some(JsonValue::Str(b)) if b == "hello"));
}

#[test]
fn resolve_composes_the_delays() {
    let stub = stub_with(vec![], None, None, Some(5000));
    // the local delay replaces the default and the latency is added on top
    let c = resolve(&stub, &post("/", None), &cfg(Some(2000), Some(3000))).unwrap();
    assert_eq!(c.wait_ms, 8000);
    let stub2 = stub_with(vec![], None, None, None);
    let c2 = resolve(&stub2, &post("/", None), &cfg(Some(2000), Some(3000))).unwrap();
    assert_eq!(c2.wait_ms, 5000);
}

#[test]
fn templating_need_is_decided_by_marker_syntax() {
    let plain = stub_with(vec![("a", "b")], Some("x"), None, None);
    assert!(!requires_response_templating(&plain.response));
    let templated_header = stub_with(vec![("a", "{{request.pathSegments.[0]}}")], None, None, None);
    assert!(requires_response_templating(&templated_header.response));
    let templated_body = stub_with(vec![], None, Some(obj(vec![("n", s("{{jsonPath request.body '$.n'}}"))])), None);
    assert!(requires_response_templating(&templated_body.response));
}
