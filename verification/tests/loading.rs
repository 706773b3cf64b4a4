use stubr::json::JsonValue;
use stubr::repository::{load, parse_stub, StubFile, StubLoadError};

fn s(x: &str) -> JsonValue {
    JsonValue::Str(x.to_string())
}

fn obj(members: Vec<(&str, JsonValue)>) -> JsonValue {
    JsonValue::Object(members.into_iter().map(|(k, v)| (k.to_string(), v)).collect())
}

fn doc(status: i64) -> JsonValue {
    obj(vec![
        ("request", obj(vec![("method", s("GET"))])),
        ("response", obj(vec![("status", JsonValue::Int(status))])),
    ])
}

#[test]
fn files_are_loaded_in_lexicographic_name_order() {
    let stubs = load(vec![
        StubFile { name: "b.json".to_string(), content: Some(doc(201)) },
        StubFile { name: "a.json".to_string(), content: Some(doc(200)) },
        StubFile { name: "c.json".to_string(), content: Some(doc(202)) },
    ]);
    assert_eq!(stubs.len(), 3);
    assert_eq!(stubs[0].response.status, 200);
    assert_eq!(stubs[1].response.status, 201);
    assert_eq!(stubs[2].response.status, 202);
}

#[test]
fn a_bad_file_does_not_prevent_the_rest_from_loading() {
    let stubs = load(vec![
        StubFile { name: "a.json".to_string(), content: None },
        StubFile { name: "b.json".to_string(), content: Some(s("not a stub")) },
        StubFile { name: "c.json".to_string(), content: Some(doc(200)) },
    ]);
    assert_eq!(stubs.len(), 1);
    assert_eq!(stubs[0].response.status, 200);
}

#[test]
fn parse_rejects_non_objects() {
    assert_eq!(parse_stub(&s("nope")).err(), Some(StubLoadError::NotAnObject));
}

#[test]
fn parse_rejects_missing_request() {
    let v = obj(vec![("response", obj(vec![("status", JsonValue::Int(200))]))]);
    assert_eq!(parse_stub(&v).err(), Some(StubLoadError::MissingRequest));
}

#[test]
fn parse_rejects_request_without_method() {
    let v = obj(vec![
        ("request", obj(vec![("urlPath", s("/"))])),
        ("response", obj(vec![("status", JsonValue::Int(200))])),
    ]);
    assert_eq!(parse_stub(&v).err(), Some(StubLoadError::BadRequest));
}

#[test]
fn parse_rejects_missing_response() {
    let v = obj(vec![("request", obj(vec![("method", s("GET"))]))]);
    assert_eq!(parse_stub(&v).err(), Some(StubLoadError::MissingResponse));
}

#[test]
fn parse_rejects_response_without_valid_status() {
    let v = obj(vec![
        ("request", obj(vec![("method", s("GET"))])),
        ("response", obj(vec![("status", JsonValue::Int(99999))])),
    ]);
    assert_eq!(parse_stub(&v).err(), Some(StubLoadError::BadResponse));
}

#[test]
fn parse_applies_priority_default() {
    let stub = parse_stub(&doc(200)).unwrap();
    assert_eq!(stub.priority, 5);
    assert!(stub.id.is_none());
    assert!(stub.uuid.is_none());
    assert!(stub.expect.is_none());
}

#[test]
fn parse_reads_declared_fields() {
    let v = obj(vec![
        ("id", s("one")),
        ("priority", JsonValue::Int(1)),
        ("expect", JsonValue::Int(3)),
        ("request", obj(vec![("method", s("POST")), ("urlPath", s("/pets"))])),
        ("response", obj(vec![
            ("status", JsonValue::Int(201)),
            ("fixedDelayMilliseconds", JsonValue::Int(250)),
            ("headers", obj(vec![("content-type", s("application/json"))])),
            ("jsonBody", obj(vec![("ok", JsonValue::Bool(true))])),
        ])),
    ]);
    let stub = parse_stub(&v).unwrap();
    assert_eq!(stub.id.as_deref(), Some("one"));
    assert_eq!(stub.priority, 1);
    assert_eq!(stub.expect, Some(3));
    assert_eq!(stub.request.method, "POST");
    assert_eq!(stub.request.url_path.as_deref(), Some("/pets"));
    assert_eq!(stub.response.status, 201);
    assert_eq!(stub.response.fixed_delay_milliseconds, Some(250));
    assert_eq!(stub.response.headers.len(), 1);
    assert_eq!(stub.response.headers[0].0, "content-type");
    assert_eq!(stub.response.headers[0].1, "application/json");
    assert!(stub.response.body.json_body.is_some());
}

#[test]
fn matcher_flags_classify_combinations() {
    let v = obj(vec![
        ("request", obj(vec![
            ("method", s("GET")),
            ("headers", obj(vec![
                ("a", obj(vec![("equalTo", s("x"))])),
                ("b", obj(vec![("equalTo", s("x")), ("caseInsensitive", JsonValue::Bool(true))])),
                ("c", obj(vec![("contains", s("x"))])),
                ("d", obj(vec![("contains", s(""))])),
            ])),
        ])),
        ("response", obj(vec![("status", JsonValue::Int(200))])),
    ]);
    let stub = parse_stub(&v).unwrap();
    let h = &stub.request.headers;
    assert!(h[0].is_exact_match() && h[0].is_equal_to());
    assert!(!h[1].is_exact_match() && h[1].is_case_insensitive());
    assert!(h[2].is_contains() && !h[2].is_exact_match());
    // an empty contains-pattern counts as no constraint
    assert!(!h[3].is_contains());
    assert_eq!(h[0].equal_to_as_str().as_deref(), Some("x"));
}

#[test]
fn equal_to_as_str_normalizes_scalars() {
    let v = obj(vec![
        ("request", obj(vec![
            ("method", s("GET")),
            ("queryParameters", obj(vec![
                ("n", obj(vec![("equalTo", JsonValue::Int(42))])),
                ("m", obj(vec![("equalTo", JsonValue::Int(-7))])),
                ("b", obj(vec![("equalTo", JsonValue::Bool(true))])),
                ("o", obj(vec![("equalTo", obj(vec![]))])),
            ])),
        ])),
        ("response", obj(vec![("status", JsonValue::Int(200))])),
    ]);
    let stub = parse_stub(&v).unwrap();
    let q = &stub.request.query_parameters;
    assert_eq!(q[0].equal_to_as_str().as_deref(), Some("42"));
    assert_eq!(q[1].equal_to_as_str().as_deref(), Some("-7"));
    assert_eq!(q[2].equal_to_as_str().as_deref(), Some("true"));
    // objects have no canonical scalar rendering
    assert_eq!(q[3].equal_to_as_str(), None);
}
