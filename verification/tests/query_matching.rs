use stubr::engine::response_status_for;
use stubr::json::JsonValue;
use stubr::matcher::HttpRequest;
use stubr::repository::{load, StubFile};

fn s(x: &str) -> JsonValue {
    JsonValue::Str(x.to_string())
}

fn obj(members: Vec<(&str, JsonValue)>) -> JsonValue {
    JsonValue::Object(members.into_iter().map(|(k, v)| (k.to_string(), v)).collect())
}

/// A stub matching GET with one query-parameter expectation, answering 200.
fn query_stub(key: &str, expected: JsonValue) -> Vec<stubr::model::JsonStub> {
    let doc = obj(vec![
        ("request", obj(vec![
            ("method", s("GET")),
            ("queryParameters", obj(vec![(key, obj(vec![("equalTo", expected)]))])),
        ])),
        ("response", obj(vec![("status", JsonValue::Int(200))])),
    ]);
    load(vec![StubFile { name: "stub.json".to_string(), content: Some(doc) }])
}

fn get_with_query(key: &str, value: &str) -> HttpRequest {
    HttpRequest {
        method: "GET".to_string(),
        path: "/".to_string(),
        queries: vec![(key.to_string(), value.to_string())],
        headers: vec![],
        body: None,
    }
}

#[test]
fn should_not_map_when_invalid_key() {
    let stubs = query_stub("age", s("young"));
    assert_eq!(response_status_for(&get_with_query("not-age", "young"), &stubs), 404);
}

#[test]
fn should_map_request_exact_string_query() {
    let stubs = query_stub("age", s("young"));
    assert_eq!(response_status_for(&get_with_query("age", "young"), &stubs), 200);
}

#[test]
fn should_not_map_when_incorrect_string_value() {
    let stubs = query_stub("age", s("young"));
    assert_eq!(response_status_for(&get_with_query("age", "old"), &stubs), 404);
}

#[test]
fn should_map_request_exact_int_query() {
    let stubs = query_stub("age", JsonValue::Int(42));
    assert_eq!(response_status_for(&get_with_query("age", "42"), &stubs), 200);
}

#[test]
fn should_not_map_when_incorrect_int_value() {
    let stubs = query_stub("age", JsonValue::Int(42));
    assert_eq!(response_status_for(&get_with_query("age", "43"), &stubs), 404);
}

#[test]
fn should_not_map_when_not_an_int_value() {
    let stubs = query_stub("age", JsonValue::Int(42));
    assert_eq!(response_status_for(&get_with_query("age", "string"), &stubs), 404);
}

#[test]
fn should_map_request_exact_bool_query() {
    let stubs = query_stub("age", JsonValue::Bool(true));
    assert_eq!(response_status_for(&get_with_query("age", "true"), &stubs), 200);
}

#[test]
fn should_not_map_when_incorrect_bool_value() {
    let stubs = query_stub("age", JsonValue::Bool(true));
    assert_eq!(response_status_for(&get_with_query("age", "false"), &stubs), 404);
}

#[test]
fn should_not_map_when_not_a_bool() {
    let stubs = query_stub("age", JsonValue::Bool(true));
    assert_eq!(response_status_for(&get_with_query("age", "42"), &stubs), 404);
}
