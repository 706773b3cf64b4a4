use stubr::engine::{count_match, expectations_met, response_status_for, select};
use stubr::json::JsonValue;
use stubr::matcher::HttpRequest;
use stubr::repository::{load, StubFile};

fn s(x: &str) -> JsonValue {
    JsonValue::Str(x.to_string())
}

fn obj(members: Vec<(&str, JsonValue)>) -> JsonValue {
    JsonValue::Object(members.into_iter().map(|(k, v)| (k.to_string(), v)).collect())
}

fn stub_doc(method: &str, path: &str, priority: Option<i64>, status: i64) -> JsonValue {
    let mut top = vec![];
    if let Some(p) = priority {
        top.push(("priority", JsonValue::Int(p)));
    }
    top.push(("request", obj(vec![("method", s(method)), ("urlPath", s(path))])));
    top.push(("response", obj(vec![("status", JsonValue::Int(status))])));
    obj(top)
}

fn get(path: &str) -> HttpRequest {
    HttpRequest {
        method: "GET".to_string(),
        path: path.to_string(),
        queries: vec![],
        headers: vec![],
        body: None,
    }
}

fn files(docs: Vec<JsonValue>) -> Vec<StubFile> {
    docs.into_iter()
        .enumerate()
        .map(|(i, d)| StubFile { name: format!("{:02}.json", i), content: Some(d) })
        .collect()
}

#[test]
fn should_map_response_status_200() {
    let stubs = load(files(vec![stub_doc("GET", "/", None, 200)]));
    assert_eq!(response_status_for(&get("/"), &stubs), 200);
}

#[test]
fn should_map_response_status_400() {
    let stubs = load(files(vec![stub_doc("GET", "/", None, 400)]));
    assert_eq!(response_status_for(&get("/"), &stubs), 400);
}

#[test]
fn should_map_response_status_500() {
    let stubs = load(files(vec![stub_doc("GET", "/", None, 500)]));
    assert_eq!(response_status_for(&get("/"), &stubs), 500);
}

#[test]
fn no_matching_stub_answers_404() {
    let stubs = load(files(vec![stub_doc("GET", "/pets", None, 200)]));
    assert_eq!(select(&get("/other"), &stubs), None);
    assert_eq!(response_status_for(&get("/other"), &stubs), 404);
}

#[test]
fn empty_stub_set_answers_404() {
    let stubs = load(vec![]);
    assert_eq!(select(&get("/"), &stubs), None);
    assert_eq!(response_status_for(&get("/"), &stubs), 404);
}

#[test]
fn smaller_priority_wins_over_later_match() {
    let stubs = load(files(vec![
        stub_doc("GET", "/", Some(5), 500),
        stub_doc("GET", "/", Some(1), 201),
    ]));
    assert_eq!(select(&get("/"), &stubs), Some(1));
    assert_eq!(response_status_for(&get("/"), &stubs), 201);
}

#[test]
fn equal_priority_falls_back_to_load_order() {
    let stubs = load(files(vec![
        stub_doc("GET", "/", Some(3), 202),
        stub_doc("GET", "/", Some(3), 500),
    ]));
    assert_eq!(select(&get("/"), &stubs), Some(0));
    assert_eq!(response_status_for(&get("/"), &stubs), 202);
}

#[test]
fn absent_priority_defaults_to_five() {
    let stubs = load(files(vec![
        stub_doc("GET", "/", None, 500),
        stub_doc("GET", "/", Some(4), 203),
    ]));
    assert_eq!(response_status_for(&get("/"), &stubs), 203);
}

#[test]
fn method_must_match() {
    let stubs = load(files(vec![stub_doc("POST", "/", None, 200)]));
    assert_eq!(response_status_for(&get("/"), &stubs), 404);
}

#[test]
fn url_path_pattern_matches_by_regex() {
    let doc = obj(vec![
        ("request", obj(vec![("method", s("GET")), ("urlPathPattern", s("^/pets/[0-9]+$"))])),
        ("response", obj(vec![("status", JsonValue::Int(200))])),
    ]);
    let stubs = load(vec![StubFile { name: "p.json".to_string(), content: Some(doc) }]);
    assert_eq!(response_status_for(&get("/pets/42"), &stubs), 200);
    assert_eq!(response_status_for(&get("/pets/none"), &stubs), 404);
}

#[test]
fn case_insensitive_header_matcher_matches_any_casing() {
    let doc = obj(vec![
        ("request", obj(vec![
            ("method", s("GET")),
            ("headers", obj(vec![("x-token", obj(vec![
                ("equalTo", s("Secret")),
                ("caseInsensitive", JsonValue::Bool(true)),
            ]))])),
        ])),
        ("response", obj(vec![("status", JsonValue::Int(200))])),
    ]);
    let stubs = load(vec![StubFile { name: "h.json".to_string(), content: Some(doc) }]);
    let req = |value: &str| HttpRequest {
        method: "GET".to_string(),
        path: "/".to_string(),
        queries: vec![],
        headers: vec![("X-Token".to_string(), vec![value.to_string()])],
        body: None,
    };
    assert_eq!(response_status_for(&req("SECRET"), &stubs), 200);
    assert_eq!(response_status_for(&req("secret"), &stubs), 200);
    assert_eq!(response_status_for(&req("other"), &stubs), 404);
}

#[test]
fn exact_header_matcher_rejects_other_casing() {
    let doc = obj(vec![
        ("request", obj(vec![
            ("method", s("GET")),
            ("headers", obj(vec![("x-token", obj(vec![("equalTo", s("Secret"))]))])),
        ])),
        ("response", obj(vec![("status", JsonValue::Int(200))])),
    ]);
    let stubs = load(vec![StubFile { name: "h.json".to_string(), content: Some(doc) }]);
    let req = |value: &str| HttpRequest {
        method: "GET".to_string(),
        path: "/".to_string(),
        queries: vec![],
        headers: vec![("x-token".to_string(), vec![value.to_string()])],
        body: None,
    };
    assert_eq!(response_status_for(&req("Secret"), &stubs), 200);
    assert_eq!(response_status_for(&req("SECRET"), &stubs), 404);
}

#[test]
fn contains_matcher_needs_substring() {
    let doc = obj(vec![
        ("request", obj(vec![
            ("method", s("GET")),
            ("queryParameters", obj(vec![("q", obj(vec![("contains", s("cat"))]))])),
        ])),
        ("response", obj(vec![("status", JsonValue::Int(200))])),
    ]);
    let stubs = load(vec![StubFile { name: "c.json".to_string(), content: Some(doc) }]);
    let req = |value: &str| HttpRequest {
        method: "GET".to_string(),
        path: "/".to_string(),
        queries: vec![("q".to_string(), value.to_string())],
        headers: vec![],
        body: None,
    };
    assert_eq!(response_status_for(&req("concatenation"), &stubs), 200);
    assert_eq!(response_status_for(&req("dog"), &stubs), 404);
}

#[test]
fn body_pattern_compares_normalized_scalars() {
    let doc = obj(vec![
        ("request", obj(vec![
            ("method", s("POST")),
            ("bodyPatterns", JsonValue::Array(vec![obj(vec![("equalToJson", obj(vec![("age", JsonValue::Int(42))]))])])),
        ])),
        ("response", obj(vec![("status", JsonValue::Int(200))])),
    ]);
    let stubs = load(vec![StubFile { name: "b.json".to_string(), content: Some(doc) }]);
    let req = |body: JsonValue| HttpRequest {
        method: "POST".to_string(),
        path: "/".to_string(),
        queries: vec![],
        headers: vec![],
        body: Some(body),
    };
    // the JSON number 42 and the string "42" compare equal once normalized
    assert_eq!(response_status_for(&req(obj(vec![("age", JsonValue::Int(42))])), &stubs), 200);
    assert_eq!(response_status_for(&req(obj(vec![("age", s("42"))])), &stubs), 200);
    assert_eq!(response_status_for(&req(obj(vec![("age", s("43"))])), &stubs), 404);
}

#[test]
fn expected_call_counts_are_checked_after_traffic() {
    let doc = obj(vec![
        ("expect", JsonValue::Int(2)),
        ("request", obj(vec![("method", s("GET")), ("urlPath", s("/"))])),
        ("response", obj(vec![("status", JsonValue::Int(200))])),
    ]);
    let stubs = load(vec![StubFile { name: "e.json".to_string(), content: Some(doc) }]);
    assert_eq!(stubs[0].expect, Some(2));
    let mut counts = vec![0u64; stubs.len()];
    assert!(!expectations_met(&stubs, &counts));
    let i = select(&get("/"), &stubs).unwrap();
    count_match(&mut counts, i);
    assert!(!expectations_met(&stubs, &counts));
    count_match(&mut counts, i);
    assert!(expectations_met(&stubs, &counts));
    count_match(&mut counts, i);
    assert!(!expectations_met(&stubs, &counts));
}
