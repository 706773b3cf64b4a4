use stubr::json::{json_clone, JsonValue};
use stubr::matcher::HttpRequest;
use stubr::verify::{JsonBodyTemplatingVerifier, VerificationErrorKind};

fn s(x: &str) -> JsonValue {
    JsonValue::Str(x.to_string())
}

fn obj(members: Vec<(&str, JsonValue)>) -> JsonValue {
    JsonValue::Object(members.into_iter().map(|(k, v)| (k.to_string(), v)).collect())
}

fn arr(items: Vec<JsonValue>) -> JsonValue {
    JsonValue::Array(items)
}

fn post(uri_path: &str, body: &JsonValue) -> HttpRequest {
    HttpRequest {
        method: "POST".to_string(),
        path: uri_path.to_string(),
        queries: vec![],
        headers: vec![],
        body: Some(json_clone(body)),
    }
}

/// In these comparisons the request that produced the exchange carried the
/// actual value as its body.
fn verify(name: &str, actual: JsonValue, expected: JsonValue) {
    verify_with_uri(name, actual, expected, "/")
}

fn verify_with_uri(name: &str, actual: JsonValue, expected: JsonValue, uri_path: &str) {
    let req = post(uri_path, &actual);
    let r = JsonBodyTemplatingVerifier { actual, expected }.verify(name, &req);
    assert!(r.is_ok());
}

fn verify_err(name: &str, actual: JsonValue, expected: JsonValue) -> stubr::verify::VerificationFailure {
    let req = post("/", &actual);
    let r = JsonBodyTemplatingVerifier { actual, expected }.verify(name, &req);
    r.err().expect("verification should have failed")
}

#[test]
fn should_verify_json_body() {
    verify(
        "json",
        obj(vec![("name", s("alice"))]),
        obj(vec![("name", s("{{jsonPath request.body '$.name'}}"))]),
    )
}

#[test]
fn should_verify_json_body_from_path_segments() {
    verify_with_uri(
        "json",
        obj(vec![("id", JsonValue::Int(1))]),
        obj(vec![("id", s("{{request.pathSegments.[0]}}"))]),
        "/1",
    )
}

#[test]
fn should_fail_verifying_json_when_not_eq() {
    let actual = obj(vec![("name", s("bob"))]);
    let expected = obj(vec![("name", s("{{jsonPath request.body '$.name'}}"))]);
    let req = post("/", &obj(vec![("name", s("alice"))]));
    let r = JsonBodyTemplatingVerifier { actual, expected }.verify("json", &req);
    let f = r.err().expect("verification should have failed");
    assert_eq!(f.stub, "json");
    match f.kind {
        VerificationErrorKind::PathFieldMismatch { field, expected, actual } => {
            assert_eq!(field, "name");
            assert!(matches!(expected, JsonValue::Str(x) if x == "alice"));
            assert!(matches!(actual, JsonValue::Str(x) if x == "bob"));
        },
        _ => panic!("wrong failure kind"),
    }
}

#[test]
fn should_verify_json_regardless_json_obj_key_order() {
    verify(
        "any",
        obj(vec![("name", s("john")), ("country", s("FR"))]),
        obj(vec![("name", s("{{anyNonBlankString}}")), ("country", s("{{anyNonBlankString}}"))]),
    )
}

#[test]
fn should_verify_nested_templated() {
    verify(
        "any",
        obj(vec![("country", obj(vec![("name", s("FR")), ("population", JsonValue::Int(69000000))]))]),
        obj(vec![("country", obj(vec![("name", s("{{anyNonBlankString}}")), ("population", JsonValue::Int(69000000))]))]),
    )
}

#[test]
fn verify_nested_templated_should_fail_when_not_eq() {
    let f = verify_err(
        "any",
        obj(vec![("country", obj(vec![("name", s(" ")), ("population", JsonValue::Int(69000000))]))]),
        obj(vec![("country", obj(vec![("name", s("{{anyNonBlankString}}")), ("population", JsonValue::Int(69000000))]))]),
    );
    assert_eq!(f.stub, "any");
    match f.kind {
        VerificationErrorKind::MarkerMismatch { marker, actual } => {
            assert_eq!(marker, "{{anyNonBlankString}}");
            assert!(matches!(actual, JsonValue::Str(x) if x == " "));
        },
        _ => panic!("wrong failure kind"),
    }
}

#[test]
fn should_verify_json_for_not_templated_values() {
    verify(
        "any",
        obj(vec![("name", s("john")), ("country", s("FR"))]),
        obj(vec![("name", s("{{anyNonBlankString}}")), ("country", s("FR"))]),
    )
}

#[test]
fn verify_json_should_fail_when_not_templated_not_eq() {
    let f = verify_err(
        "any",
        obj(vec![("name", s("john")), ("country", s("FR"))]),
        obj(vec![("name", s("{{anyNonBlankString}}")), ("country", s("UK"))]),
    );
    match f.kind {
        VerificationErrorKind::FieldMismatch { expected, actual } => {
            assert!(matches!(expected, JsonValue::Str(x) if x == "UK"));
            assert!(matches!(actual, JsonValue::Str(x) if x == "FR"));
        },
        _ => panic!("wrong failure kind"),
    }
}

#[test]
fn verify_json_fail_when_keys_mismatch() {
    let f = verify_err(
        "any",
        obj(vec![("name", s("john")), ("pays", s("FR"))]),
        obj(vec![("name", s("{{anyRegex '[a-z]+'}}")), ("country", s("{{anyRegex '[A-Z]{2}'}}"))]),
    );
    assert_eq!(f.stub, "any");
    match f.kind {
        VerificationErrorKind::AbsentFields(fields) => {
            assert_eq!(fields.len(), 1);
            assert_eq!(fields[0].0, "country");
            assert!(matches!(&fields[0].1, JsonValue::Str(x) if x == "{{anyRegex '[A-Z]{2}'}}"));
        },
        _ => panic!("wrong failure kind"),
    }
}

#[test]
fn verify_json_should_not_fail_when_interleaved_key() {
    verify(
        "any",
        obj(vec![("name", s("john")), ("age", JsonValue::Int(42)), ("country", s("FR"))]),
        obj(vec![("name", s("{{anyRegex '[a-z]+'}}")), ("country", s("{{anyRegex '[A-Z]{2}'}}"))]),
    )
}

#[test]
fn verify_json_should_fail_when_more_keys_expected_than_present() {
    let f = verify_err(
        "any",
        obj(vec![("name", s("john"))]),
        obj(vec![("name", s("{{anyRegex '[a-z]+'}}")), ("country", s("{{anyRegex '[A-Z]{2}'}}"))]),
    );
    assert!(matches!(f.kind, VerificationErrorKind::AbsentFields(fields) if fields.len() == 1));
}

#[test]
fn should_verify_when_both_empty() {
    verify("any", obj(vec![]), obj(vec![]));
}

#[test]
fn should_verify_json_arrays() {
    verify("any", arr(vec![s("alice")]), arr(vec![s("{{anyNonBlankString}}")]))
}

#[test]
fn verify_json_arrays_should_fail_when_not_match() {
    let f = verify_err("any", arr(vec![s(" ")]), arr(vec![s("{{anyNonBlankString}}")]));
    assert!(matches!(f.kind, VerificationErrorKind::MarkerMismatch { marker, .. } if marker == "{{anyNonBlankString}}"));
}

#[test]
fn verify_json_arrays_should_not_fail_when_more_than_expected() {
    verify("any", arr(vec![s("alice"), s("bob")]), arr(vec![s("{{anyNonBlankString}}")]))
}

#[test]
fn verify_json_arrays_should_fail_expected_absent() {
    let f = verify_err(
        "any",
        arr(vec![s("alice")]),
        arr(vec![s("{{anyNonBlankString}}"), s("{{anyNonBlankString}}")]),
    );
    match f.kind {
        VerificationErrorKind::ElementCount { expected, actual } => {
            assert_eq!(expected, 2);
            assert_eq!(actual, 1);
        },
        _ => panic!("wrong failure kind"),
    }
}

#[test]
fn mod_should_verify_when_both_empty() {
    verify("any", arr(vec![]), arr(vec![]));
}

#[test]
fn verify_should_fail_when_different_types() {
    let f = verify_err("any", arr(vec![s("alice")]), obj(vec![("name", s("{{anyNonBlankString}}"))]));
    assert!(matches!(f.kind, VerificationErrorKind::TypeMismatch { .. }));
}

#[test]
fn should_verify_json_partially_with_any_regex() {
    verify(
        "regex",
        obj(vec![("name", s("john")), ("country", s("FR"))]),
        obj(vec![("name", s("{{anyRegex '[a-z]+'}}")), ("country", s("{{anyRegex '^[A-Z]{2}$'}}"))]),
    )
}

#[test]
fn verify_json_partially_with_any_regex_should_fail() {
    let f = verify_err(
        "regex",
        obj(vec![("name", s("john")), ("country", s("FRANCE"))]),
        obj(vec![("name", s("john")), ("country", s("{{anyRegex '^[A-Z]{2}$'}}"))]),
    );
    assert_eq!(f.stub, "regex");
    match f.kind {
        VerificationErrorKind::MarkerMismatch { marker, actual } => {
            assert_eq!(marker, "^[A-Z]{2}$");
            assert!(matches!(actual, JsonValue::Str(x) if x == "FRANCE"));
        },
        _ => panic!("wrong failure kind"),
    }
}

#[test]
fn verify_json_should_fail_when_not_templated_obj_not_eq() {
    let f = verify_err(
        "any",
        obj(vec![("name", s("john")), ("country", obj(vec![("name", s("FR"))]))]),
        obj(vec![("name", s("{{anyNonBlankString}}")), ("country", obj(vec![("name", s("UK"))]))]),
    );
    match f.kind {
        VerificationErrorKind::FieldMismatch { expected, actual } => {
            assert!(matches!(expected, JsonValue::Str(x) if x == "UK"));
            assert!(matches!(actual, JsonValue::Str(x) if x == "FR"));
        },
        _ => panic!("wrong failure kind"),
    }
}

#[test]
fn invalid_regex_marker_is_reported() {
    let f = verify_err("bad", obj(vec![("name", s("john"))]), obj(vec![("name", s("{{anyRegex '('}}"))]));
    assert!(matches!(f.kind, VerificationErrorKind::InvalidRegex { pattern } if pattern == "("));
}
