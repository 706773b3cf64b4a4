use stubr::matcher::{header_case_insensitive, HttpRequest};
use stubr::text::{contains_str, find_str, i64_to_string, str_ci_eq, str_lex_le, u64_to_string};

#[test]
fn decimal_rendering_is_exact() {
    assert_eq!(u64_to_string(0), "0");
    assert_eq!(u64_to_string(7), "7");
    assert_eq!(u64_to_string(10255), "10255");
    assert_eq!(u64_to_string(u64::MAX), "18446744073709551615");
    assert_eq!(i64_to_string(-42), "-42");
    assert_eq!(i64_to_string(i64::MIN), "-9223372036854775808");
}

#[test]
fn substring_search_finds_first_occurrence() {
    assert_eq!(find_str("concatenation", "cat"), Some(3));
    assert_eq!(find_str("dog", "cat"), None);
    assert!(contains_str("anything", ""));
    assert!(contains_str("{{marker}}", "{{"));
}

#[test]
fn ascii_case_insensitive_equality() {
    assert!(str_ci_eq("Content-Type", "content-type"));
    assert!(str_ci_eq("SECRET", "secret"));
    assert!(!str_ci_eq("secret", "secrets"));
    assert!(!str_ci_eq("secret", "sacred"));
}

#[test]
fn lexicographic_order_on_names() {
    assert!(str_lex_le("a.json", "b.json"));
    assert!(!str_lex_le("b.json", "a.json"));
    assert!(str_lex_le("a", "a.json"));
    assert!(str_lex_le("same", "same"));
}

#[test]
fn case_insensitive_header_matcher_scenario() {
    let m = header_case_insensitive("X-Token".to_string(), "Secret".to_string());
    let req = |value: &str| HttpRequest {
        method: "GET".to_string(),
        path: "/".to_string(),
        queries: vec![],
        headers: vec![("x-token".to_string(), vec![value.to_string()])],
        body: None,
    };
    assert!(m.matches(&req("SECRET")));
    assert!(m.matches(&req("secret")));
    assert!(m.matches(&req("Secret")));
    assert!(!m.matches(&req("other")));
}

#[test]
fn header_matcher_accepts_any_one_of_several_values() {
    let m = header_case_insensitive("accept".to_string(), "application/json".to_string());
    let req = HttpRequest {
        method: "GET".to_string(),
        path: "/".to_string(),
        queries: vec![],
        headers: vec![(
            "Accept".to_string(),
            vec!["text/html".to_string(), "APPLICATION/JSON".to_string()],
        )],
        body: None,
    };
    assert!(m.matches(&req));
}
