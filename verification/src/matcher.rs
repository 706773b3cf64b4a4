//! Satisfaction of a stub's request predicate by an inbound request: the
//! per-rule matching semantics (exact, contains, case-insensitive, regex,
//! canonical scalar comparison) and their composition.

use vstd::prelude::*;

use crate::json::{json_canon_eq, json_canon_value_eq, JsonValue};
use crate::model::{
    spec_equal_to_as_str, spec_is_case_insensitive, spec_is_contains, spec_is_equal_to,
    BodyPatternDto, RequestMatcherDto, RequestStub,
};
use crate::pattern::{regex_is_match, regex_match, regex_valid};
use crate::text::{chars_ci_eq, contains_str, str_ci_eq, str_contains, str_eq};

verus! {

/// An inbound HTTP request, reduced to the values the engine reads: a header
/// name may carry several values; the body, when it was JSON, is parsed.
#[derive(Debug)]
pub struct HttpRequest {
    pub method: String,
    pub path: String,
    pub queries: Vec<(String, String)>,
    pub headers: Vec<(String, Vec<String>)>,
    pub body: Option<JsonValue>,
}

/// The matcher constrains nothing: no expected value and no (non-empty)
/// substring pattern. Such a matcher is satisfied by anything.
pub open spec fn spec_constraint_free(m: RequestMatcherDto) -> bool {
    !spec_is_equal_to(m) && !spec_is_contains(m)
}

/// One actual value satisfies the matcher's value constraints: the substring
/// pattern occurs in it, and it equals the canonical rendering of the expected
/// value (case-folded when the matcher says so). An expected value with no
/// canonical rendering (null, array, object) is never equalled.
pub open spec fn spec_value_ok(m: RequestMatcherDto, actual: Seq<char>) -> bool {
    &&& (spec_is_contains(m) ==> str_contains(actual, m.value->0.contains->0@))
    &&& (spec_is_equal_to(m) ==> match spec_equal_to_as_str(m) {
        Some(c) => if spec_is_case_insensitive(m) {
            chars_ci_eq(actual, c)
        } else {
            actual == c
        },
        None => false,
    })
}

pub fn value_ok(m: &RequestMatcherDto, actual: &str) -> (r: bool)
    ensures
        r == spec_value_ok(*m, actual@),
{
    let contains_ok: bool = match &m.value {
        Some(v) => match &v.contains {
            Some(c) => {
                if c.as_str().unicode_len() > 0 {
                    contains_str(actual, c.as_str())
                } else {
                    true
                }
            },
            None => true,
        },
        None => true,
    };
    if !contains_ok {
        return false;
    }
    match m.equal_to_as_str() {
        Some(c) => {
            if m.is_case_insensitive() {
                str_ci_eq(actual, c.as_str())
            } else {
                str_eq(actual, c.as_str())
            }
        },
        None => !m.is_equal_to(),
    }
}

/// A header matcher is satisfied when it constrains nothing, or when some
/// value of some header whose name equals the matcher's key (header names
/// compare case-insensitively) satisfies the value constraints.
pub open spec fn spec_header_matcher_ok(
    m: RequestMatcherDto,
    headers: Seq<(String, Vec<String>)>,
) -> bool {
    spec_constraint_free(m) || exists|i: int, j: int|
        {
            &&& 0 <= i < headers.len()
            &&& chars_ci_eq(headers[i].0@, m.key@)
            &&& 0 <= j < headers[i].1@.len()
            &&& spec_value_ok(m, #[trigger] headers[i].1@[j]@)
        }
}

pub fn header_matcher_ok(m: &RequestMatcherDto, headers: &Vec<(String, Vec<String>)>) -> (r: bool)
    ensures
        r == spec_header_matcher_ok(*m, headers@),
{
    if !m.is_equal_to() && !m.is_contains() {
        return true;
    }
    let mut i: usize = 0;
    while i < headers.len()
        invariant
            i <= headers@.len(),
            forall|i0: int, j0: int|
                0 <= i0 < i && 0 <= j0 < headers@[i0].1@.len() ==> !(chars_ci_eq(
                    headers@[i0].0@,
                    m.key@,
                ) && spec_value_ok(*m, #[trigger] headers@[i0].1@[j0]@)),
        decreases headers@.len() - i,
    {
        let (name, values) = &headers[i];
        if str_ci_eq(name.as_str(), m.key.as_str()) {
            let mut j: usize = 0;
            while j < values.len()
                invariant
                    j <= values@.len(),
                    chars_ci_eq(name@, m.key@),
                    headers@[i as int].0 == *name,
                    headers@[i as int].1 == *values,
                    i < headers@.len(),
                    forall|j0: int|
                        0 <= j0 < j ==> !spec_value_ok(*m, #[trigger] values@[j0]@),
                decreases values@.len() - j,
            {
                if value_ok(m, values[j].as_str()) {
                    return true;
                }
                j = j + 1;
            }
        }
        i = i + 1;
    }
    false
}

/// A query matcher is satisfied when it constrains nothing, or when some query
/// parameter with exactly the matcher's key has a satisfying value.
pub open spec fn spec_query_matcher_ok(
    m: RequestMatcherDto,
    queries: Seq<(String, String)>,
) -> bool {
    spec_constraint_free(m) || exists|i: int|
        {
            &&& 0 <= i < queries.len()
            &&& (#[trigger] queries[i]).0@ == m.key@
            &&& spec_value_ok(m, queries[i].1@)
        }
}

pub fn query_matcher_ok(m: &RequestMatcherDto, queries: &Vec<(String, String)>) -> (r: bool)
    ensures
        r == spec_query_matcher_ok(*m, queries@),
{
    if !m.is_equal_to() && !m.is_contains() {
        return true;
    }
    let mut i: usize = 0;
    while i < queries.len()
        invariant
            i <= queries@.len(),
            forall|i0: int|
                0 <= i0 < i ==> !((#[trigger] queries@[i0]).0@ == m.key@ && spec_value_ok(
                    *m,
                    queries@[i0].1@,
                )),
        decreases queries@.len() - i,
    {
        let (name, value) = &queries[i];
        if str_eq(name.as_str(), m.key.as_str()) {
            if value_ok(m, value.as_str()) {
                return true;
            }
        }
        i = i + 1;
    }
    false
}

/// A body pattern is satisfied when it declares no expected document, or the
/// request body is JSON and canonically deep-equals the expected document.
pub open spec fn spec_body_pattern_ok(p: BodyPatternDto, body: Option<JsonValue>) -> bool {
    match p.equal_to_json {
        None => true,
        Some(e) => body is Some && json_canon_eq(e, body->0),
    }
}

pub fn body_pattern_ok(p: &BodyPatternDto, body: &Option<JsonValue>) -> (r: bool)
    ensures
        r == spec_body_pattern_ok(*p, *body),
{
    match &p.equal_to_json {
        None => true,
        Some(e) => match body {
            Some(b) => json_canon_value_eq(e, b),
            None => false,
        },
    }
}

/// The whole request predicate of a stub is satisfied: method equal, path
/// matcher satisfied, and every declared header, query and body matcher
/// satisfied.
pub open spec fn spec_predicate_satisfied(req: HttpRequest, s: RequestStub) -> bool {
    &&& req.method@ == s.method@
    &&& (s.url_path is Some ==> req.path@ == s.url_path->0@)
    &&& (s.url_path_pattern is Some ==> regex_valid(s.url_path_pattern->0@) && regex_match(
        s.url_path_pattern->0@,
        req.path@,
    ))
    &&& (forall|i: int|
        0 <= i < s.headers@.len() ==> spec_header_matcher_ok(#[trigger] s.headers@[i], req.headers@))
    &&& (forall|i: int|
        0 <= i < s.query_parameters@.len() ==> spec_query_matcher_ok(
            #[trigger] s.query_parameters@[i],
            req.queries@,
        ))
    &&& (forall|i: int|
        0 <= i < s.body_patterns@.len() ==> spec_body_pattern_ok(
            #[trigger] s.body_patterns@[i],
            req.body,
        ))
}

pub fn predicate_satisfied(req: &HttpRequest, s: &RequestStub) -> (r: bool)
    ensures
        r == spec_predicate_satisfied(*req, *s),
{
    if !str_eq(req.method.as_str(), s.method.as_str()) {
        return false;
    }
    match &s.url_path {
        Some(p) => {
            if !str_eq(req.path.as_str(), p.as_str()) {
                return false;
            }
        },
        None => {},
    }
    match &s.url_path_pattern {
        Some(p) => {
            match regex_is_match(p.as_str(), req.path.as_str()) {
                Some(true) => {},
                _ => {
                    return false;
                },
            }
        },
        None => {},
    }
    let mut i: usize = 0;
    while i < s.headers.len()
        invariant
            i <= s.headers@.len(),
            forall|j: int|
                0 <= j < i ==> spec_header_matcher_ok(#[trigger] s.headers@[j], req.headers@),
        decreases s.headers@.len() - i,
    {
        if !header_matcher_ok(&s.headers[i], &req.headers) {
            return false;
        }
        i = i + 1;
    }
    let mut i: usize = 0;
    while i < s.query_parameters.len()
        invariant
            i <= s.query_parameters@.len(),
            forall|j: int|
                0 <= j < i ==> spec_query_matcher_ok(
                    #[trigger] s.query_parameters@[j],
                    req.queries@,
                ),
        decreases s.query_parameters@.len() - i,
    {
        if !query_matcher_ok(&s.query_parameters[i], &req.queries) {
            return false;
        }
        i = i + 1;
    }
    let mut i: usize = 0;
    while i < s.body_patterns.len()
        invariant
            i <= s.body_patterns@.len(),
            forall|j: int|
                0 <= j < i ==> spec_body_pattern_ok(#[trigger] s.body_patterns@[j], req.body),
        decreases s.body_patterns@.len() - i,
    {
        if !body_pattern_ok(&s.body_patterns[i], &req.body) {
            return false;
        }
        i = i + 1;
    }
    true
}

/// A matcher on one header name that succeeds when any value of that header
/// equals the expected string up to ASCII letter case.
#[derive(Debug)]
pub struct HeaderCaseInsensitiveMatcher(pub String, pub String);

pub fn header_case_insensitive(key: String, value: String) -> (r: HeaderCaseInsensitiveMatcher)
    ensures
        r.0@ == key@,
        r.1@ == value@,
{
    HeaderCaseInsensitiveMatcher(key, value)
}

pub open spec fn spec_ci_header_match(
    m: HeaderCaseInsensitiveMatcher,
    headers: Seq<(String, Vec<String>)>,
) -> bool {
    exists|i: int, j: int|
        {
            &&& 0 <= i < headers.len()
            &&& chars_ci_eq(headers[i].0@, m.0@)
            &&& 0 <= j < headers[i].1@.len()
            &&& chars_ci_eq(#[trigger] headers[i].1@[j]@, m.1@)
        }
}

impl HeaderCaseInsensitiveMatcher {
    /// The request carries a header with this matcher's name (names compare
    /// case-insensitively) one of whose values equals the expected value up to
    /// ASCII letter case.
    pub fn matches(&self, request: &HttpRequest) -> (r: bool)
        ensures
            r == spec_ci_header_match(*self, request.headers@),
    {
        let mut i: usize = 0;
        while i < request.headers.len()
            invariant
                i <= request.headers@.len(),
                forall|i0: int, j0: int|
                    0 <= i0 < i && 0 <= j0 < request.headers@[i0].1@.len() ==> !(chars_ci_eq(
                        request.headers@[i0].0@,
                        self.0@,
                    ) && chars_ci_eq(#[trigger] request.headers@[i0].1@[j0]@, self.1@)),
            decreases request.headers@.len() - i,
        {
            let (name, values) = &request.headers[i];
            if str_ci_eq(name.as_str(), self.0.as_str()) {
                let mut j: usize = 0;
                while j < values.len()
                    invariant
                        j <= values@.len(),
                        chars_ci_eq(name@, self.0@),
                        request.headers@[i as int].0 == *name,
                        request.headers@[i as int].1 == *values,
                        i < request.headers@.len(),
                        forall|j0: int|
                            0 <= j0 < j ==> !chars_ci_eq(#[trigger] values@[j0]@, self.1@),
                    decreases values@.len() - j,
                {
                    if str_ci_eq(values[j].as_str(), self.1.as_str()) {
                        return true;
                    }
                    j = j + 1;
                }
            }
            i = i + 1;
        }
        false
    }

    /// Builds the matcher from a header matcher that is declared
    /// case-insensitive and carries a scalar expected value; anything else has
    /// no case-insensitive form.
    pub fn try_from_matcher(h: &RequestMatcherDto) -> (r: Option<HeaderCaseInsensitiveMatcher>)
        ensures
            match r {
                Some(m) => {
                    &&& spec_is_case_insensitive(*h)
                    &&& m.0@ == h.key@
                    &&& spec_equal_to_as_str(*h) == Some(m.1@)
                },
                None => !(spec_is_case_insensitive(*h) && spec_equal_to_as_str(*h) is Some),
            },
    {
        if !h.is_case_insensitive() {
            return None;
        }
        match h.equal_to_as_str() {
            Some(v) => Some(HeaderCaseInsensitiveMatcher(h.key.clone(), v)),
            None => None,
        }
    }
}

/// The (name, expected value) pairs of the case-insensitive matchers among
/// the given header matchers, in declaration order: one pair for each matcher
/// that is declared case-insensitive and has a scalar expected value.
pub open spec fn spec_ci_pairs(headers: Seq<RequestMatcherDto>) -> Seq<(Seq<char>, Seq<char>)>
    decreases headers.len(),
{
    if headers.len() == 0 {
        Seq::empty()
    } else {
        let init = spec_ci_pairs(headers.drop_last());
        let h = headers.last();
        if spec_is_case_insensitive(h) && spec_equal_to_as_str(h) is Some {
            init.push((h.key@, spec_equal_to_as_str(h)->0))
        } else {
            init
        }
    }
}

/// The case-insensitive matchers derived from a stub's header matchers: one
/// for each declared header matcher that has a case-insensitive scalar
/// expectation, in declaration order.
pub fn case_insensitive_matchers(headers: &Vec<RequestMatcherDto>) -> (r: Vec<
    HeaderCaseInsensitiveMatcher,
>)
    ensures
        r@.map(|k: int, m: HeaderCaseInsensitiveMatcher| (m.0@, m.1@)) == spec_ci_pairs(headers@),
{
    let mut out: Vec<HeaderCaseInsensitiveMatcher> = Vec::new();
    let mut i: usize = 0;
    while i < headers.len()
        invariant
            i <= headers@.len(),
            out@.map(|k: int, m: HeaderCaseInsensitiveMatcher| (m.0@, m.1@)) == spec_ci_pairs(
                headers@.take(i as int),
            ),
        decreases headers@.len() - i,
    {
        let ghost prev = out@;
        match HeaderCaseInsensitiveMatcher::try_from_matcher(&headers[i]) {
            Some(m) => {
                proof {
                    assert(headers@.take(i + 1).drop_last() =~= headers@.take(i as int));
                    assert(headers@.take(i + 1).last() == headers@[i as int]);
                }
                out.push(m);
                proof {
                    assert(out@.map(|k: int, m0: HeaderCaseInsensitiveMatcher| (m0.0@, m0.1@))
                        =~= spec_ci_pairs(headers@.take(i + 1)));
                }
            },
            None => {
                proof {
                    assert(headers@.take(i + 1).drop_last() =~= headers@.take(i as int));
                    assert(headers@.take(i + 1).last() == headers@[i as int]);
                }
            },
        }
        i = i + 1;
    }
    proof {
        assert(headers@.take(headers@.len() as int) =~= headers@);
    }
    out
}

} // verus!
