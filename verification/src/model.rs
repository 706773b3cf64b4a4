//! The stub data model: one parsed stub file, its request predicate and its
//! response specification, and the server configuration knobs.

use vstd::prelude::*;

use crate::json::{canon_scalar, canon_scalar_string, JsonValue};

verus! {

/// The value constraint of one request matcher: an expected value, a
/// case-sensitivity flag and a substring pattern, each optional.
#[derive(Debug)]
pub struct MatcherValueDto {
    pub equal_to: Option<JsonValue>,
    pub case_insensitive: Option<bool>,
    pub contains: Option<String>,
}

/// One request matcher: a header or query-parameter name together with its
/// value constraint. An absent or empty constraint matches anything.
#[derive(Debug)]
pub struct RequestMatcherDto {
    pub key: String,
    pub value: Option<MatcherValueDto>,
}

pub open spec fn spec_is_equal_to(m: RequestMatcherDto) -> bool {
    m.value is Some && m.value->0.equal_to is Some
}

pub open spec fn spec_is_case_insensitive(m: RequestMatcherDto) -> bool {
    m.value is Some && m.value->0.case_insensitive == Some(true)
}

pub open spec fn spec_is_contains(m: RequestMatcherDto) -> bool {
    m.value is Some && m.value->0.contains is Some && m.value->0.contains->0@.len() > 0
}

pub open spec fn spec_is_exact_match(m: RequestMatcherDto) -> bool {
    spec_is_equal_to(m) && !spec_is_case_insensitive(m) && !spec_is_contains(m)
}

pub open spec fn spec_equal_to_as_str(m: RequestMatcherDto) -> Option<Seq<char>> {
    if spec_is_equal_to(m) {
        canon_scalar(m.value->0.equal_to->0)
    } else {
        None
    }
}

impl RequestMatcherDto {
    /// Only a plain value-equality is set: not case-insensitive, no substring.
    pub fn is_exact_match(&self) -> (r: bool)
        ensures
            r == spec_is_exact_match(*self),
    {
        self.is_equal_to() && !self.is_case_insensitive() && !self.is_contains()
    }

    pub fn is_equal_to(&self) -> (r: bool)
        ensures
            r == spec_is_equal_to(*self),
    {
        match &self.value {
            Some(v) => v.equal_to.is_some(),
            None => false,
        }
    }

    pub fn is_case_insensitive(&self) -> (r: bool)
        ensures
            r == spec_is_case_insensitive(*self),
    {
        match &self.value {
            Some(v) => match v.case_insensitive {
                Some(b) => b,
                None => false,
            },
            None => false,
        }
    }

    /// A substring constraint is set and non-empty; an empty pattern counts
    /// as no constraint at all.
    pub fn is_contains(&self) -> (r: bool)
        ensures
            r == spec_is_contains(*self),
    {
        match &self.value {
            Some(v) => match &v.contains {
                Some(c) => c.as_str().unicode_len() > 0,
                None => false,
            },
            None => false,
        }
    }

    /// The canonical string rendering of the expected value, when the expected
    /// value is a scalar.
    pub fn equal_to_as_str(&self) -> (r: Option<String>)
        ensures
            match r {
                Some(s) => spec_equal_to_as_str(*self) == Some(s@),
                None => spec_equal_to_as_str(*self) is None,
            },
    {
        match &self.value {
            Some(v) => match &v.equal_to {
                Some(e) => canon_scalar_string(e),
                None => None,
            },
            None => None,
        }
    }
}

/// One body predicate of a stub: the request body must deep-equal the given
/// JSON document (scalars compared by their canonical rendering).
#[derive(Debug)]
pub struct BodyPatternDto {
    pub equal_to_json: Option<JsonValue>,
}

/// The request predicate of a stub.
#[derive(Debug)]
pub struct RequestStub {
    pub method: String,
    pub url_path: Option<String>,
    pub url_path_pattern: Option<String>,
    pub headers: Vec<RequestMatcherDto>,
    pub query_parameters: Vec<RequestMatcherDto>,
    pub body_patterns: Vec<BodyPatternDto>,
}

/// The body of a response specification: either a literal string or a JSON
/// document (at most one of the two is set).
#[derive(Debug)]
pub struct BodyDto {
    pub body: Option<String>,
    pub json_body: Option<JsonValue>,
}

/// The response specification of a stub: what to answer when the predicate
/// matches, and, when verifying, the expectation template.
#[derive(Debug)]
pub struct ResponseDto {
    pub status: u16,
    pub headers: Vec<(String, String)>,
    pub body: BodyDto,
    pub fixed_delay_milliseconds: Option<u64>,
}

/// One parsed stub file. `priority` always carries a value: the default is
/// applied when the file is parsed.
#[derive(Debug)]
pub struct JsonStub {
    pub id: Option<String>,
    pub uuid: Option<String>,
    pub priority: u8,
    pub expect: Option<u64>,
    pub request: RequestStub,
    pub response: ResponseDto,
}

impl Default for JsonStub {
    fn default() -> (r: Self)
        ensures
            r.id is None,
            r.uuid is None,
            r.priority == crate::DEFAULT_PRIORITY,
            r.expect is None,
            r.request.url_path is None,
            r.request.url_path_pattern is None,
            r.request.headers@.len() == 0,
            r.request.query_parameters@.len() == 0,
            r.request.body_patterns@.len() == 0,
            r.response.status == 200,
            r.response.headers@.len() == 0,
            r.response.body.body is None,
            r.response.body.json_body is None,
            r.response.fixed_delay_milliseconds is None,
    {
        JsonStub {
            id: None,
            uuid: None,
            priority: crate::DEFAULT_PRIORITY,
            expect: None,
            request: RequestStub {
                method: String::new(),
                url_path: None,
                url_path_pattern: None,
                headers: Vec::new(),
                query_parameters: Vec::new(),
                body_patterns: Vec::new(),
            },
            response: ResponseDto {
                status: 200,
                headers: Vec::new(),
                body: BodyDto { body: None, json_body: None },
                fixed_delay_milliseconds: None,
            },
        }
    }
}

/// Server configuration: the listening port, the default response delay used
/// when a stub declares none, the always-added latency, and whether expected
/// call counts are tracked.
#[derive(Debug)]
pub struct Config {
    pub port: Option<u16>,
    pub global_delay: Option<u64>,
    pub latency: Option<u64>,
    pub verify: bool,
}

impl Default for Config {
    fn default() -> (r: Self)
        ensures
            r.port is None,
            r.global_delay is None,
            r.latency is None,
            !r.verify,
    {
        Config { port: None, global_delay: None, latency: None, verify: false }
    }
}

} // verus!
