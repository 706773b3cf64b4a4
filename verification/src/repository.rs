//! The stub repository: parsing one stub document into the data model, and
//! loading a whole directory snapshot — files ordered lexicographically by
//! name so tie-breaks are reproducible, files that do not parse skipped.

use vstd::prelude::*;

use crate::json::{
    canon_scalar, canon_scalar_string, json_clone, json_eq, key_index, object_value, object_get,
    JsonValue,
};
use crate::model::{
    BodyDto, BodyPatternDto, JsonStub, MatcherValueDto, RequestMatcherDto, RequestStub, ResponseDto,
};
use crate::text::{lex_le, str_lex_le};

verus! {

/// Why one stub file was skipped.
#[derive(Debug, PartialEq, Eq, Structural)]
pub enum StubLoadError {
    NotAnObject,
    MissingRequest,
    BadRequest,
    MissingResponse,
    BadResponse,
}

/// A matcher value parses from an object member's value: a non-object value
/// parses to no constraint at all.
pub open spec fn matcher_value_rel(v: JsonValue, m: Option<MatcherValueDto>) -> bool {
    match v {
        JsonValue::Object(ms) => m is Some && {
            let mv = m->0;
            &&& (match object_value(ms@, "equalTo"@) {
                Some(x) => mv.equal_to is Some && json_eq(mv.equal_to->0, x),
                None => mv.equal_to is None,
            })
            &&& (match object_value(ms@, "caseInsensitive"@) {
                Some(JsonValue::Bool(b)) => mv.case_insensitive == Some(b),
                _ => mv.case_insensitive is None,
            })
            &&& (match object_value(ms@, "contains"@) {
                Some(JsonValue::Str(s)) => mv.contains is Some && mv.contains->0@ == s@,
                _ => mv.contains is None,
            })
        },
        _ => m is None,
    }
}

/// The matchers parsed from a `headers` / `queryParameters` object: one per
/// member, in order; anything that is not an object parses to no matchers.
pub open spec fn matchers_rel(h: JsonValue, out: Seq<RequestMatcherDto>) -> bool {
    match h {
        JsonValue::Object(ms) => {
            &&& out.len() == ms@.len()
            &&& forall|i: int|
                0 <= i < ms@.len() ==> (#[trigger] out[i]).key@ == ms@[i].0@ && matcher_value_rel(
                    ms@[i].1,
                    out[i].value,
                )
        },
        _ => out.len() == 0,
    }
}

pub open spec fn body_pattern_rel(x: JsonValue, p: BodyPatternDto) -> bool {
    match x {
        JsonValue::Object(ms) => match object_value(ms@, "equalToJson"@) {
            Some(e) => p.equal_to_json is Some && json_eq(p.equal_to_json->0, e),
            None => p.equal_to_json is None,
        },
        _ => p.equal_to_json is None,
    }
}

pub open spec fn body_patterns_rel(b: JsonValue, out: Seq<BodyPatternDto>) -> bool {
    match b {
        JsonValue::Array(xs) => {
            &&& out.len() == xs@.len()
            &&& forall|i: int| 0 <= i < xs@.len() ==> body_pattern_rel(xs@[i], #[trigger] out[i])
        },
        _ => out.len() == 0,
    }
}

/// The request section parses: it is an object with a string `method`.
pub open spec fn request_wf(v: JsonValue) -> bool {
    &&& v is Object
    &&& object_value(v->Object_0@, "method"@) matches Some(JsonValue::Str(_))
}

pub open spec fn request_rel(v: JsonValue, r: RequestStub) -> bool {
    &&& request_wf(v)
    &&& {
        let ms = v->Object_0@;
        &&& (match object_value(ms, "method"@) {
            Some(JsonValue::Str(s)) => r.method@ == s@,
            _ => false,
        })
        &&& (match object_value(ms, "urlPath"@) {
            Some(JsonValue::Str(s)) => r.url_path is Some && r.url_path->0@ == s@,
            _ => r.url_path is None,
        })
        &&& (match object_value(ms, "urlPathPattern"@) {
            Some(JsonValue::Str(s)) => r.url_path_pattern is Some && r.url_path_pattern->0@ == s@,
            _ => r.url_path_pattern is None,
        })
        &&& (match object_value(ms, "headers"@) {
            Some(h) => matchers_rel(h, r.headers@),
            None => r.headers@.len() == 0,
        })
        &&& (match object_value(ms, "queryParameters"@) {
            Some(q) => matchers_rel(q, r.query_parameters@),
            None => r.query_parameters@.len() == 0,
        })
        &&& (match object_value(ms, "bodyPatterns"@) {
            Some(b) => body_patterns_rel(b, r.body_patterns@),
            None => r.body_patterns@.len() == 0,
        })
    }
}

/// Response header pairs: the members whose value has a canonical scalar
/// rendering, rendered, in order.
pub open spec fn resp_header_pairs(ms: Seq<(String, JsonValue)>) -> Seq<(Seq<char>, Seq<char>)>
    decreases ms.len(),
{
    if ms.len() == 0 {
        Seq::empty()
    } else {
        let init = resp_header_pairs(ms.drop_last());
        match canon_scalar(ms.last().1) {
            Some(c) => init.push((ms.last().0@, c)),
            None => init,
        }
    }
}

pub open spec fn resp_headers_rel(h: JsonValue, out: Seq<(String, String)>) -> bool {
    match h {
        JsonValue::Object(ms) => out.map(|i: int, p: (String, String)| (p.0@, p.1@))
            == resp_header_pairs(ms@),
        _ => out.len() == 0,
    }
}

/// The response section parses: it is an object with an integer `status` that
/// fits a status code.
pub open spec fn response_wf(v: JsonValue) -> bool {
    &&& v is Object
    &&& (match object_value(v->Object_0@, "status"@) {
        Some(JsonValue::Int(k)) => 0 <= k <= 65535,
        _ => false,
    })
}

pub open spec fn response_rel(v: JsonValue, r: ResponseDto) -> bool {
    &&& response_wf(v)
    &&& {
        let ms = v->Object_0@;
        &&& (match object_value(ms, "status"@) {
            Some(JsonValue::Int(k)) => r.status == k,
            _ => false,
        })
        &&& (match object_value(ms, "headers"@) {
            Some(h) => resp_headers_rel(h, r.headers@),
            None => r.headers@.len() == 0,
        })
        &&& (match object_value(ms, "body"@) {
            Some(JsonValue::Str(s)) => r.body.body is Some && r.body.body->0@ == s@,
            _ => r.body.body is None,
        })
        &&& (match object_value(ms, "jsonBody"@) {
            Some(x) => r.body.json_body is Some && json_eq(r.body.json_body->0, x),
            None => r.body.json_body is None,
        })
        &&& (match object_value(ms, "fixedDelayMilliseconds"@) {
            Some(JsonValue::Int(k)) if k >= 0 => r.fixed_delay_milliseconds == Some(k as u64),
            _ => r.fixed_delay_milliseconds is None,
        })
    }
}

/// A whole stub document parses: an object with parseable `request` and
/// `response` sections.
pub open spec fn stub_wf(v: JsonValue) -> bool {
    &&& v is Object
    &&& (match object_value(v->Object_0@, "request"@) {
        Some(rq) => request_wf(rq),
        None => false,
    })
    &&& (match object_value(v->Object_0@, "response"@) {
        Some(rs) => response_wf(rs),
        None => false,
    })
}

/// The priority a document declares: an integer member within a byte's range,
/// the default otherwise.
pub open spec fn spec_priority(ms: Seq<(String, JsonValue)>) -> int {
    match object_value(ms, "priority"@) {
        Some(JsonValue::Int(k)) => if 0 <= k <= 255 {
            k as int
        } else {
            crate::DEFAULT_PRIORITY as int
        },
        _ => crate::DEFAULT_PRIORITY as int,
    }
}

/// The parsed stub renders the document faithfully.
pub open spec fn stub_parses(v: JsonValue, s: JsonStub) -> bool {
    &&& stub_wf(v)
    &&& {
        let ms = v->Object_0@;
        &&& (match object_value(ms, "request"@) {
            Some(rq) => request_rel(rq, s.request),
            None => false,
        })
        &&& (match object_value(ms, "response"@) {
            Some(rs) => response_rel(rs, s.response),
            None => false,
        })
        &&& (match object_value(ms, "id"@) {
            Some(JsonValue::Str(x)) => s.id is Some && s.id->0@ == x@,
            _ => s.id is None,
        })
        &&& (match object_value(ms, "uuid"@) {
            Some(JsonValue::Str(x)) => s.uuid is Some && s.uuid->0@ == x@,
            _ => s.uuid is None,
        })
        &&& s.priority == spec_priority(ms)
        &&& (match object_value(ms, "expect"@) {
            Some(JsonValue::Int(k)) if k >= 0 => s.expect == Some(k as u64),
            _ => s.expect is None,
        })
    }
}

fn parse_matcher_value(v: &JsonValue) -> (r: Option<MatcherValueDto>)
    ensures
        matcher_value_rel(*v, r),
{
    match v {
        JsonValue::Object(ms) => {
            let equal_to = match object_get(ms, "equalTo") {
                Some(x) => Some(json_clone(x)),
                None => None,
            };
            let case_insensitive = match object_get(ms, "caseInsensitive") {
                Some(JsonValue::Bool(b)) => Some(*b),
                _ => None,
            };
            let contains = match object_get(ms, "contains") {
                Some(JsonValue::Str(s)) => Some(s.clone()),
                _ => None,
            };
            Some(MatcherValueDto { equal_to, case_insensitive, contains })
        },
        _ => None,
    }
}

fn parse_matchers(h: &JsonValue) -> (r: Vec<RequestMatcherDto>)
    ensures
        matchers_rel(*h, r@),
{
    let mut out: Vec<RequestMatcherDto> = Vec::new();
    match h {
        JsonValue::Object(ms) => {
            let mut i: usize = 0;
            while i < ms.len()
                invariant
                    i <= ms@.len(),
                    out@.len() == i,
                    forall|j: int|
                        0 <= j < i ==> (#[trigger] out@[j]).key@ == ms@[j].0@ && matcher_value_rel(
                            ms@[j].1,
                            out@[j].value,
                        ),
                decreases ms@.len() - i,
            {
                let (k, v) = &ms[i];
                let value = parse_matcher_value(v);
                out.push(RequestMatcherDto { key: k.clone(), value });
                i = i + 1;
            }
            out
        },
        _ => out,
    }
}

fn parse_body_patterns(b: &JsonValue) -> (r: Vec<BodyPatternDto>)
    ensures
        body_patterns_rel(*b, r@),
{
    let mut out: Vec<BodyPatternDto> = Vec::new();
    match b {
        JsonValue::Array(xs) => {
            let mut i: usize = 0;
            while i < xs.len()
                invariant
                    i <= xs@.len(),
                    out@.len() == i,
                    forall|j: int| 0 <= j < i ==> body_pattern_rel(xs@[j], #[trigger] out@[j]),
                decreases xs@.len() - i,
            {
                let p = match &xs[i] {
                    JsonValue::Object(ms) => match object_get(ms, "equalToJson") {
                        Some(e) => BodyPatternDto { equal_to_json: Some(json_clone(e)) },
                        None => BodyPatternDto { equal_to_json: None },
                    },
                    _ => BodyPatternDto { equal_to_json: None },
                };
                out.push(p);
                i = i + 1;
            }
            out
        },
        _ => out,
    }
}

fn parse_request(v: &JsonValue) -> (r: Result<RequestStub, StubLoadError>)
    ensures
        r is Ok <==> request_wf(*v),
        r matches Ok(rq) ==> request_rel(*v, rq),
        r matches Err(e) ==> e == StubLoadError::BadRequest,
{
    match v {
        JsonValue::Object(ms) => {
            let method = match object_get(ms, "method") {
                Some(JsonValue::Str(s)) => s.clone(),
                _ => {
                    return Err(StubLoadError::BadRequest);
                },
            };
            let url_path = match object_get(ms, "urlPath") {
                Some(JsonValue::Str(s)) => Some(s.clone()),
                _ => None,
            };
            let url_path_pattern = match object_get(ms, "urlPathPattern") {
                Some(JsonValue::Str(s)) => Some(s.clone()),
                _ => None,
            };
            let headers = match object_get(ms, "headers") {
                Some(h) => parse_matchers(h),
                None => Vec::new(),
            };
            let query_parameters = match object_get(ms, "queryParameters") {
                Some(q) => parse_matchers(q),
                None => Vec::new(),
            };
            let body_patterns = match object_get(ms, "bodyPatterns") {
                Some(b) => parse_body_patterns(b),
                None => Vec::new(),
            };
            Ok(RequestStub { method, url_path, url_path_pattern, headers, query_parameters, body_patterns })
        },
        _ => Err(StubLoadError::BadRequest),
    }
}

fn parse_resp_headers(h: &JsonValue) -> (r: Vec<(String, String)>)
    ensures
        resp_headers_rel(*h, r@),
{
    let mut out: Vec<(String, String)> = Vec::new();
    match h {
        JsonValue::Object(ms) => {
            let mut i: usize = 0;
            while i < ms.len()
                invariant
                    i <= ms@.len(),
                    out@.map(|k: int, p: (String, String)| (p.0@, p.1@)) == resp_header_pairs(
                        ms@.take(i as int),
                    ),
                decreases ms@.len() - i,
            {
                proof {
                    assert(ms@.take(i + 1).drop_last() =~= ms@.take(i as int));
                    assert(ms@.take(i + 1).last() == ms@[i as int]);
                }
                let (k, v) = &ms[i];
                match canon_scalar_string(v) {
                    Some(c) => {
                        out.push((k.clone(), c));
                        proof {
                            assert(out@.map(|k0: int, p: (String, String)| (p.0@, p.1@))
                                =~= resp_header_pairs(ms@.take(i + 1)));
                        }
                    },
                    None => {},
                }
                i = i + 1;
            }
            proof {
                assert(ms@.take(ms@.len() as int) =~= ms@);
            }
            out
        },
        _ => out,
    }
}

fn parse_response(v: &JsonValue) -> (r: Result<ResponseDto, StubLoadError>)
    ensures
        r is Ok <==> response_wf(*v),
        r matches Ok(rs) ==> response_rel(*v, rs),
        r matches Err(e) ==> e == StubLoadError::BadResponse,
{
    match v {
        JsonValue::Object(ms) => {
            let status: u16 = match object_get(ms, "status") {
                Some(JsonValue::Int(k)) => {
                    if 0 <= *k && *k <= 65535 {
                        *k as u16
                    } else {
                        return Err(StubLoadError::BadResponse);
                    }
                },
                _ => {
                    return Err(StubLoadError::BadResponse);
                },
            };
            let headers = match object_get(ms, "headers") {
                Some(h) => parse_resp_headers(h),
                None => Vec::new(),
            };
            let body = match object_get(ms, "body") {
                Some(JsonValue::Str(s)) => Some(s.clone()),
                _ => None,
            };
            let json_body = match object_get(ms, "jsonBody") {
                Some(x) => Some(json_clone(x)),
                None => None,
            };
            let fixed_delay_milliseconds = match object_get(ms, "fixedDelayMilliseconds") {
                Some(JsonValue::Int(k)) => {
                    if *k >= 0 {
                        Some(*k as u64)
                    } else {
                        None
                    }
                },
                _ => None,
            };
            Ok(
                ResponseDto {
                    status,
                    headers,
                    body: BodyDto { body, json_body },
                    fixed_delay_milliseconds,
                },
            )
        },
        _ => Err(StubLoadError::BadResponse),
    }
}

/// Parses one stub document. Succeeds exactly on well-formed documents; the
/// error says what was missing or malformed, checked in a fixed order.
pub fn parse_stub(v: &JsonValue) -> (r: Result<JsonStub, StubLoadError>)
    ensures
        r is Ok <==> stub_wf(*v),
        r matches Ok(s) ==> stub_parses(*v, s),
        r matches Err(e) ==> match e {
            StubLoadError::NotAnObject => !(*v is Object),
            StubLoadError::MissingRequest => *v is Object && object_value(
                v->Object_0@,
                "request"@,
            ) is None,
            StubLoadError::BadRequest => *v is Object && (match object_value(
                v->Object_0@,
                "request"@,
            ) {
                Some(rq) => !request_wf(rq),
                None => false,
            }),
            StubLoadError::MissingResponse => *v is Object && (object_value(
                v->Object_0@,
                "request"@,
            ) matches Some(rq) && request_wf(rq)) && object_value(v->Object_0@, "response"@) is None,
            StubLoadError::BadResponse => *v is Object && (match object_value(
                v->Object_0@,
                "response"@,
            ) {
                Some(rs) => !response_wf(rs),
                None => false,
            }),
        },
{
    let ms = match v {
        JsonValue::Object(ms) => ms,
        _ => {
            return Err(StubLoadError::NotAnObject);
        },
    };
    let request = match object_get(ms, "request") {
        Some(rq) => match parse_request(rq) {
            Ok(r0) => r0,
            Err(e) => {
                return Err(e);
            },
        },
        None => {
            return Err(StubLoadError::MissingRequest);
        },
    };
    let response = match object_get(ms, "response") {
        Some(rs) => match parse_response(rs) {
            Ok(r0) => r0,
            Err(e) => {
                return Err(e);
            },
        },
        None => {
            return Err(StubLoadError::MissingResponse);
        },
    };
    let id = match object_get(ms, "id") {
        Some(JsonValue::Str(s)) => Some(s.clone()),
        _ => None,
    };
    let uuid = match object_get(ms, "uuid") {
        Some(JsonValue::Str(s)) => Some(s.clone()),
        _ => None,
    };
    let priority: u8 = match object_get(ms, "priority") {
        Some(JsonValue::Int(k)) => {
            if 0 <= *k && *k <= 255 {
                *k as u8
            } else {
                crate::DEFAULT_PRIORITY
            }
        },
        _ => crate::DEFAULT_PRIORITY,
    };
    let expect = match object_get(ms, "expect") {
        Some(JsonValue::Int(k)) => {
            if *k >= 0 {
                Some(*k as u64)
            } else {
                None
            }
        },
        _ => None,
    };
    Ok(JsonStub { id, uuid, priority, expect, request, response })
}

/// One file found in the stub directory: its name and, when it was readable
/// and held JSON, its parsed content.
#[derive(Debug)]
pub struct StubFile {
    pub name: String,
    pub content: Option<JsonValue>,
}

/// Stable insertion of a file into a name-sorted run: after every earlier
/// file whose name is not greater.
pub open spec fn insert_sorted(x: StubFile, s: Seq<StubFile>) -> Seq<StubFile>
    decreases s.len(),
{
    if s.len() == 0 {
        seq![x]
    } else if lex_le(s[0].name@, x.name@) {
        seq![s[0]] + insert_sorted(x, s.drop_first())
    } else {
        seq![x] + s
    }
}

/// The files sorted by name, lexicographically, stably.
pub open spec fn sort_files(s: Seq<StubFile>) -> Seq<StubFile>
    decreases s.len(),
{
    if s.len() == 0 {
        Seq::empty()
    } else {
        insert_sorted(s.last(), sort_files(s.drop_last()))
    }
}

proof fn lemma_insert_sorted_at(x: StubFile, s: Seq<StubFile>, p: int)
    requires
        0 <= p <= s.len(),
        forall|k: int| 0 <= k < p ==> lex_le((#[trigger] s[k]).name@, x.name@),
        p < s.len() ==> !lex_le(s[p].name@, x.name@),
    ensures
        insert_sorted(x, s) == s.take(p) + seq![x] + s.skip(p),
    decreases p,
{
    if p == 0 {
        if s.len() == 0 {
            assert(insert_sorted(x, s) =~= s.take(0) + seq![x] + s.skip(0));
        } else {
            assert(!lex_le(s[0].name@, x.name@));
            assert(insert_sorted(x, s) =~= s.take(0) + seq![x] + s.skip(0));
        }
    } else {
        assert(lex_le(s[0].name@, x.name@));
        let d = s.drop_first();
        assert(forall|k: int| 0 <= k < p - 1 ==> lex_le((#[trigger] d[k]).name@, x.name@)) by {
            assert(forall|k: int| 0 <= k < p - 1 ==> (#[trigger] d[k]) == s[k + 1]);
        }
        lemma_insert_sorted_at(x, d, p - 1);
        assert(insert_sorted(x, s) =~= s.take(p) + seq![x] + s.skip(p));
    }
}

/// Sorts the files by name. The result is exactly the stable insertion sort
/// of the input.
pub fn sort_stub_files(files: Vec<StubFile>) -> (r: Vec<StubFile>)
    ensures
        r@ == sort_files(files@),
{
    let ghost orig = files@;
    let mut files = files;
    let mut out: Vec<StubFile> = Vec::new();
    let ghost mut i: int = 0;
    while files.len() > 0
        invariant
            0 <= i <= orig.len(),
            files@ == orig.skip(i),
            out@ == sort_files(orig.take(i)),
        decreases files@.len(),
    {
        let x = files.remove(0);
        proof {
            assert(x == orig[i]);
            assert(orig.skip(i).remove(0) =~= orig.skip(i + 1));
        }
        // find the first position whose name is greater
        let mut p: usize = 0;
        while p < out.len() && str_lex_le(out[p].name.as_str(), x.name.as_str())
            invariant
                p <= out@.len(),
                forall|k: int| 0 <= k < p ==> lex_le((#[trigger] out@[k]).name@, x.name@),
            decreases out@.len() - p,
        {
            p = p + 1;
        }
        proof {
            lemma_insert_sorted_at(x, out@, p as int);
            assert(orig.take(i + 1).drop_last() =~= orig.take(i));
            assert(orig.take(i + 1).last() == orig[i]);
        }
        out.insert(p, x);
        proof {
            assert(out@ =~= sort_files(orig.take(i + 1)));
            i = i + 1;
        }
    }
    proof {
        assert(orig.take(i) =~= orig);
    }
    out
}

/// The stubs parsed out of a run of files, in order: one per file whose
/// content is present and well-formed, the rest skipped.
pub open spec fn stubs_of_rel(files: Seq<StubFile>, out: Seq<JsonStub>) -> bool
    decreases files.len(),
{
    if files.len() == 0 {
        out.len() == 0
    } else {
        let f = files.last();
        if f.content is Some && stub_wf(f.content->0) {
            &&& out.len() > 0
            &&& stub_parses(f.content->0, out.last())
            &&& stubs_of_rel(files.drop_last(), out.drop_last())
        } else {
            stubs_of_rel(files.drop_last(), out)
        }
    }
}

/// Loads a directory snapshot: the files sorted by name, then each parsed,
/// files that fail to parse skipped — one bad file never prevents the rest
/// from serving.
pub fn load(files: Vec<StubFile>) -> (r: Vec<JsonStub>)
    ensures
        stubs_of_rel(sort_files(files@), r@),
{
    let ghost gf = files@;
    let sorted = sort_stub_files(files);
    let mut out: Vec<JsonStub> = Vec::new();
    let mut i: usize = 0;
    while i < sorted.len()
        invariant
            i <= sorted@.len(),
            sorted@ == sort_files(gf),
            stubs_of_rel(sorted@.take(i as int), out@),
        decreases sorted@.len() - i,
    {
        proof {
            assert(sorted@.take(i + 1).drop_last() =~= sorted@.take(i as int));
            assert(sorted@.take(i + 1).last() == sorted@[i as int]);
        }
        match &sorted[i].content {
            Some(v) => {
                match parse_stub(v) {
                    Ok(s) => {
                        let ghost prev = out@;
                        out.push(s);
                        proof {
                            assert(out@.drop_last() =~= prev);
                        }
                    },
                    Err(_) => {},
                }
            },
            None => {},
        }
        i = i + 1;
    }
    proof {
        assert(sorted@.take(sorted@.len() as int) =~= sorted@);
    }
    out
}

} // verus!
