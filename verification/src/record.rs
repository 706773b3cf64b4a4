//! The recording pipeline: one proxied exchange is turned into a stub whose
//! predicate is the exact call that was captured — exact method, path, query
//! and headers, minus the caller's excluded header names — and whose response
//! is the upstream answer. The destination filename is a deterministic hash of
//! method and path, so re-recording the same call overwrites its file.

use vstd::prelude::*;

use crate::json::{json_clone, json_eq, JsonValue};
use crate::matcher::HttpRequest;
use crate::model::{
    BodyDto, BodyPatternDto, JsonStub, MatcherValueDto, RequestMatcherDto, RequestStub, ResponseDto,
};
use crate::text::{chars_ci_eq, dec_str, str_ci_eq, str_contains, contains_str, u64_to_string};
use crate::template::{path_segments, spec_path_segments};

verus! {

/// A captured request: what the proxy saw before forwarding. The body text is
/// absent when the bytes were not text; the parsed body is present when the
/// text was JSON.
#[derive(Debug)]
pub struct RecordedRequest {
    pub method: String,
    pub path: String,
    pub queries: Vec<(String, String)>,
    pub headers: Vec<(String, String)>,
    pub body_text: Option<String>,
    pub body_json: Option<JsonValue>,
}

/// A captured response: what the upstream answered.
#[derive(Debug)]
pub struct RecordedResponse {
    pub status: u16,
    pub headers: Vec<(String, String)>,
    pub body_text: Option<String>,
    pub body_json: Option<JsonValue>,
}

/// One proxied call: the captured request and the captured response.
#[derive(Debug)]
pub struct RecordedExchange(pub RecordedRequest, pub RecordedResponse);

/// What the capture keeps out: header names, compared case-insensitively,
/// applied to the request side and the response side independently.
#[derive(Debug)]
pub struct RecordConfig {
    pub except_request_headers: Vec<String>,
    pub except_response_headers: Vec<String>,
}

/// The name is on the exclusion list (names compare case-insensitively).
pub open spec fn header_excluded(name: Seq<char>, except: Seq<String>) -> bool {
    exists|i: int| 0 <= i < except.len() && chars_ci_eq((#[trigger] except[i])@, name)
}

/// The headers that survive the exclusion list, in order.
pub open spec fn kept_headers(
    hs: Seq<(String, String)>,
    except: Seq<String>,
) -> Seq<(String, String)>
    decreases hs.len(),
{
    if hs.len() == 0 {
        Seq::empty()
    } else {
        let init = kept_headers(hs.drop_last(), except);
        if header_excluded(hs.last().0@, except) {
            init
        } else {
            init.push(hs.last())
        }
    }
}

/// Every kept header is one of the original headers, and none is excluded.
pub proof fn lemma_kept_headers(hs: Seq<(String, String)>, except: Seq<String>)
    ensures
        forall|k: int|
            0 <= k < kept_headers(hs, except).len() ==> {
                &&& !header_excluded((#[trigger] kept_headers(hs, except)[k]).0@, except)
                &&& exists|i: int| 0 <= i < hs.len() && hs[i] == kept_headers(hs, except)[k]
            },
    decreases hs.len(),
{
    if hs.len() > 0 {
        let d = hs.drop_last();
        lemma_kept_headers(d, except);
        assert(forall|i: int| 0 <= i < d.len() ==> #[trigger] d[i] == hs[i]);
        let kd = kept_headers(d, except);
        let kh = kept_headers(hs, except);
        assert forall|k: int| 0 <= k < kh.len() implies {
            &&& !header_excluded((#[trigger] kh[k]).0@, except)
            &&& exists|i: int| 0 <= i < hs.len() && hs[i] == kh[k]
        } by {
            if k < kd.len() {
                assert(kh[k] == kd[k]);
                let i = choose|i: int| 0 <= i < d.len() && d[i] == kd[k];
                assert(hs[i] == kh[k]);
            } else {
                assert(kh[k] == hs.last());
                assert(hs[hs.len() - 1] == kh[k]);
            }
        }
    }
}

fn is_excluded(name: &String, except: &Vec<String>) -> (r: bool)
    ensures
        r == header_excluded(name@, except@),
{
    let mut i: usize = 0;
    while i < except.len()
        invariant
            i <= except@.len(),
            forall|j: int| 0 <= j < i ==> !chars_ci_eq((#[trigger] except@[j])@, name@),
        decreases except@.len() - i,
    {
        if str_ci_eq(except[i].as_str(), name.as_str()) {
            return true;
        }
        i = i + 1;
    }
    false
}

fn filter_headers(hs: &Vec<(String, String)>, except: &Vec<String>) -> (r: Vec<(String, String)>)
    ensures
        r@ == kept_headers(hs@, except@),
{
    let mut out: Vec<(String, String)> = Vec::new();
    let mut i: usize = 0;
    while i < hs.len()
        invariant
            i <= hs@.len(),
            out@ == kept_headers(hs@.take(i as int), except@),
        decreases hs@.len() - i,
    {
        proof {
            assert(hs@.take(i + 1).drop_last() =~= hs@.take(i as int));
            assert(hs@.take(i + 1).last() == hs@[i as int]);
        }
        let (name, value) = &hs[i];
        if !is_excluded(name, except) {
            out.push((name.clone(), value.clone()));
            proof {
                assert(out@ =~= kept_headers(hs@.take(i + 1), except@));
            }
        }
        i = i + 1;
    }
    proof {
        assert(hs@.take(hs@.len() as int) =~= hs@);
    }
    out
}

/// An exact-equality matcher on a string value: the only form recording emits.
pub open spec fn exact_str_matcher(m: RequestMatcherDto, k: Seq<char>, v: Seq<char>) -> bool {
    &&& m.key@ == k
    &&& m.value is Some
    &&& (m.value->0.equal_to matches Some(JsonValue::Str(s)) && s@ == v)
    &&& m.value->0.case_insensitive is None
    &&& m.value->0.contains is None
}

fn exact_matcher(k: &String, v: &String) -> (m: RequestMatcherDto)
    ensures
        exact_str_matcher(m, k@, v@),
{
    RequestMatcherDto {
        key: k.clone(),
        value: Some(
            MatcherValueDto {
                equal_to: Some(JsonValue::Str(v.clone())),
                case_insensitive: None,
                contains: None,
            },
        ),
    }
}

/// The captured headers name a JSON content type.
pub open spec fn spec_content_type_json(hs: Seq<(String, String)>) -> bool {
    exists|i: int|
        0 <= i < hs.len() && chars_ci_eq((#[trigger] hs[i]).0@, "content-type"@) && str_contains(
            hs[i].1@,
            "json"@,
        )
}

pub fn content_type_is_json(hs: &Vec<(String, String)>) -> (r: bool)
    ensures
        r == spec_content_type_json(hs@),
{
    let mut i: usize = 0;
    while i < hs.len()
        invariant
            i <= hs@.len(),
            forall|j: int|
                0 <= j < i ==> !(chars_ci_eq((#[trigger] hs@[j]).0@, "content-type"@)
                    && str_contains(hs@[j].1@, "json"@)),
        decreases hs@.len() - i,
    {
        let (name, value) = &hs[i];
        if str_ci_eq(name.as_str(), "content-type") && contains_str(value.as_str(), "json") {
            return true;
        }
        i = i + 1;
    }
    false
}

/// The captured request body goes into the stub as a JSON predicate.
pub open spec fn spec_req_body_json(r: RecordedRequest) -> bool {
    spec_content_type_json(r.headers@) && r.body_json is Some
}

/// The captured response body goes into the stub as a JSON body.
pub open spec fn spec_resp_body_json(r: RecordedResponse) -> bool {
    spec_content_type_json(r.headers@) && r.body_json is Some
}

/// The recorded stub renders the exchange: exact method and path, one exact
/// matcher per query parameter and per kept header, the body verbatim — as
/// JSON when the content type says JSON and the bytes parse, as a plain
/// string otherwise.
pub open spec fn recorded_stub_rel(ex: RecordedExchange, cfg: RecordConfig, s: JsonStub) -> bool {
    &&& s.id is None
    &&& s.uuid is None
    &&& s.priority == crate::DEFAULT_PRIORITY
    &&& s.expect is None
    &&& s.request.method@ == ex.0.method@
    &&& (s.request.url_path matches Some(p) && p@ == ex.0.path@)
    &&& s.request.url_path_pattern is None
    &&& s.request.query_parameters@.len() == ex.0.queries@.len()
    &&& (forall|i: int|
        0 <= i < ex.0.queries@.len() ==> exact_str_matcher(
            #[trigger] s.request.query_parameters@[i],
            ex.0.queries@[i].0@,
            ex.0.queries@[i].1@,
        ))
    &&& {
        let kept = kept_headers(ex.0.headers@, cfg.except_request_headers@);
        &&& s.request.headers@.len() == kept.len()
        &&& (forall|i: int|
            0 <= i < kept.len() ==> exact_str_matcher(
                #[trigger] s.request.headers@[i],
                kept[i].0@,
                kept[i].1@,
            ))
    }
    &&& (if spec_req_body_json(ex.0) {
        &&& s.request.body_patterns@.len() == 1
        &&& s.request.body_patterns@[0].equal_to_json is Some
        &&& json_eq(s.request.body_patterns@[0].equal_to_json->0, ex.0.body_json->0)
    } else {
        s.request.body_patterns@.len() == 0
    })
    &&& s.response.status == ex.1.status
    &&& {
        let kept = kept_headers(ex.1.headers@, cfg.except_response_headers@);
        &&& s.response.headers@.len() == kept.len()
        &&& (forall|i: int|
            0 <= i < kept.len() ==> (#[trigger] s.response.headers@[i]).0@ == kept[i].0@
                && s.response.headers@[i].1@ == kept[i].1@)
    }
    &&& (if spec_resp_body_json(ex.1) {
        &&& s.response.body.json_body is Some
        &&& json_eq(s.response.body.json_body->0, ex.1.body_json->0)
        &&& s.response.body.body is None
    } else {
        match ex.1.body_text {
            Some(t) => s.response.body.json_body is None && (s.response.body.body matches Some(b)
                && b@ == t@),
            None => s.response.body.json_body is None && s.response.body.body is None,
        }
    })
    &&& s.response.fixed_delay_milliseconds is None
}

/// Turns one captured exchange into the stub to persist.
pub fn exchange_to_stub(ex: &RecordedExchange, cfg: &RecordConfig) -> (s: JsonStub)
    ensures
        recorded_stub_rel(*ex, *cfg, s),
{
    let mut query_parameters: Vec<RequestMatcherDto> = Vec::new();
    let mut i: usize = 0;
    while i < ex.0.queries.len()
        invariant
            i <= ex.0.queries@.len(),
            query_parameters@.len() == i,
            forall|j: int|
                0 <= j < i ==> exact_str_matcher(
                    #[trigger] query_parameters@[j],
                    ex.0.queries@[j].0@,
                    ex.0.queries@[j].1@,
                ),
        decreases ex.0.queries@.len() - i,
    {
        let (k, v) = &ex.0.queries[i];
        query_parameters.push(exact_matcher(k, v));
        i = i + 1;
    }
    let req_kept = filter_headers(&ex.0.headers, &cfg.except_request_headers);
    let mut headers: Vec<RequestMatcherDto> = Vec::new();
    let mut i: usize = 0;
    while i < req_kept.len()
        invariant
            i <= req_kept@.len(),
            headers@.len() == i,
            forall|j: int|
                0 <= j < i ==> exact_str_matcher(
                    #[trigger] headers@[j],
                    req_kept@[j].0@,
                    req_kept@[j].1@,
                ),
        decreases req_kept@.len() - i,
    {
        let (k, v) = &req_kept[i];
        headers.push(exact_matcher(k, v));
        i = i + 1;
    }
    let mut body_patterns: Vec<BodyPatternDto> = Vec::new();
    if content_type_is_json(&ex.0.headers) {
        match &ex.0.body_json {
            Some(b) => {
                body_patterns.push(BodyPatternDto { equal_to_json: Some(json_clone(b)) });
            },
            None => {},
        }
    }
    let resp_headers = filter_headers(&ex.1.headers, &cfg.except_response_headers);
    let resp_json = content_type_is_json(&ex.1.headers);
    let (body, json_body): (Option<String>, Option<JsonValue>) = if resp_json {
        match &ex.1.body_json {
            Some(b) => (None, Some(json_clone(b))),
            None => match &ex.1.body_text {
                Some(t) => (Some(t.clone()), None),
                None => (None, None),
            },
        }
    } else {
        match &ex.1.body_text {
            Some(t) => (Some(t.clone()), None),
            None => (None, None),
        }
    };
    JsonStub {
        id: None,
        uuid: None,
        priority: crate::DEFAULT_PRIORITY,
        expect: None,
        request: RequestStub {
            method: ex.0.method.clone(),
            url_path: Some(ex.0.path.clone()),
            url_path_pattern: None,
            headers,
            query_parameters,
            body_patterns,
        },
        response: ResponseDto {
            status: ex.1.status,
            headers: resp_headers,
            body: BodyDto { body, json_body },
            fixed_delay_milliseconds: None,
        },
    }
}

/// The 64-bit FNV-1a digest of a byte run, from a given state.
pub open spec fn fnv1a(bytes: Seq<u8>, h: u64) -> u64
    decreases bytes.len(),
{
    if bytes.len() == 0 {
        h
    } else {
        fnv1a(bytes.drop_first(), u64::wrapping_mul(h ^ (bytes[0] as u64), 0x100000001b3))
    }
}

fn fnv1a_update(bytes: &[u8], h0: u64) -> (r: u64)
    ensures
        r == fnv1a(bytes@, h0),
{
    let mut h = h0;
    let mut i: usize = 0;
    proof {
        assert(bytes@.skip(0) =~= bytes@);
    }
    while i < bytes.len()
        invariant
            i <= bytes@.len(),
            fnv1a(bytes@, h0) == fnv1a(bytes@.skip(i as int), h),
        decreases bytes@.len() - i,
    {
        proof {
            assert(bytes@.skip(i as int)[0] == bytes@[i as int]);
            assert(bytes@.skip(i as int).drop_first() =~= bytes@.skip(i + 1));
        }
        let b = bytes[i];
        h = (h ^ (b as u64)).wrapping_mul(0x100000001b3);
        i = i + 1;
    }
    proof {
        assert(bytes@.skip(bytes@.len() as int).len() == 0);
    }
    h
}

/// The digest the filename carries: FNV-1a over the method's bytes, then the
/// path's bytes.
pub open spec fn spec_stub_hash(method: Seq<char>, path: Seq<char>) -> u64 {
    fnv1a(
        vstd::utf8::encode_utf8(path),
        fnv1a(vstd::utf8::encode_utf8(method), 0xcbf29ce484222325),
    )
}

pub fn stub_hash(method: &str, path: &str) -> (r: u64)
    ensures
        r == spec_stub_hash(method@, path@),
{
    let h = fnv1a_update(method.as_bytes(), 0xcbf29ce484222325);
    fnv1a_update(path.as_bytes(), h)
}

/// The path's segments joined with dashes.
pub open spec fn join_dash(segs: Seq<Seq<char>>) -> Seq<char>
    decreases segs.len(),
{
    if segs.len() == 0 {
        Seq::empty()
    } else if segs.len() == 1 {
        segs[0]
    } else {
        join_dash(segs.drop_last()) + seq!['-'] + segs.last()
    }
}

/// The deterministic destination filename (without extension) for a recorded
/// call: the path's segments joined with dashes, then a dash, then the digest
/// of method and path — so re-recording the same call names the same file.
pub open spec fn spec_stub_filename(method: Seq<char>, path: Seq<char>) -> Seq<char> {
    join_dash(spec_path_segments(path)) + seq!['-'] + dec_str(spec_stub_hash(method, path) as nat)
}

pub fn stub_filename(method: &str, path: &str) -> (r: String)
    ensures
        r@ == spec_stub_filename(method@, path@),
{
    let segs = path_segments(path);
    let ghost gsegs = spec_path_segments(path@);
    let mut out = String::new();
    let mut i: usize = 0;
    while i < segs.len()
        invariant
            segs@.map(|k: int, x: String| x@) == gsegs,
            i <= segs@.len(),
            out@ == join_dash(gsegs.take(i as int)),
        decreases segs@.len() - i,
    {
        proof {
            reveal_strlit("-");
            assert(gsegs.take(i + 1).drop_last() =~= gsegs.take(i as int));
            assert(gsegs.take(i + 1).last() == gsegs[i as int]);
            assert(gsegs[i as int] == segs@[i as int]@);
        }
        if i > 0 {
            out.append("-");
        }
        out.append(segs[i].as_str());
        proof {
            assert(out@ =~= join_dash(gsegs.take(i + 1)));
        }
        i = i + 1;
    }
    proof {
        reveal_strlit("-");
        assert(gsegs.take(gsegs.len() as int) =~= gsegs);
    }
    out.append("-");
    let h = stub_hash(method, path);
    let hs = u64_to_string(h);
    out.append(hs.as_str());
    proof {
        assert(out@ =~= spec_stub_filename(method@, path@));
    }
    out
}

/// The upstream base address derived from an inbound authority: scheme, host,
/// the port or its default, and a trailing slash.
pub fn base_uri(host: &str, port: Option<u16>) -> (r: String)
    ensures
        r@ == "http://"@ + host@ + ":"@ + dec_str(
            (match port {
                Some(p) => p as nat,
                None => 80,
            }),
        ) + "/"@,
{
    let p: u16 = match port {
        Some(p) => p,
        None => 80,
    };
    let mut out = String::from_str("http://");
    out.append(host);
    out.append(":");
    let ps = u64_to_string(p as u64);
    out.append(ps.as_str());
    out.append("/");
    proof {
        assert(out@ =~= "http://"@ + host@ + ":"@ + dec_str(
            (match port {
                Some(p0) => p0 as nat,
                None => 80,
            }),
        ) + "/"@);
    }
    out
}

/// The inbound request as the match engine sees it corresponds to the
/// captured request: same method, path and query pairs, each captured header
/// carried with its one value, and the same JSON body when one was captured.
pub open spec fn request_of_exchange(ex: RecordedExchange, req: HttpRequest) -> bool {
    &&& req.method@ == ex.0.method@
    &&& req.path@ == ex.0.path@
    &&& req.queries@.len() == ex.0.queries@.len()
    &&& (forall|i: int|
        0 <= i < ex.0.queries@.len() ==> (#[trigger] req.queries@[i]).0@ == ex.0.queries@[i].0@
            && req.queries@[i].1@ == ex.0.queries@[i].1@)
    &&& req.headers@.len() == ex.0.headers@.len()
    &&& (forall|i: int|
        0 <= i < ex.0.headers@.len() ==> (#[trigger] req.headers@[i]).0@ == ex.0.headers@[i].0@
            && req.headers@[i].1@.len() == 1 && req.headers@[i].1@[0]@ == ex.0.headers@[i].1@)
    &&& (spec_req_body_json(ex.0) ==> req.body is Some && json_eq(req.body->0, ex.0.body_json->0))
}

pub fn recorded_request(ex: &RecordedExchange) -> (r: HttpRequest)
    ensures
        request_of_exchange(*ex, r),
{
    let mut queries: Vec<(String, String)> = Vec::new();
    let mut i: usize = 0;
    while i < ex.0.queries.len()
        invariant
            i <= ex.0.queries@.len(),
            queries@.len() == i,
            forall|j: int|
                0 <= j < i ==> (#[trigger] queries@[j]).0@ == ex.0.queries@[j].0@
                    && queries@[j].1@ == ex.0.queries@[j].1@,
        decreases ex.0.queries@.len() - i,
    {
        let (k, v) = &ex.0.queries[i];
        queries.push((k.clone(), v.clone()));
        i = i + 1;
    }
    let mut headers: Vec<(String, Vec<String>)> = Vec::new();
    let mut i: usize = 0;
    while i < ex.0.headers.len()
        invariant
            i <= ex.0.headers@.len(),
            headers@.len() == i,
            forall|j: int|
                0 <= j < i ==> (#[trigger] headers@[j]).0@ == ex.0.headers@[j].0@
                    && headers@[j].1@.len() == 1 && headers@[j].1@[0]@ == ex.0.headers@[j].1@,
        decreases ex.0.headers@.len() - i,
    {
        let (k, v) = &ex.0.headers[i];
        let mut vs: Vec<String> = Vec::new();
        vs.push(v.clone());
        headers.push((k.clone(), vs));
        i = i + 1;
    }
    let body: Option<JsonValue> = match &ex.0.body_json {
        Some(b) => Some(json_clone(b)),
        None => None,
    };
    HttpRequest { method: ex.0.method.clone(), path: ex.0.path.clone(), queries, headers, body }
}


fn key(k: &str) -> (r: String)
    ensures
        r@ == k@,
{
    String::from_str(k)
}

fn matcher_value_json(v: &Option<MatcherValueDto>) -> (r: JsonValue)
    ensures
        crate::repository::matcher_value_rel(r, *v),
{
    match v {
        None => JsonValue::Null,
        Some(mv) => {
            proof {
                reveal_strlit("equalTo");
                reveal_strlit("caseInsensitive");
                reveal_strlit("contains");
                assert("caseInsensitive"@ != "contains"@) by {
                    assert("caseInsensitive"@.len() != "contains"@.len());
                }
            }
            let mut ms: Vec<(String, JsonValue)> = Vec::new();
            let ci: JsonValue = match mv.case_insensitive {
                Some(b) => JsonValue::Bool(b),
                None => JsonValue::Null,
            };
            ms.push((key("caseInsensitive"), ci));
            let con: JsonValue = match &mv.contains {
                Some(c) => JsonValue::Str(c.clone()),
                None => JsonValue::Null,
            };
            ms.push((key("contains"), con));
            match &mv.equal_to {
                Some(e) => {
                    let c = json_clone(e);
                    proof {
                        crate::json::lemma_json_eq_sym(c, *e);
                    }
                    ms.push((key("equalTo"), c));
                },
                None => {},
            }
            proof {
                assert(ms@[0].0@ == "caseInsensitive"@);
                assert(ms@[1].0@ == "contains"@);
                crate::json::lemma_object_value_at(ms@, "caseInsensitive"@, 0);
                crate::json::lemma_object_value_at(ms@, "contains"@, 1);
                if mv.equal_to is Some {
                    assert(ms@[2].0@ == "equalTo"@);
                    crate::json::lemma_object_value_at(ms@, "equalTo"@, 2);
                } else {
                    crate::json::lemma_object_value_absent(ms@, "equalTo"@);
                }
            }
            JsonValue::Object(ms)
        },
    }
}

fn matchers_json(matchers: &Vec<RequestMatcherDto>) -> (r: JsonValue)
    ensures
        crate::repository::matchers_rel(r, matchers@),
{
    let mut ms: Vec<(String, JsonValue)> = Vec::new();
    let mut i: usize = 0;
    while i < matchers.len()
        invariant
            i <= matchers@.len(),
            ms@.len() == i,
            forall|j: int|
                0 <= j < i ==> (#[trigger] ms@[j]).0@ == matchers@[j].key@
                    && crate::repository::matcher_value_rel(ms@[j].1, matchers@[j].value),
        decreases matchers@.len() - i,
    {
        let m = &matchers[i];
        let v = matcher_value_json(&m.value);
        ms.push((m.key.clone(), v));
        i = i + 1;
    }
    proof {
        assert(forall|j: int|
            0 <= j < matchers@.len() ==> crate::repository::matcher_value_rel(
                ms@[j].1,
                (#[trigger] matchers@[j]).value,
            ) && ms@[j].0@ == matchers@[j].key@);
    }
    JsonValue::Object(ms)
}

fn body_patterns_json(ps: &Vec<BodyPatternDto>) -> (r: JsonValue)
    ensures
        crate::repository::body_patterns_rel(r, ps@),
{
    proof {
        reveal_strlit("equalToJson");
    }
    let mut xs: Vec<JsonValue> = Vec::new();
    let mut i: usize = 0;
    while i < ps.len()
        invariant
            i <= ps@.len(),
            xs@.len() == i,
            forall|j: int|
                0 <= j < i ==> crate::repository::body_pattern_rel(#[trigger] xs@[j], ps@[j]),
        decreases ps@.len() - i,
    {
        let mut ms: Vec<(String, JsonValue)> = Vec::new();
        match &ps[i].equal_to_json {
            Some(e) => {
                let c = json_clone(e);
                proof {
                    crate::json::lemma_json_eq_sym(c, *e);
                }
                ms.push((key("equalToJson"), c));
            },
            None => {},
        }
        proof {
            if ps@[i as int].equal_to_json is Some {
                crate::json::lemma_object_value_at(ms@, "equalToJson"@, 0);
            } else {
                crate::json::lemma_object_value_absent(ms@, "equalToJson"@);
            }
        }
        xs.push(JsonValue::Object(ms));
        i = i + 1;
    }
    JsonValue::Array(xs)
}

fn request_json(rq: &RequestStub) -> (r: JsonValue)
    ensures
        crate::repository::request_rel(r, *rq),
{
    proof {
        reveal_strlit("method");
        reveal_strlit("urlPath");
        reveal_strlit("urlPathPattern");
        reveal_strlit("headers");
        reveal_strlit("queryParameters");
        reveal_strlit("bodyPatterns");
        assert("urlPath"@ != "headers"@) by {
            assert("urlPath"@[0] != "headers"@[0]);
        }
    }
    let mut ms: Vec<(String, JsonValue)> = Vec::new();
    ms.push((key("method"), JsonValue::Str(rq.method.clone())));
    let up: JsonValue = match &rq.url_path {
        Some(p) => JsonValue::Str(p.clone()),
        None => JsonValue::Null,
    };
    ms.push((key("urlPath"), up));
    let upp: JsonValue = match &rq.url_path_pattern {
        Some(p) => JsonValue::Str(p.clone()),
        None => JsonValue::Null,
    };
    ms.push((key("urlPathPattern"), upp));
    ms.push((key("headers"), matchers_json(&rq.headers)));
    ms.push((key("queryParameters"), matchers_json(&rq.query_parameters)));
    ms.push((key("bodyPatterns"), body_patterns_json(&rq.body_patterns)));
    proof {
        assert(ms@[0].0@ == "method"@);
        assert(ms@[1].0@ == "urlPath"@);
        assert(ms@[2].0@ == "urlPathPattern"@);
        assert(ms@[3].0@ == "headers"@);
        assert(ms@[4].0@ == "queryParameters"@);
        assert(ms@[5].0@ == "bodyPatterns"@);
        crate::json::lemma_object_value_at(ms@, "method"@, 0);
        crate::json::lemma_object_value_at(ms@, "urlPath"@, 1);
        crate::json::lemma_object_value_at(ms@, "urlPathPattern"@, 2);
        crate::json::lemma_object_value_at(ms@, "headers"@, 3);
        crate::json::lemma_object_value_at(ms@, "queryParameters"@, 4);
        crate::json::lemma_object_value_at(ms@, "bodyPatterns"@, 5);
    }
    JsonValue::Object(ms)
}

fn resp_headers_json(hs: &Vec<(String, String)>) -> (r: JsonValue)
    ensures
        crate::repository::resp_headers_rel(r, hs@),
{
    let mut ms: Vec<(String, JsonValue)> = Vec::new();
    let mut i: usize = 0;
    while i < hs.len()
        invariant
            i <= hs@.len(),
            ms@.len() == i,
            crate::repository::resp_header_pairs(ms@) =~= hs@.take(i as int).map(
                |k: int, p: (String, String)| (p.0@, p.1@),
            ),
        decreases hs@.len() - i,
    {
        let ghost prev = ms@;
        let (k, v) = &hs[i];
        ms.push((k.clone(), JsonValue::Str(v.clone())));
        proof {
            assert(ms@.drop_last() =~= prev);
            assert(crate::repository::resp_header_pairs(ms@) =~= hs@.take(i + 1).map(
                |k0: int, p: (String, String)| (p.0@, p.1@),
            ));
        }
        i = i + 1;
    }
    proof {
        assert(hs@.take(hs@.len() as int) =~= hs@);
    }
    JsonValue::Object(ms)
}

fn response_json(rs: &ResponseDto) -> (r: JsonValue)
    ensures
        crate::repository::response_rel(r, *rs) || !(match rs.fixed_delay_milliseconds {
            Some(d) => d <= 0x7fffffffffffffffu64,
            None => true,
        }),
{
    proof {
        reveal_strlit("status");
        reveal_strlit("headers");
        reveal_strlit("body");
        reveal_strlit("fixedDelayMilliseconds");
        reveal_strlit("jsonBody");
    }
    let mut ms: Vec<(String, JsonValue)> = Vec::new();
    ms.push((key("status"), JsonValue::Int(rs.status as i64)));
    ms.push((key("headers"), resp_headers_json(&rs.headers)));
    let body: JsonValue = match &rs.body.body {
        Some(b) => JsonValue::Str(b.clone()),
        None => JsonValue::Null,
    };
    ms.push((key("body"), body));
    let delay: JsonValue = match rs.fixed_delay_milliseconds {
        Some(d) => {
            if d <= 0x7fffffffffffffffu64 {
                JsonValue::Int(d as i64)
            } else {
                JsonValue::Null
            }
        },
        None => JsonValue::Null,
    };
    ms.push((key("fixedDelayMilliseconds"), delay));
    match &rs.body.json_body {
        Some(b) => {
            let c = json_clone(b);
            proof {
                crate::json::lemma_json_eq_sym(c, *b);
            }
            ms.push((key("jsonBody"), c));
        },
        None => {},
    }
    proof {
        assert(ms@[0].0@ == "status"@);
        assert(ms@[1].0@ == "headers"@);
        assert(ms@[2].0@ == "body"@);
        assert(ms@[3].0@ == "fixedDelayMilliseconds"@);
        crate::json::lemma_object_value_at(ms@, "status"@, 0);
        crate::json::lemma_object_value_at(ms@, "headers"@, 1);
        crate::json::lemma_object_value_at(ms@, "body"@, 2);
        crate::json::lemma_object_value_at(ms@, "fixedDelayMilliseconds"@, 3);
        if rs.body.json_body is Some {
            assert(ms@[4].0@ == "jsonBody"@);
            crate::json::lemma_object_value_at(ms@, "jsonBody"@, 4);
        } else {
            crate::json::lemma_object_value_absent(ms@, "jsonBody"@);
        }
    }
    JsonValue::Object(ms)
}

/// The stub file document for a stub: what the recorder persists. It parses
/// back, through the repository, to exactly this stub (counts that do not fit
/// the document's integers excepted).
pub fn stub_to_json(stub: &JsonStub) -> (r: JsonValue)
    ensures
        ({
            &&& (match stub.expect {
                Some(e) => e <= 0x7fffffffffffffffu64,
                None => true,
            })
            &&& (match stub.response.fixed_delay_milliseconds {
                Some(d) => d <= 0x7fffffffffffffffu64,
                None => true,
            })
        }) ==> crate::repository::stub_parses(r, *stub),
{
    proof {
        reveal_strlit("id");
        reveal_strlit("uuid");
        reveal_strlit("priority");
        reveal_strlit("expect");
        reveal_strlit("request");
        reveal_strlit("response");
        assert("priority"@ != "response"@) by {
            assert("priority"@[0] != "response"@[0]);
        }
    }
    let mut ms: Vec<(String, JsonValue)> = Vec::new();
    let id: JsonValue = match &stub.id {
        Some(x) => JsonValue::Str(x.clone()),
        None => JsonValue::Null,
    };
    ms.push((key("id"), id));
    let uuid: JsonValue = match &stub.uuid {
        Some(x) => JsonValue::Str(x.clone()),
        None => JsonValue::Null,
    };
    ms.push((key("uuid"), uuid));
    ms.push((key("priority"), JsonValue::Int(stub.priority as i64)));
    let expect: JsonValue = match stub.expect {
        Some(e) => {
            if e <= 0x7fffffffffffffffu64 {
                JsonValue::Int(e as i64)
            } else {
                JsonValue::Null
            }
        },
        None => JsonValue::Null,
    };
    ms.push((key("expect"), expect));
    ms.push((key("request"), request_json(&stub.request)));
    ms.push((key("response"), response_json(&stub.response)));
    proof {
        assert(ms@[0].0@ == "id"@);
        assert(ms@[1].0@ == "uuid"@);
        assert(ms@[2].0@ == "priority"@);
        assert(ms@[3].0@ == "expect"@);
        assert(ms@[4].0@ == "request"@);
        assert(ms@[5].0@ == "response"@);
        crate::json::lemma_object_value_at(ms@, "id"@, 0);
        crate::json::lemma_object_value_at(ms@, "uuid"@, 1);
        crate::json::lemma_object_value_at(ms@, "priority"@, 2);
        crate::json::lemma_object_value_at(ms@, "expect"@, 3);
        crate::json::lemma_object_value_at(ms@, "request"@, 4);
        crate::json::lemma_object_value_at(ms@, "response"@, 5);
    }
    JsonValue::Object(ms)
}

} // verus!
