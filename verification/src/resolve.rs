//! The response resolver: turns a selected stub's response specification into
//! the concrete status, headers, body and wait time. Delay composition is
//! asymmetric by design: a stub-local delay replaces the server's default
//! delay outright, while the server-wide latency is always added on top.

use vstd::prelude::*;

use crate::json::{canon_scalar, canon_scalar_string, json_clone, json_eq, JsonValue};
use crate::matcher::HttpRequest;
use crate::model::{Config, JsonStub, ResponseDto};
use crate::template::{
    classify, eval_json_path, spec_classify, spec_json_path, spec_path_segments, path_segments,
    Marker, MarkerKind,
};
use crate::text::{contains_str, str_contains, str_eq};

verus! {

broadcast use vstd::std_specs::vec::axiom_vec_index_decreases;

/// The one wait the server observes before replying: the stub-local delay if
/// declared, else the configured default — never both — plus the configured
/// latency, always; saturating at the largest representable wait.
pub open spec fn spec_effective_delay(
    local: Option<u64>,
    global_delay: Option<u64>,
    latency: Option<u64>,
) -> int {
    let base: int = if local is Some {
        local->0 as int
    } else if global_delay is Some {
        global_delay->0 as int
    } else {
        0
    };
    let lat: int = if latency is Some {
        latency->0 as int
    } else {
        0
    };
    if base + lat > u64::MAX {
        u64::MAX as int
    } else {
        base + lat
    }
}

pub fn effective_delay(local: Option<u64>, global_delay: Option<u64>, latency: Option<u64>) -> (r:
    u64)
    ensures
        r as int == spec_effective_delay(local, global_delay, latency),
{
    let base: u64 = match local {
        Some(d) => d,
        None => match global_delay {
            Some(d) => d,
            None => 0,
        },
    };
    let lat: u64 = match latency {
        Some(l) => l,
        None => 0,
    };
    if base <= u64::MAX - lat {
        base + lat
    } else {
        u64::MAX
    }
}

/// A template value can be served: its markers all resolve against the
/// request, and it holds no verification-only marker.
pub open spec fn renderable(v: JsonValue, req: HttpRequest) -> bool
    decreases v,
{
    match v {
        JsonValue::Str(s) => match spec_classify(s@) {
            Some(MarkerKind::JsonPath(p)) => req.body is Some && spec_json_path(
                req.body->0,
                p,
            ) is Some,
            Some(MarkerKind::PathSegment(k)) => 0 <= k < spec_path_segments(req.path@).len(),
            Some(_) => false,
            None => true,
        },
        JsonValue::Array(xs) => forall|i: int|
            0 <= i < xs@.len() ==> renderable(#[trigger] xs@[i], req),
        JsonValue::Object(ms) => forall|i: int|
            0 <= i < ms@.len() ==> renderable((#[trigger] ms@[i]).1, req),
        _ => true,
    }
}

/// What serving a template value yields: whole-string markers are replaced by
/// what they select from the request; everything else is kept as declared.
pub open spec fn rendered_rel(t: JsonValue, out: JsonValue, req: HttpRequest) -> bool
    decreases t,
{
    match t {
        JsonValue::Str(s) => match spec_classify(s@) {
            Some(MarkerKind::JsonPath(p)) => req.body is Some && (match spec_json_path(
                req.body->0,
                p,
            ) {
                Some(x) => json_eq(out, x),
                None => false,
            }),
            Some(MarkerKind::PathSegment(k)) => {
                let segs = spec_path_segments(req.path@);
                &&& 0 <= k < segs.len()
                &&& out is Str
                &&& out->Str_0@ == segs[k]
            },
            Some(_) => false,
            None => json_eq(out, t),
        },
        JsonValue::Array(xs) => out is Array && {
            let os = out->Array_0@;
            &&& os.len() == xs@.len()
            &&& forall|i: int| 0 <= i < xs@.len() ==> rendered_rel(#[trigger] xs@[i], os[i], req)
        },
        JsonValue::Object(ms) => out is Object && {
            let os = out->Object_0@;
            &&& os.len() == ms@.len()
            &&& forall|i: int|
                0 <= i < ms@.len() ==> os[i].0@ == (#[trigger] ms@[i]).0@ && rendered_rel(
                    ms@[i].1,
                    os[i].1,
                    req,
                )
        },
        _ => json_eq(out, t),
    }
}

/// Why a response could not be built from its template.
#[derive(Debug)]
pub enum TemplateError {
    UnresolvedPath { path: String },
    SegmentOutOfRange { marker: String },
    UnsupportedMarker { marker: String },
}

/// Renders a template value against the request. Succeeds exactly when every
/// marker in it resolves; a failure is surfaced loudly, never ignored.
pub fn render_json(t: &JsonValue, req: &HttpRequest) -> (r: Result<JsonValue, TemplateError>)
    ensures
        r is Ok <==> renderable(*t, *req),
        r matches Ok(out) ==> rendered_rel(*t, out, *req),
    decreases *t,
{
    match t {
        JsonValue::Str(s) => {
            match classify(s.as_str()) {
                Some(Marker::JsonPath(p)) => {
                    match &req.body {
                        Some(b) => match eval_json_path(b, p.as_str()) {
                            Some(x) => Ok(json_clone(x)),
                            None => Err(TemplateError::UnresolvedPath { path: p }),
                        },
                        None => Err(TemplateError::UnresolvedPath { path: p }),
                    }
                },
                Some(Marker::PathSegment(k)) => {
                    let segs = path_segments(req.path.as_str());
                    if k < segs.len() {
                        proof {
                            assert(segs@[k as int]@ == spec_path_segments(req.path@)[k as int]);
                        }
                        Ok(JsonValue::Str(segs[k].clone()))
                    } else {
                        Err(TemplateError::SegmentOutOfRange { marker: s.clone() })
                    }
                },
                Some(_) => Err(TemplateError::UnsupportedMarker { marker: s.clone() }),
                None => Ok(JsonValue::Str(s.clone())),
            }
        },
        JsonValue::Array(xs) => {
            let mut out: Vec<JsonValue> = Vec::new();
            let mut i: usize = 0;
            while i < xs.len()
                invariant
                    i <= xs@.len(),
                    out@.len() == i,
                    *t == JsonValue::Array(*xs),
                    forall|j: int| 0 <= j < i ==> renderable(#[trigger] xs@[j], *req),
                    forall|j: int| 0 <= j < i ==> rendered_rel(#[trigger] xs@[j], out@[j], *req),
                decreases xs@.len() - i,
            {
                proof {
                    assert(decreases_to!(*t => t->Array_0));
                    assert(decreases_to!(*xs => xs@[i as int]));
                }
                match render_json(&xs[i], req) {
                    Ok(v) => {
                        out.push(v);
                    },
                    Err(e) => {
                        return Err(e);
                    },
                }
                i = i + 1;
            }
            Ok(JsonValue::Array(out))
        },
        JsonValue::Object(ms) => {
            let mut out: Vec<(String, JsonValue)> = Vec::new();
            let mut i: usize = 0;
            while i < ms.len()
                invariant
                    i <= ms@.len(),
                    out@.len() == i,
                    *t == JsonValue::Object(*ms),
                    forall|j: int| 0 <= j < i ==> renderable((#[trigger] ms@[j]).1, *req),
                    forall|j: int|
                        0 <= j < i ==> (#[trigger] out@[j]).0@ == ms@[j].0@ && rendered_rel(
                            ms@[j].1,
                            out@[j].1,
                            *req,
                        ),
                decreases ms@.len() - i,
            {
                proof {
                    assert(decreases_to!(*t => t->Object_0));
                    assert(decreases_to!(*ms => ms@[i as int]));
                    assert(decreases_to!(ms@[i as int] => ms@[i as int].1));
                }
                let (k, v) = &ms[i];
                match render_json(v, req) {
                    Ok(rv) => {
                        out.push((k.clone(), rv));
                    },
                    Err(e) => {
                        return Err(e);
                    },
                }
                i = i + 1;
            }
            Ok(JsonValue::Object(out))
        },
        JsonValue::Null => Ok(JsonValue::Null),
        JsonValue::Bool(b) => Ok(JsonValue::Bool(*b)),
        JsonValue::Int(n) => Ok(JsonValue::Int(*n)),
    }
}

/// A header value can be served, and what it renders to: markers resolve to
/// the canonical rendering of what they select.
pub open spec fn header_renderable(s: Seq<char>, req: HttpRequest) -> bool {
    match spec_classify(s) {
        Some(MarkerKind::JsonPath(p)) => req.body is Some && (match spec_json_path(
            req.body->0,
            p,
        ) {
            Some(x) => canon_scalar(x) is Some,
            None => false,
        }),
        Some(MarkerKind::PathSegment(k)) => 0 <= k < spec_path_segments(req.path@).len(),
        Some(_) => false,
        None => true,
    }
}

pub open spec fn rendered_header_rel(s: Seq<char>, out: Seq<char>, req: HttpRequest) -> bool {
    match spec_classify(s) {
        Some(MarkerKind::JsonPath(p)) => req.body is Some && (match spec_json_path(
            req.body->0,
            p,
        ) {
            Some(x) => canon_scalar(x) == Some(out),
            None => false,
        }),
        Some(MarkerKind::PathSegment(k)) => {
            let segs = spec_path_segments(req.path@);
            0 <= k < segs.len() && out == segs[k]
        },
        Some(_) => false,
        None => out == s,
    }
}

fn render_header_value(s: &String, req: &HttpRequest) -> (r: Result<String, TemplateError>)
    ensures
        r is Ok <==> header_renderable(s@, *req),
        r matches Ok(out) ==> rendered_header_rel(s@, out@, *req),
{
    match classify(s.as_str()) {
        Some(Marker::JsonPath(p)) => {
            match &req.body {
                Some(b) => match eval_json_path(b, p.as_str()) {
                    Some(x) => match canon_scalar_string(x) {
                        Some(c) => Ok(c),
                        None => Err(TemplateError::UnresolvedPath { path: p }),
                    },
                    None => Err(TemplateError::UnresolvedPath { path: p }),
                },
                None => Err(TemplateError::UnresolvedPath { path: p }),
            }
        },
        Some(Marker::PathSegment(k)) => {
            let segs = path_segments(req.path.as_str());
            if k < segs.len() {
                proof {
                    assert(segs@[k as int]@ == spec_path_segments(req.path@)[k as int]);
                }
                Ok(segs[k].clone())
            } else {
                Err(TemplateError::SegmentOutOfRange { marker: s.clone() })
            }
        },
        Some(_) => Err(TemplateError::UnsupportedMarker { marker: s.clone() }),
        None => Ok(s.clone()),
    }
}

/// Whether any string value of the response holds template syntax; when none
/// does, serving uses the declared literals directly.
pub open spec fn json_has_marker(v: JsonValue) -> bool
    decreases v,
{
    match v {
        JsonValue::Str(s) => str_contains(s@, "{{"@),
        JsonValue::Array(xs) => exists|i: int|
            0 <= i < xs@.len() && json_has_marker(#[trigger] xs@[i]),
        JsonValue::Object(ms) => exists|i: int|
            0 <= i < ms@.len() && json_has_marker((#[trigger] ms@[i]).1),
        _ => false,
    }
}

pub open spec fn spec_requires_templating(r: ResponseDto) -> bool {
    ||| exists|i: int| 0 <= i < r.headers@.len() && str_contains((#[trigger] r.headers@[i]).1@, "{{"@)
    ||| (r.body.body is Some && str_contains(r.body.body->0@, "{{"@))
    ||| (r.body.json_body is Some && json_has_marker(r.body.json_body->0))
}

fn json_value_has_marker(v: &JsonValue) -> (r: bool)
    ensures
        r == json_has_marker(*v),
    decreases *v,
{
    match v {
        JsonValue::Str(s) => contains_str(s.as_str(), "{{"),
        JsonValue::Array(xs) => {
            let mut i: usize = 0;
            while i < xs.len()
                invariant
                    i <= xs@.len(),
                    *v == JsonValue::Array(*xs),
                    forall|j: int| 0 <= j < i ==> !json_has_marker(#[trigger] xs@[j]),
                decreases xs@.len() - i,
            {
                proof {
                    assert(decreases_to!(*v => v->Array_0));
                    assert(decreases_to!(*xs => xs@[i as int]));
                }
                if json_value_has_marker(&xs[i]) {
                    return true;
                }
                i = i + 1;
            }
            false
        },
        JsonValue::Object(ms) => {
            let mut i: usize = 0;
            while i < ms.len()
                invariant
                    i <= ms@.len(),
                    *v == JsonValue::Object(*ms),
                    forall|j: int| 0 <= j < i ==> !json_has_marker((#[trigger] ms@[j]).1),
                decreases ms@.len() - i,
            {
                proof {
                    assert(decreases_to!(*v => v->Object_0));
                    assert(decreases_to!(*ms => ms@[i as int]));
                    assert(decreases_to!(ms@[i as int] => ms@[i as int].1));
                }
                if json_value_has_marker(&ms[i].1) {
                    return true;
                }
                i = i + 1;
            }
            false
        },
        _ => false,
    }
}

/// Decided once, when the stub is taken into service: whether its response
/// needs the templating interpreter at all.
pub fn requires_response_templating(r: &ResponseDto) -> (b: bool)
    ensures
        b == spec_requires_templating(*r),
{
    let mut i: usize = 0;
    while i < r.headers.len()
        invariant
            i <= r.headers@.len(),
            forall|j: int|
                0 <= j < i ==> !str_contains((#[trigger] r.headers@[j]).1@, "{{"@),
        decreases r.headers@.len() - i,
    {
        if contains_str(r.headers[i].1.as_str(), "{{") {
            return true;
        }
        i = i + 1;
    }
    match &r.body.body {
        Some(s) => {
            if contains_str(s.as_str(), "{{") {
                return true;
            }
        },
        None => {},
    }
    match &r.body.json_body {
        Some(b) => json_value_has_marker(b),
        None => false,
    }
}

/// A response ready to send: everything the serving layer still does with it
/// is I/O.
#[derive(Debug)]
pub struct ConcreteResponse {
    pub status: u16,
    pub headers: Vec<(String, String)>,
    pub body: Option<JsonValue>,
    pub wait_ms: u64,
}

/// Builds the concrete response for a matched stub: the declared status, each
/// header and the body rendered against the request, and the composed wait.
pub fn resolve(stub: &JsonStub, req: &HttpRequest, config: &Config) -> (r: Result<
    ConcreteResponse,
    TemplateError,
>)
    ensures
        r is Ok <==> {
            &&& (forall|i: int|
                0 <= i < stub.response.headers@.len() ==> header_renderable(
                    (#[trigger] stub.response.headers@[i]).1@,
                    *req,
                ))
            &&& (match stub.response.body.json_body {
                Some(b) => renderable(b, *req),
                None => true,
            })
        },
        r matches Ok(c) ==> {
            &&& c.status == stub.response.status
            &&& c.wait_ms as int == spec_effective_delay(
                stub.response.fixed_delay_milliseconds,
                config.global_delay,
                config.latency,
            )
            &&& c.headers@.len() == stub.response.headers@.len()
            &&& forall|i: int|
                0 <= i < c.headers@.len() ==> (#[trigger] c.headers@[i]).0@
                    == stub.response.headers@[i].0@ && rendered_header_rel(
                    stub.response.headers@[i].1@,
                    c.headers@[i].1@,
                    *req,
                )
            &&& (match stub.response.body.json_body {
                Some(b) => c.body is Some && rendered_rel(b, c.body->0, *req),
                None => match stub.response.body.body {
                    Some(s) => c.body matches Some(JsonValue::Str(o)) && o@ == s@,
                    None => c.body is None,
                },
            })
        },
{
    let mut headers: Vec<(String, String)> = Vec::new();
    let mut i: usize = 0;
    while i < stub.response.headers.len()
        invariant
            i <= stub.response.headers@.len(),
            headers@.len() == i,
            forall|j: int|
                0 <= j < i ==> header_renderable((#[trigger] stub.response.headers@[j]).1@, *req),
            forall|j: int|
                0 <= j < i ==> (#[trigger] headers@[j]).0@ == stub.response.headers@[j].0@
                    && rendered_header_rel(
                    stub.response.headers@[j].1@,
                    headers@[j].1@,
                    *req,
                ),
        decreases stub.response.headers@.len() - i,
    {
        let (name, value) = &stub.response.headers[i];
        match render_header_value(value, req) {
            Ok(v) => {
                headers.push((name.clone(), v));
            },
            Err(e) => {
                return Err(e);
            },
        }
        i = i + 1;
    }
    let body: Option<JsonValue> = match &stub.response.body.json_body {
        Some(b) => {
            match render_json(b, req) {
                Ok(v) => Some(v),
                Err(e) => {
                    return Err(e);
                },
            }
        },
        None => match &stub.response.body.body {
            Some(s) => Some(JsonValue::Str(s.clone())),
            None => None,
        },
    };
    let wait_ms = effective_delay(
        stub.response.fixed_delay_milliseconds,
        config.global_delay,
        config.latency,
    );
    Ok(ConcreteResponse { status: stub.response.status, headers, body, wait_ms })
}

} // verus!
