//! Template markers: the tokens recognised inside string values of a response
//! specification. A whole string value is one marker or none; classification
//! tries the forms in one fixed order (the order is part of the contract):
//! the non-blank wildcard, then the regex wildcard, then the request-body
//! path extraction, then the URL path-segment accessor.

use vstd::prelude::*;

use crate::json::{object_value, object_get, JsonValue};
use crate::text::{
    dec_val, ends_with, is_digits, parse_dec, spec_ends_with, spec_starts_with, split_chars,
    split_str, starts_with,
};

verus! {

/// A classified marker, as the specification speaks of it.
pub ghost enum MarkerKind {
    AnyNonBlank,
    AnyRegex(Seq<char>),
    JsonPath(Seq<char>),
    PathSegment(int),
}

/// A classified marker, as the engine carries it.
#[derive(Debug)]
pub enum Marker {
    AnyNonBlank,
    AnyRegex(String),
    JsonPath(String),
    PathSegment(usize),
}

pub open spec fn marker_abs(m: Marker) -> MarkerKind {
    match m {
        Marker::AnyNonBlank => MarkerKind::AnyNonBlank,
        Marker::AnyRegex(p) => MarkerKind::AnyRegex(p@),
        Marker::JsonPath(p) => MarkerKind::JsonPath(p@),
        Marker::PathSegment(k) => MarkerKind::PathSegment(k as int),
    }
}

/// The marker a whole string value stands for, if any, in the fixed
/// classification order.
pub open spec fn spec_classify(s: Seq<char>) -> Option<MarkerKind> {
    if s == "{{anyNonBlankString}}"@ {
        Some(MarkerKind::AnyNonBlank)
    } else if spec_starts_with(s, "{{anyRegex '"@) && spec_ends_with(s, "'}}"@) && s.len()
        >= "{{anyRegex '"@.len() + "'}}"@.len() {
        Some(MarkerKind::AnyRegex(s.subrange("{{anyRegex '"@.len() as int, s.len() - 3)))
    } else if spec_starts_with(s, "{{jsonPath request.body '"@) && spec_ends_with(s, "'}}"@)
        && s.len() >= "{{jsonPath request.body '"@.len() + "'}}"@.len() {
        Some(
            MarkerKind::JsonPath(
                s.subrange("{{jsonPath request.body '"@.len() as int, s.len() - 3),
            ),
        )
    } else if spec_starts_with(s, "{{request.pathSegments.["@) && spec_ends_with(s, "]}}"@)
        && s.len() >= "{{request.pathSegments.["@.len() + "]}}"@.len() && {
        let mid = s.subrange("{{request.pathSegments.["@.len() as int, s.len() - 3);
        is_digits(mid) && mid.len() > 0 && dec_val(mid) <= usize::MAX
    } {
        Some(
            MarkerKind::PathSegment(
                dec_val(s.subrange("{{request.pathSegments.["@.len() as int, s.len() - 3)),
            ),
        )
    } else {
        None
    }
}

pub fn classify(s: &str) -> (r: Option<Marker>)
    ensures
        match r {
            Some(m) => spec_classify(s@) == Some(marker_abs(m)),
            None => spec_classify(s@) is None,
        },
{
    proof {
        reveal_strlit("{{anyNonBlankString}}");
        reveal_strlit("{{anyRegex '");
        reveal_strlit("{{jsonPath request.body '");
        reveal_strlit("{{request.pathSegments.[");
        reveal_strlit("'}}");
        reveal_strlit("]}}");
    }
    let n = s.unicode_len();
    if crate::text::str_eq(s, "{{anyNonBlankString}}") {
        return Some(Marker::AnyNonBlank);
    }
    let p1 = "{{anyRegex '";
    let p1n = p1.unicode_len();
    if starts_with(s, p1) && ends_with(s, "'}}") && n >= p1n + 3 {
        let mid = s.substring_char(p1n, n - 3).to_owned();
        return Some(Marker::AnyRegex(mid));
    }
    let p2 = "{{jsonPath request.body '";
    let p2n = p2.unicode_len();
    if starts_with(s, p2) && ends_with(s, "'}}") && n >= p2n + 3 {
        let mid = s.substring_char(p2n, n - 3).to_owned();
        return Some(Marker::JsonPath(mid));
    }
    let p3 = "{{request.pathSegments.[";
    let p3n = p3.unicode_len();
    if starts_with(s, p3) && ends_with(s, "]}}") && n >= p3n + 3 {
        let mid = s.substring_char(p3n, n - 3);
        return match parse_dec(mid) {
            Some(v) => Some(Marker::PathSegment(v)),
            None => None,
        };
    }
    None
}

/// The value a dotted path expression (`$.a.b`) selects from a JSON document,
/// walking object members by key.
pub open spec fn spec_path_eval(v: JsonValue, segs: Seq<Seq<char>>) -> Option<JsonValue>
    decreases segs.len(),
{
    if segs.len() == 0 {
        Some(v)
    } else {
        match v {
            JsonValue::Object(ms) => match object_value(ms@, segs[0]) {
                Some(x) => spec_path_eval(x, segs.drop_first()),
                None => None,
            },
            _ => None,
        }
    }
}

pub open spec fn spec_json_path(v: JsonValue, path: Seq<char>) -> Option<JsonValue> {
    if spec_starts_with(path, "$."@) && path.len() > 2 {
        spec_path_eval(v, split_chars(path.subrange(2, path.len() as int), '.'))
    } else {
        None
    }
}

pub fn eval_json_path<'a>(v: &'a JsonValue, path: &str) -> (r: Option<&'a JsonValue>)
    ensures
        match r {
            Some(x) => spec_json_path(*v, path@) == Some(*x),
            None => spec_json_path(*v, path@) is None,
        },
{
    proof {
        reveal_strlit("$.");
    }
    let n = path.unicode_len();
    if !(starts_with(path, "$.") && n > 2) {
        return None;
    }
    let segs = split_str(path.substring_char(2, n), '.');
    let ghost gsegs = split_chars(path@.subrange(2, n as int), '.');
    proof {
        assert(segs@.map(|k: int, x: String| x@) == gsegs);
    }
    let mut cur: &JsonValue = v;
    let mut i: usize = 0;
    proof {
        assert(gsegs.skip(0) =~= gsegs);
    }
    while i < segs.len()
        invariant
            segs@.map(|k: int, x: String| x@) == gsegs,
            i <= segs@.len(),
            spec_starts_with(path@, "$."@),
            path@.len() > 2,
            gsegs == split_chars(path@.subrange(2, path@.len() as int), '.'),
            spec_path_eval(*v, gsegs) == spec_path_eval(*cur, gsegs.skip(i as int)),
        decreases segs@.len() - i,
    {
        proof {
            assert(gsegs.skip(i as int).len() == segs@.len() - i);
            assert(gsegs.skip(i as int)[0] == gsegs[i as int]);
            assert(gsegs[i as int] == segs@[i as int]@);
            assert(gsegs.skip(i as int).drop_first() =~= gsegs.skip(i + 1));
        }
        match cur {
            JsonValue::Object(ms) => {
                match object_get(ms, segs[i].as_str()) {
                    Some(x) => {
                        cur = x;
                    },
                    None => {
                        proof {
                            assert(*cur == JsonValue::Object(*ms));
                            assert(object_value(ms@, gsegs[i as int]) is None);
                            assert(spec_path_eval(*cur, gsegs.skip(i as int)) is None);
                        }
                        return None;
                    },
                }
            },
            _ => {
                proof {
                    assert(!(*cur is Object));
                    assert(spec_path_eval(*cur, gsegs.skip(i as int)) is None);
                }
                return None;
            },
        }
        i = i + 1;
    }
    proof {
        assert(gsegs.skip(segs@.len() as int).len() == 0);
    }
    Some(cur)
}

/// The segments of a URL path, the leading slash stripped.
pub open spec fn spec_path_segments(path: Seq<char>) -> Seq<Seq<char>> {
    if path.len() > 0 && path[0] == '/' {
        split_chars(path.subrange(1, path.len() as int), '/')
    } else {
        split_chars(path, '/')
    }
}

pub fn path_segments(path: &str) -> (r: Vec<String>)
    ensures
        r@.map(|k: int, x: String| x@) == spec_path_segments(path@),
{
    let n = path.unicode_len();
    if n > 0 && path.get_char(0) == '/' {
        split_str(path.substring_char(1, n), '/')
    } else {
        split_str(path, '/')
    }
}

} // verus!
