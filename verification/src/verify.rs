//! The verification engine: a response body already observed is compared,
//! structurally and recursively, against the stub's response specification
//! used as an expectation template. Dispatch tries the object comparator,
//! then the array comparator, then the string-marker comparator, then plain
//! deep equality — in that order, by design.

use vstd::prelude::*;

use crate::json::{
    canon_scalar, canon_scalar_string, json_canon_eq, json_canon_value_eq, json_clone, json_eq,
    json_value_eq, key_index, lemma_key_index, object_value, object_get, JsonValue,
};
use crate::matcher::HttpRequest;
use crate::pattern::{regex_is_match, regex_match, regex_valid};
use crate::template::{
    classify, eval_json_path, spec_classify, spec_json_path, spec_path_segments, path_segments,
    Marker, MarkerKind,
};
use crate::text::{
    spec_is_blank, spec_starts_with, split_chars, split_str, starts_with, str_eq, str_is_blank,
};

verus! {

broadcast use
    vstd::std_specs::vec::axiom_vec_index_decreases,
    vstd::seq::axiom_seq_index_decreases,
    vstd::seq::axiom_seq_subrange_decreases;

/// The abstract outcome of one verification: a pass, or the first failure in
/// comparison order.
pub ghost enum Verdict {
    Pass,
    AbsentFields(Seq<(Seq<char>, JsonValue)>),
    ElementCount { expected: int, actual: int },
    MarkerMismatch { marker: Seq<char>, actual: JsonValue },
    PathUnresolved { path: Seq<char> },
    PathFieldMismatch { field: Seq<char>, expected: JsonValue, actual: JsonValue },
    InvalidRegex { pattern: Seq<char> },
    FieldMismatch { expected: JsonValue, actual: JsonValue },
    TypeMismatch { expected: JsonValue, actual: JsonValue },
}

/// The expected-object members whose key is absent from the actual object, in
/// declaration order.
pub open spec fn missing_fields(
    e: Seq<(String, JsonValue)>,
    a: Seq<(String, JsonValue)>,
) -> Seq<(Seq<char>, JsonValue)>
    decreases e.len(),
{
    if e.len() == 0 {
        Seq::empty()
    } else {
        let init = missing_fields(e.drop_last(), a);
        if key_index(a, e.last().0@) < 0 {
            init.push((e.last().0@, e.last().1))
        } else {
            init
        }
    }
}

/// The last segment of a dotted path expression; the failure naming a
/// path-extracted field uses it.
pub open spec fn spec_path_field(path: Seq<char>) -> Seq<char> {
    if spec_starts_with(path, "$."@) && path.len() > 2 {
        split_chars(path.subrange(2, path.len() as int), '.').last()
    } else {
        path
    }
}

/// Outcome of one marker against one actual value.
pub open spec fn marker_verdict(
    k: MarkerKind,
    marker_text: Seq<char>,
    actual: JsonValue,
    req: HttpRequest,
) -> Verdict {
    match k {
        MarkerKind::AnyNonBlank => if actual is Str && !spec_is_blank(actual->Str_0@) {
            Verdict::Pass
        } else {
            Verdict::MarkerMismatch { marker: marker_text, actual }
        },
        MarkerKind::AnyRegex(p) => if !regex_valid(p) {
            Verdict::InvalidRegex { pattern: p }
        } else if canon_scalar(actual) is Some && regex_match(p, canon_scalar(actual)->0) {
            Verdict::Pass
        } else {
            Verdict::MarkerMismatch { marker: p, actual }
        },
        MarkerKind::JsonPath(p) => match req.body {
            Some(b) => match spec_json_path(b, p) {
                Some(x) => if json_canon_eq(x, actual) {
                    Verdict::Pass
                } else {
                    Verdict::PathFieldMismatch { field: spec_path_field(p), expected: x, actual }
                },
                None => Verdict::PathUnresolved { path: p },
            },
            None => Verdict::PathUnresolved { path: p },
        },
        MarkerKind::PathSegment(kk) => {
            let segs = spec_path_segments(req.path@);
            if 0 <= kk < segs.len() {
                if canon_scalar(actual) is Some && canon_scalar(actual)->0 == segs[kk] {
                    Verdict::Pass
                } else {
                    Verdict::MarkerMismatch { marker: marker_text, actual }
                }
            } else {
                Verdict::PathUnresolved { path: marker_text }
            }
        },
    }
}

/// The whole verdict of expected against actual. `nested` records whether the
/// comparison sits inside an object, which picks the field-level failure form
/// over the body-level one.
pub open spec fn spec_verdict(
    expected: JsonValue,
    actual: JsonValue,
    req: HttpRequest,
    nested: bool,
) -> Verdict
    decreases expected,
{
    match (expected, actual) {
        (JsonValue::Object(e), JsonValue::Object(a)) => {
            if missing_fields(e@, a@).len() > 0 {
                Verdict::AbsentFields(missing_fields(e@, a@))
            } else {
                verdict_fields(e@, a@, req)
            }
        },
        (JsonValue::Array(e), JsonValue::Array(a)) => {
            if a@.len() < e@.len() {
                Verdict::ElementCount { expected: e@.len() as int, actual: a@.len() as int }
            } else {
                verdict_elems(e@, a@, req)
            }
        },
        _ => {
            if expected is Str && spec_classify(expected->Str_0@) is Some {
                marker_verdict(spec_classify(expected->Str_0@)->0, expected->Str_0@, actual, req)
            } else if json_eq(expected, actual) {
                Verdict::Pass
            } else if nested {
                Verdict::FieldMismatch { expected, actual }
            } else {
                Verdict::TypeMismatch { expected, actual }
            }
        },
    }
}

/// First failing field of an object comparison, every expected key present.
pub open spec fn verdict_fields(
    e: Seq<(String, JsonValue)>,
    a: Seq<(String, JsonValue)>,
    req: HttpRequest,
) -> Verdict
    decreases e,
{
    if e.len() == 0 {
        Verdict::Pass
    } else {
        let sub = match object_value(a, e[0].0@) {
            Some(x) => spec_verdict(e[0].1, x, req, true),
            None => Verdict::Pass,
        };
        if sub is Pass {
            verdict_fields(e.drop_first(), a, req)
        } else {
            sub
        }
    }
}

/// First failing element of an array comparison, up to the expected length.
pub open spec fn verdict_elems(e: Seq<JsonValue>, a: Seq<JsonValue>, req: HttpRequest) -> Verdict
    decreases e,
{
    if e.len() == 0 {
        Verdict::Pass
    } else if a.len() == 0 {
        Verdict::Pass
    } else {
        let sub = spec_verdict(e[0], a[0], req, false);
        if sub is Pass {
            verdict_elems(e.drop_first(), a.drop_first(), req)
        } else {
            sub
        }
    }
}

/// One field of an object comparison passes.
pub open spec fn field_pass(
    e: Seq<(String, JsonValue)>,
    a: Seq<(String, JsonValue)>,
    req: HttpRequest,
    j: int,
) -> bool {
    match object_value(a, e[j].0@) {
        Some(x) => spec_verdict(e[j].1, x, req, true) is Pass,
        None => true,
    }
}

proof fn lemma_verdict_fields_skip(
    e: Seq<(String, JsonValue)>,
    a: Seq<(String, JsonValue)>,
    req: HttpRequest,
    i: int,
)
    requires
        0 <= i <= e.len(),
        forall|j: int| 0 <= j < i ==> field_pass(e, a, req, j),
    ensures
        verdict_fields(e, a, req) == verdict_fields(e.skip(i), a, req),
    decreases i,
{
    if i == 0 {
        assert(e.skip(0) =~= e);
    } else {
        lemma_verdict_fields_skip(e, a, req, i - 1);
        assert(field_pass(e, a, req, i - 1));
        assert(e.skip(i - 1)[0] == e[i - 1]);
        assert(e.skip(i - 1).drop_first() =~= e.skip(i));
    }
}

proof fn lemma_verdict_elems_skip(e: Seq<JsonValue>, a: Seq<JsonValue>, req: HttpRequest, i: int)
    requires
        0 <= i <= e.len(),
        i <= a.len(),
        forall|j: int| 0 <= j < i ==> spec_verdict(e[j], #[trigger] a[j], req, false) is Pass,
    ensures
        verdict_elems(e, a, req) == verdict_elems(e.skip(i), a.skip(i), req),
    decreases i,
{
    if i == 0 {
        assert(e.skip(0) =~= e);
        assert(a.skip(0) =~= a);
    } else {
        lemma_verdict_elems_skip(e, a, req, i - 1);
        assert(e.skip(i - 1)[0] == e[i - 1]);
        assert(a.skip(i - 1)[0] == a[i - 1]);
        assert(e.skip(i - 1).drop_first() =~= e.skip(i));
        assert(a.skip(i - 1).drop_first() =~= a.skip(i));
    }
}

/// When no expected key is missing, every expected key is present.
proof fn lemma_missing_empty(e: Seq<(String, JsonValue)>, a: Seq<(String, JsonValue)>)
    requires
        missing_fields(e, a).len() == 0,
    ensures
        forall|j: int| 0 <= j < e.len() ==> key_index(a, (#[trigger] e[j]).0@) >= 0,
    decreases e.len(),
{
    if e.len() > 0 {
        lemma_missing_empty(e.drop_last(), a);
        assert forall|j: int| 0 <= j < e.len() implies key_index(a, (#[trigger] e[j]).0@) >= 0 by {
            if j < e.len() - 1 {
                assert(e.drop_last()[j] == e[j]);
            } else {
                assert(e[j] == e.last());
            }
        }
    }
}

/// The kind of one verification failure, carrying what the failure message
/// names: the stub-naming wrapper sits around it.
#[derive(Debug)]
pub enum VerificationErrorKind {
    AbsentFields(Vec<(String, JsonValue)>),
    ElementCount { expected: usize, actual: usize },
    MarkerMismatch { marker: String, actual: JsonValue },
    PathUnresolved { path: String },
    PathFieldMismatch { field: String, expected: JsonValue, actual: JsonValue },
    InvalidRegex { pattern: String },
    FieldMismatch { expected: JsonValue, actual: JsonValue },
    TypeMismatch { expected: JsonValue, actual: JsonValue },
}

/// A verification failure always names the stub under test, so a multi-stub
/// run can localise the failing expectation.
#[derive(Debug)]
pub struct VerificationFailure {
    pub stub: String,
    pub kind: VerificationErrorKind,
}

/// The carried failure faithfully renders the abstract verdict.
pub open spec fn kind_abs_ok(k: VerificationErrorKind, v: Verdict) -> bool {
    match (k, v) {
        (VerificationErrorKind::AbsentFields(fs), Verdict::AbsentFields(gs)) => {
            &&& fs@.len() == gs.len()
            &&& forall|i: int|
                0 <= i < gs.len() ==> (#[trigger] fs@[i]).0@ == gs[i].0 && json_eq(
                    fs@[i].1,
                    gs[i].1,
                )
        },
        (
            VerificationErrorKind::ElementCount { expected: e1, actual: a1 },
            Verdict::ElementCount { expected: e2, actual: a2 },
        ) => e1 == e2 && a1 == a2,
        (
            VerificationErrorKind::MarkerMismatch { marker: m1, actual: a1 },
            Verdict::MarkerMismatch { marker: m2, actual: a2 },
        ) => m1@ == m2 && json_eq(a1, a2),
        (
            VerificationErrorKind::PathUnresolved { path: p1 },
            Verdict::PathUnresolved { path: p2 },
        ) => p1@ == p2,
        (
            VerificationErrorKind::PathFieldMismatch { field: f1, expected: e1, actual: a1 },
            Verdict::PathFieldMismatch { field: f2, expected: e2, actual: a2 },
        ) => f1@ == f2 && json_eq(e1, e2) && json_eq(a1, a2),
        (
            VerificationErrorKind::InvalidRegex { pattern: p1 },
            Verdict::InvalidRegex { pattern: p2 },
        ) => p1@ == p2,
        (
            VerificationErrorKind::FieldMismatch { expected: e1, actual: a1 },
            Verdict::FieldMismatch { expected: e2, actual: a2 },
        ) => json_eq(e1, e2) && json_eq(a1, a2),
        (
            VerificationErrorKind::TypeMismatch { expected: e1, actual: a1 },
            Verdict::TypeMismatch { expected: e2, actual: a2 },
        ) => json_eq(e1, e2) && json_eq(a1, a2),
        _ => false,
    }
}

/// The last segment of the dotted path, for naming the field in a failure.
fn path_field(p: &str) -> (r: String)
    ensures
        r@ == spec_path_field(p@),
{
    proof {
        reveal_strlit("$.");
    }
    let n = p.unicode_len();
    if starts_with(p, "$.") && n > 2 {
        let segs = split_str(p.substring_char(2, n), '.');
        proof {
            lemma_split_len(p@.subrange(2, n as int), '.');
        }
        let last = segs.len() - 1;
        segs[last].clone()
    } else {
        p.to_owned()
    }
}

proof fn lemma_split_len(s: Seq<char>, c: char)
    ensures
        split_chars(s, c).len() >= 1,
    decreases s.len(),
{
    if crate::text::char_index(s, c) >= 0 {
        crate::text::lemma_char_index(s, c);
        lemma_split_len(s.subrange(crate::text::char_index(s, c) + 1, s.len() as int), c);
    }
}

fn verify_value(
    name: &str,
    expected: &JsonValue,
    actual: &JsonValue,
    req: &HttpRequest,
    nested: bool,
) -> (r: Result<(), VerificationFailure>)
    ensures
        r is Ok <==> spec_verdict(*expected, *actual, *req, nested) is Pass,
        r matches Err(f) ==> f.stub@ == name@ && kind_abs_ok(
            f.kind,
            spec_verdict(*expected, *actual, *req, nested),
        ),
    decreases *expected,
{
    match (expected, actual) {
        (JsonValue::Object(e), JsonValue::Object(a)) => {
            let mut missing: Vec<(String, JsonValue)> = Vec::new();
            let mut i: usize = 0;
            while i < e.len()
                invariant
                    i <= e@.len(),
                    missing@.len() == missing_fields(e@.take(i as int), a@).len(),
                    forall|k: int|
                        0 <= k < missing@.len() ==> (#[trigger] missing@[k]).0@ == missing_fields(
                            e@.take(i as int),
                            a@,
                        )[k].0 && json_eq(missing@[k].1, missing_fields(e@.take(i as int), a@)[k].1),
                decreases e@.len() - i,
            {
                proof {
                    assert(e@.take(i + 1).drop_last() =~= e@.take(i as int));
                    assert(e@.take(i + 1).last() == e@[i as int]);
                    lemma_key_index(a@, e@[i as int].0@);
                }
                let (k, v) = &e[i];
                if object_get(a, k.as_str()).is_none() {
                    missing.push((k.clone(), json_clone(v)));
                }
                i = i + 1;
            }
            proof {
                assert(e@.take(e@.len() as int) =~= e@);
            }
            if missing.len() > 0 {
                return Err(
                    VerificationFailure {
                        stub: name.to_owned(),
                        kind: VerificationErrorKind::AbsentFields(missing),
                    },
                );
            }
            proof {
                lemma_missing_empty(e@, a@);
            }
            let mut i: usize = 0;
            while i < e.len()
                invariant
                    i <= e@.len(),
                    *expected == JsonValue::Object(*e),
                    *actual == JsonValue::Object(*a),
                    missing_fields(e@, a@).len() == 0,
                    forall|j: int| 0 <= j < e@.len() ==> key_index(a@, (#[trigger] e@[j]).0@) >= 0,
                    forall|j: int| 0 <= j < i ==> field_pass(e@, a@, *req, j),
                decreases e@.len() - i,
            {
                proof {
                    assert(decreases_to!(*expected => expected->Object_0));
                    assert(decreases_to!(*e => e@[i as int]));
                    assert(decreases_to!(e@[i as int] => e@[i as int].1));
                }
                let (k, v) = &e[i];
                match object_get(a, k.as_str()) {
                    Some(av) => {
                        match verify_value(name, v, av, req, true) {
                            Ok(()) => {},
                            Err(f) => {
                                proof {
                                    lemma_verdict_fields_skip(e@, a@, *req, i as int);
                                    assert(e@.skip(i as int)[0] == e@[i as int]);
                                    assert(e@.skip(i as int).len() > 0);
                                }
                                return Err(f);
                            },
                        }
                    },
                    None => {
                        proof {
                            assert(key_index(a@, e@[i as int].0@) >= 0);
                            lemma_key_index(a@, e@[i as int].0@);
                            assert(false);
                        }
                    },
                }
                i = i + 1;
            }
            proof {
                lemma_verdict_fields_skip(e@, a@, *req, e@.len() as int);
                assert(e@.skip(e@.len() as int).len() == 0);
            }
            Ok(())
        },
        (JsonValue::Array(e), JsonValue::Array(a)) => {
            if a.len() < e.len() {
                return Err(
                    VerificationFailure {
                        stub: name.to_owned(),
                        kind: VerificationErrorKind::ElementCount {
                            expected: e.len(),
                            actual: a.len(),
                        },
                    },
                );
            }
            let mut i: usize = 0;
            while i < e.len()
                invariant
                    i <= e@.len(),
                    e@.len() <= a@.len(),
                    *expected == JsonValue::Array(*e),
                    *actual == JsonValue::Array(*a),
                    forall|j: int|
                        0 <= j < i ==> spec_verdict(e@[j], #[trigger] a@[j], *req, false) is Pass,
                decreases e@.len() - i,
            {
                proof {
                    assert(decreases_to!(*expected => expected->Array_0));
                    assert(decreases_to!(*e => e@[i as int]));
                }
                match verify_value(name, &e[i], &a[i], req, false) {
                    Ok(()) => {},
                    Err(f) => {
                        proof {
                            lemma_verdict_elems_skip(e@, a@, *req, i as int);
                            assert(e@.skip(i as int)[0] == e@[i as int]);
                            assert(a@.skip(i as int)[0] == a@[i as int]);
                            assert(e@.skip(i as int).len() > 0);
                            assert(a@.skip(i as int).len() > 0);
                        }
                        return Err(f);
                    },
                }
                i = i + 1;
            }
            proof {
                lemma_verdict_elems_skip(e@, a@, *req, e@.len() as int);
                assert(e@.skip(e@.len() as int).len() == 0);
            }
            Ok(())
        },
        _ => {
            let marker: Option<Marker> = match expected {
                JsonValue::Str(s) => classify(s.as_str()),
                _ => None,
            };
            match marker {
                Some(Marker::AnyNonBlank) => {
                    let ok = match actual {
                        JsonValue::Str(s) => !str_is_blank(s.as_str()),
                        _ => false,
                    };
                    if ok {
                        Ok(())
                    } else {
                        let mtext = match expected {
                            JsonValue::Str(s) => s.clone(),
                            _ => String::new(),
                        };
                        Err(
                            VerificationFailure {
                                stub: name.to_owned(),
                                kind: VerificationErrorKind::MarkerMismatch {
                                    marker: mtext,
                                    actual: json_clone(actual),
                                },
                            },
                        )
                    }
                },
                Some(Marker::AnyRegex(p)) => {
                    match canon_scalar_string(actual) {
                        Some(c) => {
                            match regex_is_match(p.as_str(), c.as_str()) {
                                Some(true) => Ok(()),
                                Some(false) => Err(
                                    VerificationFailure {
                                        stub: name.to_owned(),
                                        kind: VerificationErrorKind::MarkerMismatch {
                                            marker: p,
                                            actual: json_clone(actual),
                                        },
                                    },
                                ),
                                None => Err(
                                    VerificationFailure {
                                        stub: name.to_owned(),
                                        kind: VerificationErrorKind::InvalidRegex { pattern: p },
                                    },
                                ),
                            }
                        },
                        None => {
                            match regex_is_match(p.as_str(), "") {
                                None => Err(
                                    VerificationFailure {
                                        stub: name.to_owned(),
                                        kind: VerificationErrorKind::InvalidRegex { pattern: p },
                                    },
                                ),
                                Some(_) => Err(
                                    VerificationFailure {
                                        stub: name.to_owned(),
                                        kind: VerificationErrorKind::MarkerMismatch {
                                            marker: p,
                                            actual: json_clone(actual),
                                        },
                                    },
                                ),
                            }
                        },
                    }
                },
                Some(Marker::JsonPath(p)) => {
                    match &req.body {
                        Some(b) => {
                            match eval_json_path(b, p.as_str()) {
                                Some(x) => {
                                    if json_canon_value_eq(x, actual) {
                                        Ok(())
                                    } else {
                                        Err(
                                            VerificationFailure {
                                                stub: name.to_owned(),
                                                kind: VerificationErrorKind::PathFieldMismatch {
                                                    field: path_field(p.as_str()),
                                                    expected: json_clone(x),
                                                    actual: json_clone(actual),
                                                },
                                            },
                                        )
                                    }
                                },
                                None => Err(
                                    VerificationFailure {
                                        stub: name.to_owned(),
                                        kind: VerificationErrorKind::PathUnresolved { path: p },
                                    },
                                ),
                            }
                        },
                        None => Err(
                            VerificationFailure {
                                stub: name.to_owned(),
                                kind: VerificationErrorKind::PathUnresolved { path: p },
                            },
                        ),
                    }
                },
                Some(Marker::PathSegment(k)) => {
                    let segs = path_segments(req.path.as_str());
                    let mtext = match expected {
                        JsonValue::Str(s) => s.clone(),
                        _ => String::new(),
                    };
                    if k < segs.len() {
                        proof {
                            assert(segs@[k as int]@ == spec_path_segments(req.path@)[k as int]);
                        }
                        let ok = match canon_scalar_string(actual) {
                            Some(c) => str_eq(c.as_str(), segs[k].as_str()),
                            None => false,
                        };
                        if ok {
                            Ok(())
                        } else {
                            Err(
                                VerificationFailure {
                                    stub: name.to_owned(),
                                    kind: VerificationErrorKind::MarkerMismatch {
                                        marker: mtext,
                                        actual: json_clone(actual),
                                    },
                                },
                            )
                        }
                    } else {
                        Err(
                            VerificationFailure {
                                stub: name.to_owned(),
                                kind: VerificationErrorKind::PathUnresolved { path: mtext },
                            },
                        )
                    }
                },
                None => {
                    if json_value_eq(expected, actual) {
                        Ok(())
                    } else if nested {
                        Err(
                            VerificationFailure {
                                stub: name.to_owned(),
                                kind: VerificationErrorKind::FieldMismatch {
                                    expected: json_clone(expected),
                                    actual: json_clone(actual),
                                },
                            },
                        )
                    } else {
                        Err(
                            VerificationFailure {
                                stub: name.to_owned(),
                                kind: VerificationErrorKind::TypeMismatch {
                                    expected: json_clone(expected),
                                    actual: json_clone(actual),
                                },
                            },
                        )
                    }
                },
            }
        },
    }
}

/// One body verification: the observed body against the expectation template,
/// evaluated against the request that produced the exchange.
#[derive(Debug)]
pub struct JsonBodyTemplatingVerifier {
    pub actual: JsonValue,
    pub expected: JsonValue,
}

impl JsonBodyTemplatingVerifier {
    /// Succeeds exactly when the comparison passes; a failure names the stub
    /// and carries the first mismatch in comparison order.
    pub fn verify(self, name: &str, req: &HttpRequest) -> (r: Result<(), VerificationFailure>)
        ensures
            r is Ok <==> spec_verdict(self.expected, self.actual, *req, false) is Pass,
            r matches Err(f) ==> f.stub@ == name@ && kind_abs_ok(
                f.kind,
                spec_verdict(self.expected, self.actual, *req, false),
            ),
    {
        verify_value(name, &self.expected, &self.actual, req, false)
    }
}

} // verus!
