//! The laws the engines obey, stated and proved once for all inputs. The
//! selection laws — no match means no stub is served, and priority with load
//! order decides among matches — are the `ensures` of `engine::select` itself.

use vstd::prelude::*;

use crate::json::{canon_scalar, json_canon_eq, json_eq, JsonValue};
use crate::matcher::{
    spec_ci_header_match, spec_predicate_satisfied, spec_value_ok, HeaderCaseInsensitiveMatcher,
    HttpRequest,
};
use crate::model::{
    spec_equal_to_as_str, spec_is_case_insensitive, spec_is_contains, spec_is_equal_to,
    spec_is_exact_match, JsonStub, RequestMatcherDto, RequestStub,
};
use crate::repository::{matcher_value_rel, request_rel, stub_parses};
use crate::record::{
    exact_str_matcher, kept_headers, lemma_kept_headers, recorded_stub_rel, request_of_exchange,
    spec_req_body_json, RecordConfig, RecordedExchange,
};
use crate::text::chars_ci_eq;
use crate::verify::{spec_verdict, verdict_elems, Verdict};

verus! {

broadcast use
    vstd::std_specs::vec::axiom_vec_index_decreases,
    vstd::seq::axiom_seq_index_decreases;

/// A case-insensitive header matcher succeeds on any letter-case variant of
/// its expected value, under any letter-case variant of its header name.
pub proof fn lemma_ci_matcher_accepts_case_variant(
    m: HeaderCaseInsensitiveMatcher,
    headers: Seq<(String, Vec<String>)>,
    i: int,
    j: int,
)
    requires
        0 <= i < headers.len(),
        chars_ci_eq(headers[i].0@, m.0@),
        0 <= j < headers[i].1@.len(),
        chars_ci_eq(headers[i].1@[j]@, m.1@),
    ensures
        spec_ci_header_match(m, headers),
{
}

/// An exact matcher accepts nothing but the canonical expected string itself:
/// in particular it rejects every other letter-case variant of it.
pub proof fn lemma_exact_matcher_rejects_other_values(m: RequestMatcherDto, actual: Seq<char>)
    requires
        spec_is_exact_match(m),
        spec_equal_to_as_str(m) is Some,
        actual != spec_equal_to_as_str(m)->0,
    ensures
        !spec_value_ok(m, actual),
{
}

/// An actual array shorter than the expected one fails, reporting the two
/// element counts.
pub proof fn lemma_array_shorter_fails(
    expected: JsonValue,
    actual: JsonValue,
    req: HttpRequest,
    nested: bool,
)
    requires
        expected is Array,
        actual is Array,
        actual->Array_0@.len() < expected->Array_0@.len(),
    ensures
        spec_verdict(expected, actual, req, nested) == (Verdict::ElementCount {
            expected: expected->Array_0@.len() as int,
            actual: actual->Array_0@.len() as int,
        }),
{
}

/// Two empty arrays verify.
pub proof fn lemma_arrays_empty_pass(
    expected: JsonValue,
    actual: JsonValue,
    req: HttpRequest,
    nested: bool,
)
    requires
        expected is Array,
        actual is Array,
        expected->Array_0@.len() == 0,
        actual->Array_0@.len() == 0,
    ensures
        spec_verdict(expected, actual, req, nested) is Pass,
{
}

proof fn lemma_elems_pass(e: Seq<JsonValue>, a: Seq<JsonValue>, req: HttpRequest)
    requires
        e.len() <= a.len(),
        forall|i: int| 0 <= i < e.len() ==> spec_verdict(e[i], #[trigger] a[i], req, false) is Pass,
    ensures
        verdict_elems(e, a, req) is Pass,
    decreases e.len(),
{
    if e.len() > 0 {
        let e2 = e.drop_first();
        let a2 = a.drop_first();
        assert(forall|i: int| 0 <= i < e2.len() ==> #[trigger] e2[i] == e[i + 1]);
        assert(forall|i: int| 0 <= i < a2.len() ==> #[trigger] a2[i] == a[i + 1]);
        assert forall|i: int| 0 <= i < e2.len() implies spec_verdict(
            e2[i],
            #[trigger] a2[i],
            req,
            false,
        ) is Pass by {
            assert(spec_verdict(e[i + 1], a[i + 1], req, false) is Pass);
        }
        lemma_elems_pass(e2, a2, req);
    }
}

/// An actual array at least as long as the expected one verifies when the
/// paired elements do; the trailing extra elements are tolerated.
pub proof fn lemma_arrays_elementwise_pass(
    expected: JsonValue,
    actual: JsonValue,
    req: HttpRequest,
    nested: bool,
)
    requires
        expected is Array,
        actual is Array,
        expected->Array_0@.len() <= actual->Array_0@.len(),
        forall|i: int|
            0 <= i < expected->Array_0@.len() ==> spec_verdict(
                expected->Array_0@[i],
                #[trigger] actual->Array_0@[i],
                req,
                false,
            ) is Pass,
    ensures
        spec_verdict(expected, actual, req, nested) is Pass,
{
    lemma_elems_pass(expected->Array_0@, actual->Array_0@, req);
}

/// Values structurally equal to a common one are canonically equal.
pub proof fn lemma_json_eq_canon(a: JsonValue, b: JsonValue, c: JsonValue)
    requires
        json_eq(a, c),
        json_eq(b, c),
    ensures
        json_canon_eq(a, b),
    decreases c,
{
    match c {
        JsonValue::Array(xs) => {
            let ae = a->Array_0@;
            let be = b->Array_0@;
            assert forall|i: int| 0 <= i < ae.len() implies json_canon_eq(
                #[trigger] ae[i],
                be[i],
            ) by {
                assert(json_eq(ae[i], xs@[i]));
                assert(json_eq(be[i], xs@[i]));
                assert(decreases_to!(c => c->Array_0));
                assert(decreases_to!(xs => xs@[i]));
                lemma_json_eq_canon(ae[i], be[i], xs@[i]);
            }
        },
        JsonValue::Object(ms) => {
            let ae = a->Object_0@;
            let be = b->Object_0@;
            assert forall|i: int| 0 <= i < ae.len() implies (#[trigger] ae[i]).0@ == be[i].0@
                && json_canon_eq(ae[i].1, be[i].1) by {
                assert(json_eq(ae[i].1, ms@[i].1));
                assert(json_eq(be[i].1, ms@[i].1));
                assert(decreases_to!(c => c->Object_0));
                assert(decreases_to!(ms => ms@[i]));
                assert(decreases_to!(ms@[i] => ms@[i].1));
                lemma_json_eq_canon(ae[i].1, be[i].1, ms@[i].1);
            }
        },
        _ => {},
    }
}

/// Round trip: a stub recorded from an exchange is matched by the very
/// request that produced the exchange.
pub proof fn lemma_recorded_stub_matches(
    ex: RecordedExchange,
    cfg: RecordConfig,
    s: JsonStub,
    req: HttpRequest,
)
    requires
        recorded_stub_rel(ex, cfg, s),
        request_of_exchange(ex, req),
    ensures
        spec_predicate_satisfied(req, s.request),
{
    // each recorded header matcher is satisfied by the header it came from
    let kept = kept_headers(ex.0.headers@, cfg.except_request_headers@);
    lemma_kept_headers(ex.0.headers@, cfg.except_request_headers@);
    assert forall|k: int| 0 <= k < s.request.headers@.len() implies
        crate::matcher::spec_header_matcher_ok(
        #[trigger] s.request.headers@[k],
        req.headers@,
    ) by {
        let m = s.request.headers@[k];
        assert(exact_str_matcher(m, kept[k].0@, kept[k].1@));
        let i = choose|i: int| 0 <= i < ex.0.headers@.len() && ex.0.headers@[i] == kept[k];
        assert(req.headers@[i].0@ == m.key@);
        assert(chars_ci_eq(req.headers@[i].0@, m.key@));
        assert(req.headers@[i].1@[0]@ == kept[k].1@);
        assert(spec_equal_to_as_str(m) == Some(kept[k].1@));
        assert(spec_value_ok(m, req.headers@[i].1@[0]@));
    }
    // each recorded query matcher is satisfied by its own query parameter
    assert forall|k: int| 0 <= k < s.request.query_parameters@.len() implies
        crate::matcher::spec_query_matcher_ok(
        #[trigger] s.request.query_parameters@[k],
        req.queries@,
    ) by {
        let m = s.request.query_parameters@[k];
        assert(exact_str_matcher(m, ex.0.queries@[k].0@, ex.0.queries@[k].1@));
        assert((req.queries@[k]).0@ == m.key@);
        assert(spec_equal_to_as_str(m) == Some(ex.0.queries@[k].1@));
        assert(spec_value_ok(m, req.queries@[k].1@));
    }
    // the recorded body pattern is satisfied by the captured body
    assert forall|k: int| 0 <= k < s.request.body_patterns@.len() implies
        crate::matcher::spec_body_pattern_ok(#[trigger] s.request.body_patterns@[k], req.body) by {
        assert(spec_req_body_json(ex.0));
        let e = s.request.body_patterns@[0].equal_to_json->0;
        lemma_json_eq_canon(e, req.body->0, ex.0.body_json->0);
    }
}


/// Scalars structurally equal to a common value render canonically alike.
proof fn lemma_canon_congruent(a: JsonValue, b: JsonValue, x: JsonValue)
    requires
        json_eq(a, x),
        json_eq(b, x),
    ensures
        canon_scalar(a) == canon_scalar(b),
{
}

/// Canonical equality sees no difference between two values structurally
/// equal to a common one.
proof fn lemma_canon_eq_congruent(e1: JsonValue, e2: JsonValue, x: JsonValue, b: JsonValue)
    requires
        json_eq(e1, x),
        json_eq(e2, x),
    ensures
        json_canon_eq(e1, b) == json_canon_eq(e2, b),
    decreases x,
{
    match x {
        JsonValue::Array(xs) => {
            let a1 = e1->Array_0@;
            let a2 = e2->Array_0@;
            if b is Array {
                let bs = b->Array_0@;
                assert forall|i: int|
                    #![trigger a1[i]]
                    #![trigger a2[i]]
                    0 <= i < a1.len() && 0 <= i < bs.len() implies json_canon_eq(a1[i], bs[i])
                    == json_canon_eq(a2[i], bs[i]) by {
                    assert(json_eq(a1[i], xs@[i]));
                    assert(json_eq(a2[i], xs@[i]));
                    assert(decreases_to!(x => x->Array_0));
                    assert(decreases_to!(xs => xs@[i]));
                    lemma_canon_eq_congruent(a1[i], a2[i], xs@[i], bs[i]);
                }
            }
        },
        JsonValue::Object(xs) => {
            let a1 = e1->Object_0@;
            let a2 = e2->Object_0@;
            if b is Object {
                let bs = b->Object_0@;
                assert forall|i: int|
                    #![trigger a1[i]]
                    #![trigger a2[i]]
                    0 <= i < a1.len() && 0 <= i < bs.len() implies a1[i].0@ == a2[i].0@
                    && json_canon_eq(a1[i].1, bs[i].1) == json_canon_eq(a2[i].1, bs[i].1) by {
                    assert(json_eq(a1[i].1, xs@[i].1));
                    assert(json_eq(a2[i].1, xs@[i].1));
                    assert(decreases_to!(x => x->Object_0));
                    assert(decreases_to!(xs => xs@[i]));
                    assert(decreases_to!(xs@[i] => xs@[i].1));
                    lemma_canon_eq_congruent(a1[i].1, a2[i].1, xs@[i].1, bs[i].1);
                }
            }
        },
        _ => {
            lemma_canon_congruent(e1, e2, x);
        },
    }
}

/// Two matchers parsed from the same document member are interchangeable.
proof fn lemma_matcher_congruent(m1: RequestMatcherDto, m2: RequestMatcherDto, d: JsonValue)
    requires
        m1.key@ == m2.key@,
        matcher_value_rel(d, m1.value),
        matcher_value_rel(d, m2.value),
    ensures
        spec_is_equal_to(m1) == spec_is_equal_to(m2),
        spec_is_case_insensitive(m1) == spec_is_case_insensitive(m2),
        spec_is_contains(m1) == spec_is_contains(m2),
        spec_equal_to_as_str(m1) == spec_equal_to_as_str(m2),
        forall|actual: Seq<char>| spec_value_ok(m1, actual) == spec_value_ok(m2, actual),
{
    match d {
        JsonValue::Object(ms) => {
            match crate::json::object_value(ms@, "equalTo"@) {
                Some(x) => {
                    lemma_canon_congruent(m1.value->0.equal_to->0, m2.value->0.equal_to->0, x);
                },
                None => {},
            }
        },
        _ => {},
    }
}

/// Two request predicates parsed from the same document section are satisfied
/// by exactly the same requests.
pub proof fn lemma_parsed_request_matches(
    v: JsonValue,
    r1: RequestStub,
    r2: RequestStub,
    req: HttpRequest,
)
    requires
        request_rel(v, r1),
        request_rel(v, r2),
        spec_predicate_satisfied(req, r1),
    ensures
        spec_predicate_satisfied(req, r2),
{
    let ms = v->Object_0@;
    assert forall|i: int| 0 <= i < r2.headers@.len() implies crate::matcher::spec_header_matcher_ok(
        #[trigger] r2.headers@[i],
        req.headers@,
    ) by {
        let hv = crate::json::object_value(ms, "headers"@)->0;
        let hms = hv->Object_0@;
        lemma_matcher_congruent(r1.headers@[i], r2.headers@[i], hms[i].1);
        assert(crate::matcher::spec_header_matcher_ok(r1.headers@[i], req.headers@));
    }
    assert forall|i: int| 0 <= i < r2.query_parameters@.len() implies
        crate::matcher::spec_query_matcher_ok(#[trigger] r2.query_parameters@[i], req.queries@) by {
        let qv = crate::json::object_value(ms, "queryParameters"@)->0;
        let qms = qv->Object_0@;
        lemma_matcher_congruent(r1.query_parameters@[i], r2.query_parameters@[i], qms[i].1);
        assert(crate::matcher::spec_query_matcher_ok(r1.query_parameters@[i], req.queries@));
    }
    assert forall|i: int| 0 <= i < r2.body_patterns@.len() implies
        crate::matcher::spec_body_pattern_ok(#[trigger] r2.body_patterns@[i], req.body) by {
        let bv = crate::json::object_value(ms, "bodyPatterns"@)->0;
        let bms = bv->Array_0@;
        assert(crate::matcher::spec_body_pattern_ok(r1.body_patterns@[i], req.body));
        match bms[i] {
            JsonValue::Object(pm) => {
                match crate::json::object_value(pm@, "equalToJson"@) {
                    Some(x) => {
                        if req.body is Some {
                            lemma_canon_eq_congruent(
                                r1.body_patterns@[i].equal_to_json->0,
                                r2.body_patterns@[i].equal_to_json->0,
                                x,
                                req.body->0,
                            );
                        }
                    },
                    None => {},
                }
            },
            _ => {},
        }
    }
}

/// Round trip, whole: a stub recorded from an exchange and written out, once
/// loaded back by the repository, is matched by the very request that
/// produced the exchange.
pub proof fn lemma_recorded_stub_round_trip(
    ex: RecordedExchange,
    cfg: RecordConfig,
    s: JsonStub,
    doc: JsonValue,
    loaded: JsonStub,
    req: HttpRequest,
)
    requires
        recorded_stub_rel(ex, cfg, s),
        stub_parses(doc, s),
        stub_parses(doc, loaded),
        request_of_exchange(ex, req),
    ensures
        spec_predicate_satisfied(req, loaded.request),
{
    lemma_recorded_stub_matches(ex, cfg, s, req);
    let rq = crate::json::object_value(doc->Object_0@, "request"@)->0;
    lemma_parsed_request_matches(rq, s.request, loaded.request, req);
}

} // verus!
