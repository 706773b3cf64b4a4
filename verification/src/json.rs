//! A JSON-shaped value: the payload type that stub files, request bodies and
//! response bodies are modelled with. Objects keep their key order; numbers
//! are integers (the matching rules only ever compare integral numbers).

use vstd::prelude::*;

use crate::text::{int_str, i64_to_string};

verus! {

broadcast use vstd::std_specs::vec::axiom_vec_index_decreases;

#[derive(Debug)]
pub enum JsonValue {
    Null,
    Bool(bool),
    Int(i64),
    Str(String),
    Array(Vec<JsonValue>),
    Object(Vec<(String, JsonValue)>),
}

/// Deep structural equality of two JSON values: same shape, same scalars,
/// arrays element for element, objects pair for pair (key order counts).
pub open spec fn json_eq(a: JsonValue, b: JsonValue) -> bool
    decreases a,
{
    match (a, b) {
        (JsonValue::Null, JsonValue::Null) => true,
        (JsonValue::Bool(x), JsonValue::Bool(y)) => x == y,
        (JsonValue::Int(x), JsonValue::Int(y)) => x == y,
        (JsonValue::Str(x), JsonValue::Str(y)) => x@ == y@,
        (JsonValue::Array(x), JsonValue::Array(y)) => {
            &&& x@.len() == y@.len()
            &&& forall|i: int| 0 <= i < x@.len() ==> json_eq(#[trigger] x@[i], y@[i])
        },
        (JsonValue::Object(x), JsonValue::Object(y)) => {
            &&& x@.len() == y@.len()
            &&& forall|i: int|
                0 <= i < x@.len() ==> (#[trigger] x@[i]).0@ == y@[i].0@ && json_eq(x@[i].1, y@[i].1)
        },
        _ => false,
    }
}

pub fn json_value_eq(a: &JsonValue, b: &JsonValue) -> (r: bool)
    ensures
        r == json_eq(*a, *b),
    decreases *a,
{
    match (a, b) {
        (JsonValue::Null, JsonValue::Null) => true,
        (JsonValue::Bool(x), JsonValue::Bool(y)) => *x == *y,
        (JsonValue::Int(x), JsonValue::Int(y)) => *x == *y,
        (JsonValue::Str(x), JsonValue::Str(y)) => *x == *y,
        (JsonValue::Array(x), JsonValue::Array(y)) => {
            if x.len() != y.len() {
                return false;
            }
            let mut i: usize = 0;
            while i < x.len()
                invariant
                    i <= x@.len(),
                    x@.len() == y@.len(),
                    *a == JsonValue::Array(*x),
                    *b == JsonValue::Array(*y),
                    forall|j: int| 0 <= j < i ==> json_eq(#[trigger] x@[j], y@[j]),
                decreases x@.len() - i,
            {
                proof {
                    assert(decreases_to!(*a => a->Array_0));
                    assert(decreases_to!(*x => x@[i as int]));
                }
                if !json_value_eq(&x[i], &y[i]) {
                    return false;
                }
                i = i + 1;
            }
            true
        },
        (JsonValue::Object(x), JsonValue::Object(y)) => {
            if x.len() != y.len() {
                return false;
            }
            let mut i: usize = 0;
            while i < x.len()
                invariant
                    i <= x@.len(),
                    x@.len() == y@.len(),
                    *a == JsonValue::Object(*x),
                    *b == JsonValue::Object(*y),
                    forall|j: int|
                        0 <= j < i ==> (#[trigger] x@[j]).0@ == y@[j].0@ && json_eq(x@[j].1, y@[j].1),
                decreases x@.len() - i,
            {
                proof {
                    assert(decreases_to!(*a => a->Object_0));
                    assert(decreases_to!(*x => x@[i as int]));
                    assert(decreases_to!(x@[i as int] => x@[i as int].1));
                }
                let (xk, xv) = &x[i];
                let (yk, yv) = &y[i];
                if !(*xk == *yk) {
                    return false;
                }
                if !json_value_eq(xv, yv) {
                    return false;
                }
                i = i + 1;
            }
            true
        },
        _ => false,
    }
}

/// Canonical character rendering of `true` and `false`.
pub open spec fn bool_chars(b: bool) -> Seq<char> {
    if b {
        seq!['t', 'r', 'u', 'e']
    } else {
        seq!['f', 'a', 'l', 's', 'e']
    }
}

/// The canonical string rendering of a scalar JSON value: strings as
/// themselves, booleans as their literal spelling, integers in decimal.
/// Nulls, arrays and objects have none.
pub open spec fn canon_scalar(v: JsonValue) -> Option<Seq<char>> {
    match v {
        JsonValue::Str(s) => Some(s@),
        JsonValue::Bool(b) => Some(bool_chars(b)),
        JsonValue::Int(i) => Some(int_str(i as int)),
        _ => None,
    }
}

pub fn canon_scalar_string(v: &JsonValue) -> (r: Option<String>)
    ensures
        match r {
            Some(s) => canon_scalar(*v) == Some(s@),
            None => canon_scalar(*v) is None,
        },
{
    match v {
        JsonValue::Str(s) => Some(s.clone()),
        JsonValue::Bool(b) => {
            proof {
                reveal_strlit("true");
                reveal_strlit("false");
                assert("true"@ =~= bool_chars(true));
                assert("false"@ =~= bool_chars(false));
            }
            if *b {
                Some(String::from_str("true"))
            } else {
                Some(String::from_str("false"))
            }
        },
        JsonValue::Int(i) => Some(i64_to_string(*i)),
        _ => None,
    }
}

/// Equality up to canonical scalar rendering: two scalars are equal when their
/// canonical strings are (so the number 42 equals the string "42"); arrays and
/// objects compare recursively.
pub open spec fn json_canon_eq(a: JsonValue, b: JsonValue) -> bool
    decreases a,
{
    match (a, b) {
        (JsonValue::Array(x), JsonValue::Array(y)) => {
            &&& x@.len() == y@.len()
            &&& forall|i: int| 0 <= i < x@.len() ==> json_canon_eq(#[trigger] x@[i], y@[i])
        },
        (JsonValue::Object(x), JsonValue::Object(y)) => {
            &&& x@.len() == y@.len()
            &&& forall|i: int|
                0 <= i < x@.len() ==> (#[trigger] x@[i]).0@ == y@[i].0@ && json_canon_eq(
                    x@[i].1,
                    y@[i].1,
                )
        },
        _ => {
            if canon_scalar(a) is Some && canon_scalar(b) is Some {
                canon_scalar(a) == canon_scalar(b)
            } else {
                json_eq(a, b)
            }
        },
    }
}

pub fn json_canon_value_eq(a: &JsonValue, b: &JsonValue) -> (r: bool)
    ensures
        r == json_canon_eq(*a, *b),
    decreases *a,
{
    match (a, b) {
        (JsonValue::Array(x), JsonValue::Array(y)) => {
            if x.len() != y.len() {
                return false;
            }
            let mut i: usize = 0;
            while i < x.len()
                invariant
                    i <= x@.len(),
                    x@.len() == y@.len(),
                    *a == JsonValue::Array(*x),
                    *b == JsonValue::Array(*y),
                    forall|j: int| 0 <= j < i ==> json_canon_eq(#[trigger] x@[j], y@[j]),
                decreases x@.len() - i,
            {
                proof {
                    assert(decreases_to!(*a => a->Array_0));
                    assert(decreases_to!(*x => x@[i as int]));
                }
                if !json_canon_value_eq(&x[i], &y[i]) {
                    return false;
                }
                i = i + 1;
            }
            true
        },
        (JsonValue::Object(x), JsonValue::Object(y)) => {
            if x.len() != y.len() {
                return false;
            }
            let mut i: usize = 0;
            while i < x.len()
                invariant
                    i <= x@.len(),
                    x@.len() == y@.len(),
                    *a == JsonValue::Object(*x),
                    *b == JsonValue::Object(*y),
                    forall|j: int|
                        0 <= j < i ==> (#[trigger] x@[j]).0@ == y@[j].0@ && json_canon_eq(
                            x@[j].1,
                            y@[j].1,
                        ),
                decreases x@.len() - i,
            {
                proof {
                    assert(decreases_to!(*a => a->Object_0));
                    assert(decreases_to!(*x => x@[i as int]));
                    assert(decreases_to!(x@[i as int] => x@[i as int].1));
                }
                let (xk, xv) = &x[i];
                let (yk, yv) = &y[i];
                if !(*xk == *yk) {
                    return false;
                }
                if !json_canon_value_eq(xv, yv) {
                    return false;
                }
                i = i + 1;
            }
            true
        },
        _ => {
            let ca = canon_scalar_string(a);
            let cb = canon_scalar_string(b);
            match (ca, cb) {
                (Some(sa), Some(sb)) => sa == sb,
                _ => json_value_eq(a, b),
            }
        },
    }
}

/// Index of the first member of an object with the given key, or -1.
pub open spec fn key_index(ms: Seq<(String, JsonValue)>, key: Seq<char>) -> int
    decreases ms.len(),
{
    if ms.len() == 0 {
        -1
    } else if ms[0].0@ == key {
        0
    } else if key_index(ms.drop_first(), key) < 0 {
        -1
    } else {
        key_index(ms.drop_first(), key) + 1
    }
}

pub proof fn lemma_key_index(ms: Seq<(String, JsonValue)>, key: Seq<char>)
    ensures
        key_index(ms, key) == -1 ==> forall|j: int| 0 <= j < ms.len() ==> (#[trigger] ms[j]).0@ != key,
        key_index(ms, key) >= 0 ==> {
            &&& key_index(ms, key) < ms.len()
            &&& ms[key_index(ms, key)].0@ == key
            &&& forall|j: int| 0 <= j < key_index(ms, key) ==> (#[trigger] ms[j]).0@ != key
        },
    decreases ms.len(),
{
    if ms.len() > 0 && ms[0].0@ != key {
        let d = ms.drop_first();
        lemma_key_index(d, key);
        if key_index(d, key) == -1 {
            assert forall|j: int| 0 <= j < ms.len() implies (#[trigger] ms[j]).0@ != key by {
                if j >= 1 {
                    assert(d[j - 1].0@ != key);
                    assert(ms[j] == d[j - 1]);
                }
            }
        } else {
            let r = key_index(d, key);
            assert(ms[r + 1] == d[r]);
            assert forall|j: int| 0 <= j < r + 1 implies (#[trigger] ms[j]).0@ != key by {
                if j >= 1 {
                    assert(d[j - 1].0@ != key);
                    assert(ms[j] == d[j - 1]);
                }
            }
        }
    }
}

/// The value under the first member with the given key, if any.
pub open spec fn object_value(ms: Seq<(String, JsonValue)>, key: Seq<char>) -> Option<JsonValue> {
    if key_index(ms, key) >= 0 {
        Some(ms[key_index(ms, key)].1)
    } else {
        None
    }
}

pub fn object_get<'a>(ms: &'a Vec<(String, JsonValue)>, key: &str) -> (r: Option<&'a JsonValue>)
    ensures
        match r {
            Some(v) => object_value(ms@, key@) == Some(*v),
            None => object_value(ms@, key@) is None,
        },
{
    let mut i: usize = 0;
    while i < ms.len()
        invariant
            i <= ms@.len(),
            forall|j: int| 0 <= j < i ==> (#[trigger] ms@[j]).0@ != key@,
        decreases ms@.len() - i,
    {
        let (k, v) = &ms[i];
        if k.as_str().unicode_len() == key.unicode_len() && {
            let mut eq = true;
            let n = key.unicode_len();
            let mut c: usize = 0;
            while c < n
                invariant
                    n == key@.len(),
                    k@.len() == n,
                    c <= n,
                    eq == (forall|m: int| 0 <= m < c ==> k@[m] == #[trigger] key@[m]),
                decreases n - c,
            {
                if k.as_str().get_char(c) != key.get_char(c) {
                    assert(k@[c as int] != key@[c as int]);
                    eq = false;
                    assert(!(forall|m: int| 0 <= m < c + 1 ==> k@[m] == #[trigger] key@[m]));
                    c = n;
                } else {
                    c = c + 1;
                }
            }
            if eq {
                assert(k@ =~= key@);
            }
            eq
        } {
            proof {
                lemma_key_index(ms@, key@);
            }
            return Some(v);
        }
        i = i + 1;
    }
    proof {
        lemma_key_index(ms@, key@);
    }
    None
}

/// A deep copy: the clone is structurally equal to the original.
pub fn json_clone(a: &JsonValue) -> (r: JsonValue)
    ensures
        json_eq(r, *a),
    decreases *a,
{
    match a {
        JsonValue::Null => JsonValue::Null,
        JsonValue::Bool(b) => JsonValue::Bool(*b),
        JsonValue::Int(i) => JsonValue::Int(*i),
        JsonValue::Str(s) => JsonValue::Str(s.clone()),
        JsonValue::Array(x) => {
            let mut out: Vec<JsonValue> = Vec::new();
            let mut i: usize = 0;
            while i < x.len()
                invariant
                    i <= x@.len(),
                    out@.len() == i,
                    *a == JsonValue::Array(*x),
                    forall|j: int| 0 <= j < i ==> json_eq(#[trigger] out@[j], x@[j]),
                decreases x@.len() - i,
            {
                proof {
                    assert(decreases_to!(*a => a->Array_0));
                    assert(decreases_to!(*x => x@[i as int]));
                }
                let c = json_clone(&x[i]);
                out.push(c);
                i = i + 1;
            }
            JsonValue::Array(out)
        },
        JsonValue::Object(x) => {
            let mut out: Vec<(String, JsonValue)> = Vec::new();
            let mut i: usize = 0;
            while i < x.len()
                invariant
                    i <= x@.len(),
                    out@.len() == i,
                    *a == JsonValue::Object(*x),
                    forall|j: int|
                        0 <= j < i ==> (#[trigger] out@[j]).0@ == x@[j].0@ && json_eq(
                            out@[j].1,
                            x@[j].1,
                        ),
                decreases x@.len() - i,
            {
                proof {
                    assert(decreases_to!(*a => a->Object_0));
                    assert(decreases_to!(*x => x@[i as int]));
                    assert(decreases_to!(x@[i as int] => x@[i as int].1));
                }
                let (k, v) = &x[i];
                let c = json_clone(v);
                out.push((k.clone(), c));
                i = i + 1;
            }
            JsonValue::Object(out)
        },
    }
}

/// Structural equality is symmetric.
pub proof fn lemma_json_eq_sym(a: JsonValue, b: JsonValue)
    requires
        json_eq(a, b),
    ensures
        json_eq(b, a),
    decreases a,
{
    match (a, b) {
        (JsonValue::Array(x), JsonValue::Array(y)) => {
            assert forall|i: int| 0 <= i < y@.len() implies json_eq(#[trigger] y@[i], x@[i]) by {
                assert(decreases_to!(a => a->Array_0));
                assert(decreases_to!(x => x@[i]));
                lemma_json_eq_sym(x@[i], y@[i]);
            }
        },
        (JsonValue::Object(x), JsonValue::Object(y)) => {
            assert forall|i: int| 0 <= i < y@.len() implies (#[trigger] y@[i]).0@ == x@[i].0@
                && json_eq(y@[i].1, x@[i].1) by {
                assert(decreases_to!(a => a->Object_0));
                assert(decreases_to!(x => x@[i]));
                assert(decreases_to!(x@[i] => x@[i].1));
                lemma_json_eq_sym(x@[i].1, y@[i].1);
            }
        },
        _ => {},
    }
}

/// An object has no member under a key that no member carries.
pub proof fn lemma_object_value_absent(ms: Seq<(String, JsonValue)>, key: Seq<char>)
    requires
        forall|j: int| 0 <= j < ms.len() ==> (#[trigger] ms[j]).0@ != key,
    ensures
        object_value(ms, key) is None,
{
    lemma_key_index(ms, key);
    if key_index(ms, key) >= 0 {
        assert(ms[key_index(ms, key)].0@ == key);
    }
}

/// The first member under a key is the one an object lookup finds.
pub proof fn lemma_object_value_at(ms: Seq<(String, JsonValue)>, key: Seq<char>, i: int)
    requires
        0 <= i < ms.len(),
        ms[i].0@ == key,
        forall|j: int| 0 <= j < i ==> (#[trigger] ms[j]).0@ != key,
    ensures
        object_value(ms, key) == Some(ms[i].1),
{
    lemma_key_index(ms, key);
    let r = key_index(ms, key);
    if r == -1 {
        assert(ms[i].0@ != key);
    } else {
        if r < i {
            assert(ms[r].0@ != key);
        }
        if r > i {
            assert(ms[i].0@ != key);
        }
        assert(r == i);
    }
}

} // verus!
