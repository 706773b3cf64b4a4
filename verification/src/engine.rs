//! The match engine: among the loaded stubs, the one answering a request is
//! the satisfied stub with the numerically smallest priority, ties broken by
//! load order (first loaded wins); none satisfied means no match, and the
//! serving layer answers 404.

use vstd::prelude::*;

use crate::matcher::{predicate_satisfied, spec_predicate_satisfied, HttpRequest};
use crate::model::JsonStub;

verus! {

/// The stub's request predicate is satisfied by the request.
pub open spec fn spec_satisfied(req: HttpRequest, stub: JsonStub) -> bool {
    spec_predicate_satisfied(req, stub.request)
}

/// Position of the best-matching stub: satisfied, of minimal priority among
/// the satisfied, and the first loaded among those of that priority. `None`
/// exactly when no stub's predicate is satisfied.
pub fn select(req: &HttpRequest, stubs: &Vec<JsonStub>) -> (r: Option<usize>)
    ensures
        match r {
            Some(i) => {
                &&& i < stubs@.len()
                &&& spec_satisfied(*req, stubs@[i as int])
                &&& forall|j: int|
                    0 <= j < stubs@.len() && spec_satisfied(*req, #[trigger] stubs@[j])
                        ==> stubs@[i as int].priority <= stubs@[j].priority
                &&& forall|j: int|
                    0 <= j < i && spec_satisfied(*req, #[trigger] stubs@[j]) ==> stubs@[
                        i as int
                    ].priority < stubs@[j].priority
            },
            None => forall|j: int|
                0 <= j < stubs@.len() ==> !spec_satisfied(*req, #[trigger] stubs@[j]),
        },
{
    let mut best: Option<usize> = None;
    let mut i: usize = 0;
    while i < stubs.len()
        invariant
            i <= stubs@.len(),
            match best {
                Some(b) => {
                    &&& b < i
                    &&& spec_satisfied(*req, stubs@[b as int])
                    &&& forall|j: int|
                        0 <= j < i && spec_satisfied(*req, #[trigger] stubs@[j]) ==> stubs@[
                            b as int
                        ].priority <= stubs@[j].priority
                    &&& forall|j: int|
                        0 <= j < b && spec_satisfied(*req, #[trigger] stubs@[j]) ==> stubs@[
                            b as int
                        ].priority < stubs@[j].priority
                },
                None => forall|j: int| 0 <= j < i ==> !spec_satisfied(*req, #[trigger] stubs@[j]),
            },
        decreases stubs@.len() - i,
    {
        if predicate_satisfied(req, &stubs[i].request) {
            match best {
                Some(b) => {
                    if stubs[i].priority < stubs[b].priority {
                        best = Some(i);
                    }
                },
                None => {
                    best = Some(i);
                },
            }
        }
        i = i + 1;
    }
    best
}

/// The status the serving layer answers with: the selected stub's declared
/// status, or 404 when no stub matches.
pub fn response_status_for(req: &HttpRequest, stubs: &Vec<JsonStub>) -> (r: u16)
    ensures
        (forall|j: int| 0 <= j < stubs@.len() ==> !spec_satisfied(*req, #[trigger] stubs@[j]))
            ==> r == 404,
        (exists|j: int| 0 <= j < stubs@.len() && spec_satisfied(*req, #[trigger] stubs@[j]))
            ==> exists|i: int|
            {
                &&& 0 <= i < stubs@.len()
                &&& spec_satisfied(*req, #[trigger] stubs@[i])
                &&& r == stubs@[i].response.status
                &&& forall|j: int|
                    0 <= j < stubs@.len() && spec_satisfied(*req, #[trigger] stubs@[j])
                        ==> stubs@[i].priority <= stubs@[j].priority
            },
{
    match select(req, stubs) {
        Some(i) => stubs[i].response.status,
        None => 404,
    }
}


/// One match is counted against the stub that served it; the counter
/// saturates rather than wraps.
pub fn count_match(counts: &mut Vec<u64>, i: usize)
    requires
        i < old(counts)@.len(),
    ensures
        final(counts)@ == old(counts)@.update(
            i as int,
            (if old(counts)@[i as int] == u64::MAX {
                u64::MAX
            } else {
                (old(counts)@[i as int] + 1) as u64
            }),
        ),
{
    let c = counts[i];
    if c < u64::MAX {
        counts.set(i, c + 1);
    } else {
        counts.set(i, u64::MAX);
        proof {
            assert(counts@ =~= old(counts)@.update(i as int, u64::MAX));
        }
    }
}

/// After traffic has quiesced: every stub that declares an expected call
/// count was served exactly that often.
pub fn expectations_met(stubs: &Vec<JsonStub>, counts: &Vec<u64>) -> (r: bool)
    requires
        counts@.len() == stubs@.len(),
    ensures
        r == forall|i: int|
            0 <= i < stubs@.len() ==> ((#[trigger] stubs@[i]).expect matches Some(e) ==> counts@[i]
                == e),
{
    let mut i: usize = 0;
    while i < stubs.len()
        invariant
            counts@.len() == stubs@.len(),
            i <= stubs@.len(),
            forall|j: int|
                0 <= j < i ==> ((#[trigger] stubs@[j]).expect matches Some(e) ==> counts@[j] == e),
        decreases stubs@.len() - i,
    {
        match stubs[i].expect {
            Some(e) => {
                if counts[i] != e {
                    return false;
                }
            },
            None => {},
        }
        i = i + 1;
    }
    true
}

} // verus!
