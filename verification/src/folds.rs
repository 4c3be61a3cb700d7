//! Going through a sequence step by step until a step fails.

use crate::error::{EpubError, Fault};
use vstd::prelude::*;

verus! {

/// The state after every item of `s` was taken in by `f`, starting from
/// `init`; or the failure of the first step that failed.
pub open spec fn try_fold<A, S>(s: Seq<A>, init: S, f: spec_fn(S, A) -> Result<S, Fault>) -> Result<
    S,
    Fault,
>
    decreases s.len(),
{
    if s.len() == 0 {
        Ok(init)
    } else {
        match try_fold(s.drop_last(), init, f) {
            Err(fault) => Err(fault),
            Ok(state) => f(state, s.last()),
        }
    }
}

/// One more item: the step from the state before it.
pub proof fn lemma_try_fold_step<A, S>(
    s: Seq<A>,
    init: S,
    f: spec_fn(S, A) -> Result<S, Fault>,
    k: int,
)
    requires
        0 <= k < s.len(),
    ensures
        try_fold(s.take(k + 1), init, f) == match try_fold(s.take(k), init, f) {
            Err(fault) => Err(fault),
            Ok(state) => f(state, s[k]),
        },
{
    assert(s.take(k + 1).drop_last() =~= s.take(k));
    assert(s.take(k + 1).last() == s[k]);
}

/// A failure stays: what failed after `k` items fails the whole.
pub proof fn lemma_try_fold_fails<A, S>(
    s: Seq<A>,
    init: S,
    f: spec_fn(S, A) -> Result<S, Fault>,
    k: int,
)
    requires
        0 <= k <= s.len(),
        try_fold(s.take(k), init, f) is Err,
    ensures
        try_fold(s, init, f) == try_fold(s.take(k), init, f),
    decreases s.len(),
{
    if k == s.len() {
        assert(s.take(k) =~= s);
    } else {
        assert(s.drop_last().take(k) =~= s.take(k));
        lemma_try_fold_fails(s.drop_last(), init, f, k);
    }
}

/// The first item of `s`.
pub open spec fn first_of<A>(s: Seq<A>) -> Option<A> {
    if s.len() == 0 {
        None
    } else {
        Some(s[0])
    }
}

/// Where no item before `i` meets `pred`, the first item that meets it is
/// the one at `i`, or none if `i` is the end.
pub proof fn lemma_first_match<A>(s: Seq<A>, pred: spec_fn(A) -> bool, i: int)
    requires
        0 <= i <= s.len(),
        forall|j: int| 0 <= j < i ==> !pred(#[trigger] s[j]),
        i < s.len() ==> pred(s[i]),
    ensures
        first_of(s.filter(pred)) == if i < s.len() {
            Some(s[i])
        } else {
            None
        },
        i == s.len() ==> s.filter(pred).len() == 0,
    decreases s.len(),
{
    reveal(Seq::filter);
    if s.len() == 0 {
    } else if i == s.len() {
        lemma_first_match(s.drop_last(), pred, i - 1);
    } else {
        lemma_first_match(s.drop_last(), pred, if i < s.len() - 1 { i } else { s.len() - 1 });
        if i < s.len() - 1 {
            assert(s.drop_last()[i] == s[i]);
        }
    }
}

/// Whether the result `r` is the expected one: the same value, or the same
/// failure.
pub open spec fn gives<T: DeepView>(r: Result<T, EpubError>, expected: Result<T::V, Fault>) -> bool {
    match expected {
        Ok(value) => r matches Ok(found) && found.deep_view() == value,
        Err(fault) => r matches Err(e) && e@ == fault,
    }
}

/// Whether the bytes or the failure of `r` are the expected ones.
pub open spec fn gives_bytes(r: Result<Vec<u8>, EpubError>, expected: Result<Seq<u8>, Fault>) -> bool {
    match expected {
        Ok(value) => r matches Ok(found) && found@ == value,
        Err(fault) => r matches Err(e) && e@ == fault,
    }
}

} // verus!
