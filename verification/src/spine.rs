//! Moving along the spine.
//!
//! Sequential reading passes only through linear entries: from a linear
//! entry it goes to the nearest linear entry before or behind it. An entry
//! that is not linear is reached by its index alone, and sequential reading
//! does not leave it.

use crate::types::{SpineItem, SpineItemView};
use vstd::prelude::*;

verus! {

/// Whether `to` is where sequential reading goes forward from `from`: the
/// nearest linear entry behind a linear entry.
pub open spec fn is_next(spine: Seq<SpineItemView>, from: int, to: int) -> bool {
    &&& 0 <= from < to < spine.len()
    &&& spine[from].linear
    &&& spine[to].linear
    &&& forall|j: int| from < j < to ==> !(#[trigger] spine[j]).linear
}

/// Whether `to` is where sequential reading goes backward from `from`: the
/// nearest linear entry before a linear entry.
pub open spec fn is_prev(spine: Seq<SpineItemView>, from: int, to: int) -> bool {
    &&& 0 <= to < from < spine.len()
    &&& spine[from].linear
    &&& spine[to].linear
    &&& forall|j: int| to < j < from ==> !(#[trigger] spine[j]).linear
}

/// Where sequential reading goes forward from `from`, if anywhere.
pub open spec fn next_of(spine: Seq<SpineItemView>, from: int) -> Option<int> {
    if exists|to: int| is_next(spine, from, to) {
        Some(choose|to: int| is_next(spine, from, to))
    } else {
        None
    }
}

/// Where sequential reading goes backward from `from`, if anywhere.
pub open spec fn prev_of(spine: Seq<SpineItemView>, from: int) -> Option<int> {
    if exists|to: int| is_prev(spine, from, to) {
        Some(choose|to: int| is_prev(spine, from, to))
    } else {
        None
    }
}

/// There is at most one place to go forward to.
pub proof fn lemma_next_unique(spine: Seq<SpineItemView>, from: int, a: int, b: int)
    requires
        is_next(spine, from, a),
        is_next(spine, from, b),
    ensures
        a == b,
{
    if a < b {
        assert(!spine[a].linear);
    }
    if b < a {
        assert(!spine[b].linear);
    }
}

/// There is at most one place to go backward to.
pub proof fn lemma_prev_unique(spine: Seq<SpineItemView>, from: int, a: int, b: int)
    requires
        is_prev(spine, from, a),
        is_prev(spine, from, b),
    ensures
        a == b,
{
    if a < b {
        assert(!spine[b].linear);
    }
    if b < a {
        assert(!spine[a].linear);
    }
}

/// The index of the nearest linear entry behind the entry at `current`, if
/// that entry is linear and not the last.
pub fn next_spine_index(spine: &Vec<SpineItem>, current: usize) -> (r: Option<usize>)
    ensures
        match r {
            Some(to) => next_of(spine.deep_view(), current as int) == Some(to as int),
            None => next_of(spine.deep_view(), current as int) is None,
        },
        r matches Some(to) ==> is_next(spine.deep_view(), current as int, to as int),
{
    let ghost s = spine.deep_view();
    if current >= spine.len() || !spine[current].linear {
        assert(forall|to: int| !is_next(s, current as int, to));
        return None;
    }
    let mut index: usize = current + 1;
    while index < spine.len()
        invariant
            current < index <= spine.len(),
            s == spine.deep_view(),
            s[current as int].linear,
            forall|j: int| current < j < index ==> !(#[trigger] s[j]).linear,
        decreases spine.len() - index,
    {
        if spine[index].linear {
            proof {
                assert(is_next(s, current as int, index as int));
                let chosen = choose|to: int| is_next(s, current as int, to);
                lemma_next_unique(s, current as int, chosen, index as int);
            }
            return Some(index);
        }
        index += 1;
    }
    assert forall|to: int| !is_next(s, current as int, to) by {
        if is_next(s, current as int, to) {
            assert(!s[to].linear);
        }
    }
    None
}

/// The index of the nearest linear entry before the entry at `current`, if
/// that entry is linear and not the first.
pub fn prev_spine_index(spine: &Vec<SpineItem>, current: usize) -> (r: Option<usize>)
    ensures
        match r {
            Some(to) => prev_of(spine.deep_view(), current as int) == Some(to as int),
            None => prev_of(spine.deep_view(), current as int) is None,
        },
        r matches Some(to) ==> is_prev(spine.deep_view(), current as int, to as int),
{
    let ghost s = spine.deep_view();
    if current >= spine.len() || !spine[current].linear {
        assert(forall|to: int| !is_prev(s, current as int, to));
        return None;
    }
    let mut index: usize = current;
    while index > 0
        invariant
            index <= current < spine.len(),
            s == spine.deep_view(),
            s[current as int].linear,
            forall|j: int| index <= j < current ==> !(#[trigger] s[j]).linear,
        decreases index,
    {
        index -= 1;
        if spine[index].linear {
            proof {
                assert(is_prev(s, current as int, index as int));
                let chosen = choose|to: int| is_prev(s, current as int, to);
                lemma_prev_unique(s, current as int, chosen, index as int);
            }
            return Some(index);
        }
    }
    assert forall|to: int| !is_prev(s, current as int, to) by {
        if is_prev(s, current as int, to) {
            assert(!s[to].linear);
        }
    }
    None
}

} // verus!
