//! The order of the entries of a table of contents: by their place in the
//! reading order, an entry without a place before every entry with one.

use crate::types::{lemma_nav_views, NavPoint, NavPointView};
use std::cmp::Ordering;
use vstd::prelude::*;
use vstd::std_specs::cmp::{PartialEqSpecImpl, PartialOrdSpecImpl};

verus! {

/// Whether the place `a` is not behind the place `b`.
pub open spec fn place_le(a: Option<usize>, b: Option<usize>) -> bool {
    match (a, b) {
        (None, _) => true,
        (Some(_), None) => false,
        (Some(x), Some(y)) => x <= y,
    }
}

/// Whether the place `a` is not behind the place `b`.
pub fn place_not_behind(a: Option<usize>, b: Option<usize>) -> (r: bool)
    ensures
        r == place_le(a, b),
{
    match (a, b) {
        (None, _) => true,
        (Some(_), None) => false,
        (Some(x), Some(y)) => x <= y,
    }
}

impl PartialEq for NavPoint {
    fn eq(&self, other: &Self) -> (r: bool) {
        match (self.play_order, other.play_order) {
            (None, None) => true,
            (Some(x), Some(y)) => x == y,
            _ => false,
        }
    }
}

impl PartialEqSpecImpl for NavPoint {
    open spec fn obeys_eq_spec() -> bool {
        true
    }

    open spec fn eq_spec(&self, other: &Self) -> bool {
        match (self.play_order, other.play_order) {
            (None, None) => true,
            (Some(x), Some(y)) => x == y,
            _ => false,
        }
    }
}

impl Eq for NavPoint {

}

impl PartialOrd for NavPoint {
    fn partial_cmp(&self, other: &Self) -> (r: Option<Ordering>) {
        match (self.play_order, other.play_order) {
            (None, None) => Some(Ordering::Equal),
            (None, Some(_)) => Some(Ordering::Less),
            (Some(_), None) => Some(Ordering::Greater),
            (Some(x), Some(y)) => if x < y {
                Some(Ordering::Less)
            } else if x == y {
                Some(Ordering::Equal)
            } else {
                Some(Ordering::Greater)
            },
        }
    }
}

impl PartialOrdSpecImpl for NavPoint {
    open spec fn obeys_partial_cmp_spec() -> bool {
        true
    }

    open spec fn partial_cmp_spec(&self, other: &Self) -> Option<Ordering> {
        match (self.play_order, other.play_order) {
            (None, None) => Some(Ordering::Equal),
            (None, Some(_)) => Some(Ordering::Less),
            (Some(_), None) => Some(Ordering::Greater),
            (Some(x), Some(y)) => if x < y {
                Some(Ordering::Less)
            } else if x == y {
                Some(Ordering::Equal)
            } else {
                Some(Ordering::Greater)
            },
        }
    }
}

/// `sorted` with `point` added behind the last entry whose place is not
/// behind its own.
pub open spec fn placed(sorted: Seq<NavPointView>, point: NavPointView) -> Seq<NavPointView>
    decreases sorted.len(),
{
    if sorted.len() == 0 {
        seq![point]
    } else if place_le(sorted.last().play_order, point.play_order) {
        sorted.push(point)
    } else {
        placed(sorted.drop_last(), point).push(sorted.last())
    }
}

/// `points` in the order of their places; entries with the same place keep
/// the order they had.
pub open spec fn in_order(points: Seq<NavPointView>) -> Seq<NavPointView>
    decreases points.len(),
{
    if points.len() == 0 {
        Seq::empty()
    } else {
        placed(in_order(points.drop_last()), points.last())
    }
}

/// Whether each entry of `points` has a place not behind that of the next.
pub open spec fn ordered(points: Seq<NavPointView>) -> bool {
    forall|i: int, j: int|
        0 <= i < j < points.len() ==> place_le(
            (#[trigger] points[i]).play_order,
            (#[trigger] points[j]).play_order,
        )
}

/// Adding an entry at its place keeps the order, and keeps all entries.
pub proof fn lemma_placed(sorted: Seq<NavPointView>, point: NavPointView)
    requires
        ordered(sorted),
    ensures
        ordered(placed(sorted, point)),
        placed(sorted, point).to_multiset() == sorted.to_multiset().insert(point),
        placed(sorted, point).len() == sorted.len() + 1,
    decreases sorted.len(),
{
    broadcast use vstd::seq_lib::group_to_multiset_ensures;

    let after = placed(sorted, point);
    if sorted.len() == 0 {
        assert(after =~= Seq::<NavPointView>::empty().push(point));
    } else if place_le(sorted.last().play_order, point.play_order) {
        assert forall|i: int, j: int| 0 <= i < j < after.len() implies place_le(
            (#[trigger] after[i]).play_order,
            (#[trigger] after[j]).play_order,
        ) by {
            if j == sorted.len() {
                if i < sorted.len() - 1 {
                    assert(place_le(sorted[i].play_order, sorted.last().play_order));
                }
            } else {
                assert(place_le(sorted[i].play_order, sorted[j].play_order));
            }
        }
    } else {
        let front = sorted.drop_last();
        assert forall|i: int, j: int| 0 <= i < j < front.len() implies place_le(
            (#[trigger] front[i]).play_order,
            (#[trigger] front[j]).play_order,
        ) by {
            assert(place_le(sorted[i].play_order, sorted[j].play_order));
        }
        lemma_placed(front, point);
        let inner = placed(front, point);
        assert(sorted =~= front.push(sorted.last()));
        assert forall|i: int, j: int| 0 <= i < j < after.len() implies place_le(
            (#[trigger] after[i]).play_order,
            (#[trigger] after[j]).play_order,
        ) by {
            if j == after.len() - 1 {
                assert(after[i] == inner[i]);
                assert(inner.to_multiset().count(inner[i]) > 0);
                if inner[i] != point {
                    assert(front.to_multiset().count(inner[i]) > 0);
                    let k = choose|k: int| 0 <= k < front.len() && front[k] == inner[i];
                    assert(place_le(sorted[k].play_order, sorted.last().play_order));
                }
            } else {
                assert(after[i] == inner[i]);
                assert(after[j] == inner[j]);
            }
        }
    }
}

/// What `in_order` gives is in order and holds the same entries.
pub proof fn lemma_in_order(points: Seq<NavPointView>)
    ensures
        ordered(in_order(points)),
        in_order(points).to_multiset() == points.to_multiset(),
        in_order(points).len() == points.len(),
    decreases points.len(),
{
    broadcast use vstd::seq_lib::group_to_multiset_ensures;

    if points.len() > 0 {
        lemma_in_order(points.drop_last());
        lemma_placed(in_order(points.drop_last()), points.last());
        assert(points =~= points.drop_last().push(points.last()));
    }
}

/// Where every entry from `at` on is behind `point` and the one before `at`
/// is not, `point` is placed at `at`.
pub proof fn lemma_placed_at(sorted: Seq<NavPointView>, point: NavPointView, at: int)
    requires
        0 <= at <= sorted.len(),
        forall|j: int| at <= j < sorted.len() ==> !place_le(sorted[j].play_order, point.play_order),
        at > 0 ==> place_le(sorted[at - 1].play_order, point.play_order),
    ensures
        placed(sorted, point) == sorted.insert(at, point),
    decreases sorted.len(),
{
    if sorted.len() == 0 {
        assert(seq![point] =~= sorted.insert(0, point));
    } else if at == sorted.len() {
        assert(sorted.push(point) =~= sorted.insert(at, point));
    } else {
        lemma_placed_at(sorted.drop_last(), point, at);
        assert(sorted.drop_last().insert(at, point).push(sorted.last()) =~= sorted.insert(
            at,
            point,
        ));
    }
}

/// Sorts the entries by their place in the reading order; entries with the
/// same place keep the order they had.
pub fn sort_by_play_order(points: Vec<NavPoint>) -> (r: Vec<NavPoint>)
    ensures
        r.deep_view() == in_order(points.deep_view()),
{
    let mut rest = points;
    let ghost all = rest.deep_view();
    let mut sorted: Vec<NavPoint> = Vec::new();
    proof {
        lemma_nav_views(rest);
        lemma_nav_views(sorted);
        assert(all.take(0) =~= Seq::<NavPointView>::empty());
        assert(sorted.deep_view() =~= Seq::<NavPointView>::empty());
        assert(all.skip(0) =~= all);
    }
    let ghost mut done: int = 0;
    while rest.len() > 0
        invariant
            0 <= done <= all.len(),
            rest.len() == all.len() - done,
            rest.deep_view() == all.skip(done),
            sorted.deep_view() == in_order(all.take(done)),
        decreases rest.len(),
    {
        proof {
            lemma_nav_views(rest);
            lemma_nav_views(sorted);
        }
        let ghost rest_before = rest.deep_view();
        let ghost first = rest[0]@;
        assert(first == rest_before[0]);
        assert(rest_before[0] == all[done]);
        let point = rest.remove(0);
        proof {
            lemma_nav_views(rest);
            assert(point@ == all[done]);
            assert(rest.deep_view() =~= rest_before.skip(1));
            assert(rest.deep_view() =~= all.skip(done + 1));
            assert(all.take(done + 1).drop_last() =~= all.take(done));
            assert(all.take(done + 1).last() == all[done]);
        }
        let ghost before = sorted.deep_view();
        let mut at: usize = sorted.len();
        while at > 0 && !place_not_behind(sorted[at - 1].play_order, point.play_order)
            invariant
                at <= sorted.len(),
                before == sorted.deep_view(),
                before.len() == sorted.len(),
                forall|j: int| 0 <= j < sorted.len() ==> before[j] == #[trigger] sorted[j]@,
                forall|j: int|
                    at <= j < sorted.len() ==> !place_le(before[j].play_order, point@.play_order),
            decreases at,
        {
            at -= 1;
        }
        proof {
            lemma_placed_at(before, point@, at as int);
        }
        sorted.insert(at, point);
        proof {
            lemma_nav_views(sorted);
            assert(sorted.deep_view() =~= before.insert(at as int, point@));
            done = done + 1;
        }
    }
    proof {
        assert(all.take(done) =~= all);
    }
    sorted
}

} // verus!
