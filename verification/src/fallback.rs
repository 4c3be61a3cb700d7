//! Walking the fallback links of the manifest.
//!
//! An entry may name another entry to use in its place. Chasing these
//! links must end: at an entry without fallback. The walk keeps the ids it
//! has passed, in order, and stops at the first id that it meets again or
//! that the manifest does not hold.

use crate::manifest::{find_item, has_id, lemma_find_item, Manifest};
use crate::text::{join, joined, owned, str_eq};
use crate::types::{ManifestItemView};
use vstd::prelude::*;

verus! {

/// How many entries of `items` have an id that is not in `visited`.
pub open spec fn unseen(items: Seq<ManifestItemView>, visited: Seq<Seq<char>>) -> nat {
    items.filter(|item: ManifestItemView| !visited.contains(item.id)).len()
}

/// Passing an id of the manifest that was not passed before leaves fewer
/// entries unseen.
pub proof fn lemma_unseen_shrinks(
    items: Seq<ManifestItemView>,
    visited: Seq<Seq<char>>,
    id: Seq<char>,
)
    requires
        !visited.contains(id),
    ensures
        unseen(items, visited.push(id)) <= unseen(items, visited),
        has_id(items, id) ==> unseen(items, visited.push(id)) < unseen(items, visited),
    decreases items.len(),
{
    let old_pred = |item: ManifestItemView| !visited.contains(item.id);
    let new_pred = |item: ManifestItemView| !visited.push(id).contains(item.id);
    if items.len() == 0 {
    } else {
        let front = items.drop_last();
        let last = items.last();
        lemma_unseen_shrinks(front, visited, id);
        assert(items =~= front.push(last));
        front.lemma_filter_push(last, old_pred);
        front.lemma_filter_push(last, new_pred);
        if last.id == id {
            assert(visited.push(id).last() == id);
            assert(visited.push(id).contains(last.id));
        } else {
            if visited.push(id).contains(last.id) {
                let k = choose|k: int|
                    0 <= k < visited.push(id).len() && visited.push(id)[k] == last.id;
                assert(visited[k] == last.id);
            }
            if visited.contains(last.id) {
                let k = choose|k: int| 0 <= k < visited.len() && visited[k] == last.id;
                assert(visited.push(id)[k] == last.id);
            }
            if has_id(items, id) {
                let k = choose|k: int| 0 <= k < items.len() && (#[trigger] items[k]).id == id;
                assert(front[k].id == id);
            }
        }
    }
}

/// How the walk along a fallback chain ends, and the ids that it has
/// passed by then.
pub ghost enum ChainOutcome {
    /// At an entry without fallback.
    Valid(Seq<Seq<char>>),
    /// At an id that was passed before; the chain ends with that id.
    Circular(Seq<Seq<char>>),
    /// At an id that the manifest does not hold.
    Missing(Seq<char>, Seq<Seq<char>>),
}

/// The end of the walk that starts at `id` after the ids of `visited`.
pub open spec fn chain_outcome(
    items: Seq<ManifestItemView>,
    id: Seq<char>,
    visited: Seq<Seq<char>>,
) -> ChainOutcome
    decreases unseen(items, visited),
{
    if visited.contains(id) {
        ChainOutcome::Circular(visited.push(id))
    } else {
        match find_item(items, id) {
            None => ChainOutcome::Missing(id, visited),
            Some(item) => match item.fallback {
                None => ChainOutcome::Valid(visited),
                Some(next) => if find_item(items, next) is None {
                    ChainOutcome::Missing(next, visited)
                } else {
                    proof {
                        lemma_find_item(items, id);
                        lemma_unseen_shrinks(items, visited, id);
                    }
                    chain_outcome(items, next, visited.push(id))
                },
            },
        }
    }
}

/// The ids that a walk has passed when it ends as `outcome`.
pub open spec fn walked(outcome: ChainOutcome) -> Seq<Seq<char>> {
    match outcome {
        ChainOutcome::Valid(chain) => chain,
        ChainOutcome::Circular(chain) => chain,
        ChainOutcome::Missing(_, chain) => chain,
    }
}

/// Why a fallback chain is refused.
#[derive(Debug)]
pub enum ChainFault {
    /// The chain comes back to an id that it has passed.
    Circular,
    /// The chain leads to an id that the manifest does not hold.
    Missing(String),
}

/// Whether `id` is one of `ids`.
pub fn id_among(ids: &Vec<String>, id: &str) -> (r: bool)
    ensures
        r == ids.deep_view().contains(id@),
{
    let mut i: usize = 0;
    while i < ids.len()
        invariant
            i <= ids.len(),
            forall|j: int| 0 <= j < i ==> ids.deep_view()[j] != id@,
        decreases ids.len() - i,
    {
        if str_eq(ids[i].as_str(), id) {
            assert(ids.deep_view()[i as int] == id@);
            return true;
        }
        i += 1;
    }
    false
}

/// Walks the fallback chain that starts at `manifest_id`, adding to
/// `fallback_chain` the ids that it passes.
///
/// The walk is valid where it ends at an entry without fallback. It is
/// refused as circular at an id that `fallback_chain` holds already, that
/// id then added once more at the end; and as missing at an id that the
/// manifest does not hold.
pub fn check_fallback_chain(
    manifest: &Manifest,
    manifest_id: &str,
    fallback_chain: &mut Vec<String>,
) -> (r: Result<(), ChainFault>)
    ensures
        match chain_outcome(manifest@, manifest_id@, old(fallback_chain).deep_view()) {
            ChainOutcome::Valid(chain) => r is Ok && final(fallback_chain).deep_view() == chain,
            ChainOutcome::Circular(chain) => {
                &&& r matches Err(ChainFault::Circular)
                &&& final(fallback_chain).deep_view() == chain
            },
            ChainOutcome::Missing(id, chain) => {
                &&& r matches Err(ChainFault::Missing(missing)) && missing@ == id
                &&& final(fallback_chain).deep_view() == chain
            },
        },
{
    let mut current = owned(manifest_id);
    loop
        invariant
            chain_outcome(manifest@, current@, fallback_chain.deep_view()) == chain_outcome(
                manifest@,
                manifest_id@,
                old(fallback_chain).deep_view(),
            ),
        decreases unseen(manifest@, fallback_chain.deep_view()),
    {
        let ghost visited = fallback_chain.deep_view();
        if id_among(fallback_chain, current.as_str()) {
            fallback_chain.push(current);
            assert(fallback_chain.deep_view() =~= visited.push(current@));
            return Err(ChainFault::Circular);
        }
        let next = match manifest.get(current.as_str()) {
            None => {
                return Err(ChainFault::Missing(current));
            },
            Some(item) => match &item.fallback {
                None => {
                    return Ok(());
                },
                Some(next) => next.clone(),
            },
        };
        if !manifest.contains_key(next.as_str()) {
            return Err(ChainFault::Missing(next));
        }
        proof {
            lemma_find_item(manifest@, current@);
            lemma_unseen_shrinks(manifest@, visited, current@);
        }
        fallback_chain.push(current);
        assert(fallback_chain.deep_view() =~= visited.push(current@));
        current = next;
    }
}

/// The message for a chain that came back to an id: the chain with `->`
/// between its ids.
pub open spec fn chain_text(chain: Seq<Seq<char>>) -> Seq<char> {
    joined(chain, "->"@)
}

/// The ids of `chain` with `->` between them.
pub fn chain_message(chain: &Vec<String>) -> (r: String)
    ensures
        r@ == chain_text(chain.deep_view()),
{
    join(chain, "->")
}

/// Which entry serves in place of another.
pub ghost enum Pick {
    /// The entry with this id: its media type is accepted.
    Found(Seq<char>),
    /// The chain leads to an id that the manifest does not hold.
    Unknown(Seq<char>),
    /// The chain ends, or comes back to an id it has passed, before an
    /// accepted media type is met.
    Exhausted,
}

/// The first entry with a media type among `formats` on the fallback chain
/// that starts at `id`, after the ids of `visited`.
pub open spec fn pick(
    items: Seq<ManifestItemView>,
    id: Seq<char>,
    formats: Seq<Seq<char>>,
    visited: Seq<Seq<char>>,
) -> Pick
    decreases unseen(items, visited),
    when !visited.contains(id)
{
    match find_item(items, id) {
        None => Pick::Unknown(id),
        Some(item) => if formats.contains(item.mime) {
            Pick::Found(id)
        } else {
            match item.fallback {
                None => Pick::Exhausted,
                Some(next) => if visited.push(id).contains(next) {
                    Pick::Exhausted
                } else {
                    proof {
                        lemma_find_item(items, id);
                        lemma_unseen_shrinks(items, visited, id);
                    }
                    pick(items, next, formats, visited.push(id))
                },
            }
        },
    }
}

/// What `pick_supported` found.
#[derive(Debug)]
pub enum Picked {
    /// The entry with this id.
    Found(String),
    /// The manifest does not hold this id.
    Unknown(String),
    /// No entry of the chain has an accepted media type.
    Exhausted,
}

/// Whether `mime` is one of `formats`.
pub fn format_among(formats: &Vec<&str>, mime: &str) -> (r: bool)
    ensures
        r == formats.deep_view().contains(mime@),
{
    let mut i: usize = 0;
    while i < formats.len()
        invariant
            i <= formats.len(),
            forall|j: int| 0 <= j < i ==> formats.deep_view()[j] != mime@,
        decreases formats.len() - i,
    {
        if str_eq(formats[i], mime) {
            assert(formats.deep_view()[i as int] == mime@);
            return true;
        }
        i += 1;
    }
    false
}

/// Finds, on the fallback chain that starts at `id`, the first entry whose
/// media type is one of `supported_format`.
pub fn pick_supported(manifest: &Manifest, id: &str, supported_format: &Vec<&str>) -> (r: Picked)
    ensures
        match pick(manifest@, id@, supported_format.deep_view(), Seq::empty()) {
            Pick::Found(found) => r matches Picked::Found(x) && x@ == found,
            Pick::Unknown(unknown) => r matches Picked::Unknown(x) && x@ == unknown,
            Pick::Exhausted => r is Exhausted,
        },
{
    let mut current = owned(id);
    let mut passed: Vec<String> = Vec::new();
    assert(passed.deep_view() =~= Seq::<Seq<char>>::empty());
    loop
        invariant
            !passed.deep_view().contains(current@),
            pick(manifest@, current@, supported_format.deep_view(), passed.deep_view()) == pick(
                manifest@,
                id@,
                supported_format.deep_view(),
                Seq::empty(),
            ),
        decreases unseen(manifest@, passed.deep_view()),
    {
        let ghost visited = passed.deep_view();
        let next = match manifest.get(current.as_str()) {
            None => {
                return Picked::Unknown(current);
            },
            Some(item) => {
                if format_among(supported_format, item.mime.as_str()) {
                    return Picked::Found(current);
                }
                match &item.fallback {
                    None => {
                        return Picked::Exhausted;
                    },
                    Some(next) => next.clone(),
                }
            },
        };
        proof {
            lemma_find_item(manifest@, current@);
            lemma_unseen_shrinks(manifest@, visited, current@);
        }
        passed.push(current);
        assert(passed.deep_view() =~= visited.push(current@));
        if id_among(&passed, next.as_str()) {
            return Picked::Exhausted;
        }
        current = next;
    }
}

} // verus!
