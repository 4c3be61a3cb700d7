//! The manifest: the resources of a publication, found by their id.

use crate::text::{pieces, split, str_eq, Delim};
use crate::types::{ManifestItem, ManifestItemView};
use vstd::prelude::*;

verus! {

/// The first entry of `items` with the id `id`.
pub open spec fn find_item(items: Seq<ManifestItemView>, id: Seq<char>) -> Option<ManifestItemView>
    decreases items.len(),
{
    if items.len() == 0 {
        None
    } else if items[0].id == id {
        Some(items[0])
    } else {
        find_item(items.drop_first(), id)
    }
}

/// Whether some entry of `items` has the id `id`.
pub open spec fn has_id(items: Seq<ManifestItemView>, id: Seq<char>) -> bool {
    exists|k: int| 0 <= k < items.len() && (#[trigger] items[k]).id == id
}

/// No two entries of `items` share an id.
pub open spec fn unique_ids(items: Seq<ManifestItemView>) -> bool {
    forall|i: int, j: int|
        0 <= i < j < items.len() ==> (#[trigger] items[i]).id != (#[trigger] items[j]).id
}

/// `items` with `item` in the place of the first entry that has its id, or
/// at the end if there is none.
pub open spec fn with_item(items: Seq<ManifestItemView>, item: ManifestItemView) -> Seq<
    ManifestItemView,
>
    decreases items.len(),
{
    if items.len() == 0 {
        seq![item]
    } else if items[0].id == item.id {
        seq![item] + items.drop_first()
    } else {
        seq![items[0]] + with_item(items.drop_first(), item)
    }
}

/// An entry is found exactly if some entry has the id, and what is found
/// has the id.
pub proof fn lemma_find_item(items: Seq<ManifestItemView>, id: Seq<char>)
    ensures
        find_item(items, id) is Some <==> has_id(items, id),
        find_item(items, id) matches Some(item) ==> item.id == id && items.contains(item),
    decreases items.len(),
{
    if items.len() > 0 {
        if items[0].id == id {
            assert(items[0].id == id);
        } else {
            lemma_find_item(items.drop_first(), id);
            if has_id(items, id) {
                let k = choose|k: int| 0 <= k < items.len() && (#[trigger] items[k]).id == id;
                assert(items.drop_first()[k - 1].id == id);
            }
            if has_id(items.drop_first(), id) {
                let k = choose|k: int|
                    0 <= k < items.drop_first().len() && (#[trigger] items.drop_first()[k]).id
                        == id;
                assert(items[k + 1].id == id);
            }
            if let Some(item) = find_item(items, id) {
                let k = choose|k: int|
                    0 <= k < items.drop_first().len() && items.drop_first()[k] == item;
                assert(items[k + 1] == item);
            }
        }
    }
}

/// Where no entry before `at` has the id of `item`, setting `item` changes
/// the entry at `at` if that one has the id, and adds `item` at the end if
/// `at` is the end.
pub proof fn lemma_with_item(items: Seq<ManifestItemView>, item: ManifestItemView, at: int)
    requires
        0 <= at <= items.len(),
        forall|j: int| 0 <= j < at ==> items[j].id != item.id,
        at < items.len() ==> items[at].id == item.id,
    ensures
        at < items.len() ==> with_item(items, item) == items.update(at, item),
        at == items.len() ==> with_item(items, item) == items.push(item),
    decreases items.len(),
{
    if items.len() == 0 {
        assert(seq![item] =~= items.push(item));
    } else if at == 0 {
        assert(seq![item] + items.drop_first() =~= items.update(0, item));
    } else {
        lemma_with_item(items.drop_first(), item, at - 1);
        if at < items.len() {
            assert(seq![items[0]] + items.drop_first().update(at - 1, item) =~= items.update(
                at,
                item,
            ));
        } else {
            assert(seq![items[0]] + items.drop_first().push(item) =~= items.push(item));
        }
    }
}

/// The resources of a publication, in the order in which they were added.
///
/// The entries are kept in a list, not hashed by their ids: a lookup is
/// then a statement over the sequence, and the package document is written
/// in the same order whenever it is written. Inserting keeps the ids
/// unique: an entry takes the place of the one that has its id.
#[derive(Debug)]
pub struct Manifest {
    /// The entries.
    pub items: Vec<ManifestItem>,
}

impl View for Manifest {
    type V = Seq<ManifestItemView>;

    open spec fn view(&self) -> Seq<ManifestItemView> {
        self.items.deep_view()
    }
}

impl DeepView for Manifest {
    type V = Seq<ManifestItemView>;

    open spec fn deep_view(&self) -> Seq<ManifestItemView> {
        self.items.deep_view()
    }
}

impl Clone for Manifest {
    fn clone(&self) -> (r: Self)
        ensures
            r@ == self@,
    {
        let items = self.items.clone();
        assert(items.deep_view() =~= self.items.deep_view());
        Manifest { items }
    }
}

impl Manifest {
    /// A manifest without entries.
    pub fn new() -> (r: Self)
        ensures
            r@ == Seq::<ManifestItemView>::empty(),
    {
        let r = Manifest { items: Vec::new() };
        assert(r.items.deep_view() =~= Seq::<ManifestItemView>::empty());
        r
    }

    /// The number of entries.
    pub fn len(&self) -> (n: usize)
        ensures
            n == self@.len(),
    {
        self.items.len()
    }

    /// Whether there is no entry.
    pub fn is_empty(&self) -> (r: bool)
        ensures
            r == (self@.len() == 0),
    {
        self.items.len() == 0
    }

    /// The place of the first entry with the id `id`, or the number of
    /// entries if there is none.
    pub fn position(&self, id: &str) -> (at: usize)
        ensures
            at <= self@.len(),
            forall|j: int| 0 <= j < at ==> self@[j].id != id@,
            at < self@.len() ==> self@[at as int].id == id@,
            at < self@.len() <==> has_id(self@, id@),
            at < self@.len() ==> find_item(self@, id@) == Some(self@[at as int]),
            at == self@.len() ==> find_item(self@, id@) is None,
    {
        let mut i: usize = 0;
        proof {
            assert(self@.skip(0) =~= self@);
        }
        while i < self.items.len()
            invariant
                i <= self.items.len(),
                forall|j: int| 0 <= j < i ==> self@[j].id != id@,
                find_item(self@, id@) == find_item(self@.skip(i as int), id@),
            decreases self.items.len() - i,
        {
            proof {
                assert(self@.skip(i as int).drop_first() =~= self@.skip(i + 1));
                assert(self@.skip(i as int)[0] == self@[i as int]);
            }
            if str_eq(self.items[i].id.as_str(), id) {
                proof {
                    lemma_find_item(self@, id@);
                }
                return i;
            }
            i += 1;
        }
        proof {
            lemma_find_item(self@, id@);
        }
        i
    }

    /// Whether an entry has the id `id`.
    pub fn contains_key(&self, id: &str) -> (r: bool)
        ensures
            r == has_id(self@, id@),
            r == find_item(self@, id@) is Some,
    {
        self.position(id) < self.items.len()
    }

    /// The entry with the id `id`.
    pub fn get(&self, id: &str) -> (r: Option<&ManifestItem>)
        ensures
            r.deep_view() == find_item(self@, id@),
    {
        let at = self.position(id);
        if at < self.items.len() {
            Some(&self.items[at])
        } else {
            None
        }
    }

    /// Sets `item` under its id: in the place of the entry that has this
    /// id, or at the end.
    pub fn insert(&mut self, item: ManifestItem)
        ensures
            final(self)@ == with_item(old(self)@, item@),
    {
        let at = self.position(item.id.as_str());
        proof {
            lemma_with_item(self@, item@, at as int);
        }
        let ghost before = self@;
        if at < self.items.len() {
            self.items.remove(at);
            self.items.insert(at, item);
            assert(self@ =~= before.update(at as int, item@));
        } else {
            self.items.push(item);
            assert(self@ =~= before.push(item@));
        }
    }
}

/// Setting an entry keeps the ids unique, and the entry is then found
/// under its id.
pub proof fn lemma_insert_keeps_unique(items: Seq<ManifestItemView>, item: ManifestItemView)
    requires
        unique_ids(items),
    ensures
        unique_ids(with_item(items, item)),
        find_item(with_item(items, item), item.id) == Some(item),
    decreases items.len(),
{
    let after = with_item(items, item);
    if items.len() == 0 {
    } else if items[0].id == item.id {
        assert forall|i: int, j: int| 0 <= i < j < after.len() implies (#[trigger] after[i]).id != (
        #[trigger] after[j]).id by {
            if i == 0 {
                assert(after[j] == items[j]);
                assert(items[0].id != items[j].id);
            } else {
                assert(after[i] == items[i]);
                assert(after[j] == items[j]);
            }
        }
    } else {
        let rest = items.drop_first();
        assert forall|i: int, j: int| 0 <= i < j < rest.len() implies (#[trigger] rest[i]).id != (
        #[trigger] rest[j]).id by {
            assert(rest[i] == items[i + 1]);
            assert(rest[j] == items[j + 1]);
        }
        lemma_insert_keeps_unique(rest, item);
        let tail = with_item(rest, item);
        lemma_with_item_ids(rest, item);
        assert forall|i: int, j: int| 0 <= i < j < after.len() implies (#[trigger] after[i]).id != (
        #[trigger] after[j]).id by {
            if i == 0 {
                assert(after[j] == tail[j - 1]);
                if tail[j - 1].id != item.id {
                    let k = choose|k: int| 0 <= k < rest.len() && rest[k].id == tail[j - 1].id;
                    assert(rest[k] == items[k + 1]);
                    assert(items[0].id != items[k + 1].id);
                }
            } else {
                assert(after[i] == tail[i - 1]);
                assert(after[j] == tail[j - 1]);
            }
        }
        assert(after.drop_first() =~= tail);
    }
}

/// Every id in the manifest after setting `item` is the id of `item` or
/// was in the manifest before.
pub proof fn lemma_with_item_ids(items: Seq<ManifestItemView>, item: ManifestItemView)
    ensures
        forall|j: int|
            0 <= j < with_item(items, item).len() ==> (#[trigger] with_item(items, item)[j]).id
                == item.id || exists|k: int|
                0 <= k < items.len() && items[k].id == with_item(items, item)[j].id,
    decreases items.len(),
{
    let after = with_item(items, item);
    if items.len() == 0 {
    } else if items[0].id == item.id {
        assert forall|j: int| 0 <= j < after.len() implies (#[trigger] after[j]).id == item.id
            || exists|k: int| 0 <= k < items.len() && items[k].id == after[j].id by {
            if j > 0 {
                assert(after[j] == items[j]);
            }
        }
    } else {
        let rest = items.drop_first();
        lemma_with_item_ids(rest, item);
        let tail = with_item(rest, item);
        assert forall|j: int| 0 <= j < after.len() implies (#[trigger] after[j]).id == item.id
            || exists|k: int| 0 <= k < items.len() && items[k].id == after[j].id by {
            if j == 0 {
                assert(after[0] == items[0]);
            } else {
                assert(after[j] == tail[j - 1]);
                if tail[j - 1].id != item.id {
                    let k = choose|k: int| 0 <= k < rest.len() && rest[k].id == tail[j - 1].id;
                    assert(items[k + 1] == rest[k]);
                }
            }
        }
    }
}

/// Whether the properties of `item`, taken apart at spaces, include `nav`.
pub open spec fn has_nav_property(item: ManifestItemView) -> bool {
    match item.properties {
        Some(properties) => pieces(properties, Delim::Char(' ')).contains("nav"@),
        None => false,
    }
}

/// Whether `item` is marked as the navigation document.
pub fn is_nav_item(item: &ManifestItem) -> (r: bool)
    ensures
        r == has_nav_property(item@),
{
    match &item.properties {
        Some(properties) => {
            let parts = split(properties.as_str(), &Delim::Char(' '));
            let mut i: usize = 0;
            while i < parts.len()
                invariant
                    i <= parts.len(),
                    item@.properties == Some(properties@),
                    parts.deep_view() == pieces(properties@, Delim::Char(' ')),
                    forall|j: int| 0 <= j < i ==> parts.deep_view()[j] != "nav"@,
                decreases parts.len() - i,
            {
                if str_eq(parts[i].as_str(), "nav") {
                    assert(parts.deep_view()[i as int] == "nav"@);
                    return true;
                }
                i += 1;
            }
            false
        },
        None => false,
    }
}

} // verus!
