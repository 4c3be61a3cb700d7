//! Reading the metadata section of the package document.
//!
//! Elements of the Dublin Core namespace become entries of their own. In
//! the package namespace a `meta` element is an entry in the legacy format;
//! in the modern format it is a refinement where it names the entry that it
//! refines, and an entry otherwise. Refinements join their entries once all
//! elements are read. A `link` element becomes a link.

use crate::error::{EpubError, Fault};
use crate::folds::{gives, lemma_try_fold_fails, lemma_try_fold_step, try_fold};
use crate::package::{require_attr, required_attr};
use crate::text::{normalize_space, normalized, skip_chars, starts_with, str_eq};
use crate::types::{EpubVersion, MetadataItem, MetadataItemView, MetadataLinkItem, MetadataLinkItemView, MetadataRefinement, MetadataRefinementView};
use crate::xml::{lemma_xml_views, XmlElement, XmlElementView};
use vstd::prelude::*;

verus! {

/// The namespace of the Dublin Core elements.
pub open spec fn dc_namespace() -> Seq<char> {
    "http://purl.org/dc/elements/1.1/"@
}

/// The namespace of the package document.
pub open spec fn opf_namespace() -> Seq<char> {
    "http://www.idpf.org/2007/opf"@
}

/// The refinements that the attributes of a legacy Dublin Core element
/// stand for: one for each attribute, attached to the element's id.
pub open spec fn attribute_refinements(
    attributes: Seq<(Seq<char>, Seq<char>)>,
    id: Seq<char>,
) -> Seq<MetadataRefinementView> {
    Seq::new(
        attributes.len(),
        |k: int|
            MetadataRefinementView {
                refines: id,
                property: attributes[k].0,
                value: normalized(attributes[k].1),
                lang: None,
                scheme: None,
            },
    )
}

/// The entry that a Dublin Core element stands for. In the legacy format
/// an element with an id carries its attributes as refinements.
pub open spec fn dc_item_of(element: XmlElementView, version: EpubVersion) -> MetadataItemView {
    MetadataItemView {
        id: element.attr("id"@),
        property: element.name,
        value: normalized(element.full_text()),
        lang: element.attr("lang"@),
        refined: match (version, element.attr("id"@)) {
            (EpubVersion::Version2_0, Some(id)) => attribute_refinements(element.attributes, id),
            _ => Seq::empty(),
        },
    }
}

/// The entry that a legacy `meta` element stands for.
pub open spec fn legacy_meta_of(element: XmlElementView) -> Result<MetadataItemView, Fault> {
    match element.attr("name"@) {
        None => Err(Fault::NonCanonicalFile { tag: element.tag_name() }),
        Some(property) => match required_attr(element, "content"@) {
            Err(fault) => Err(fault),
            Ok(content) => Ok(
                MetadataItemView {
                    id: None,
                    property,
                    value: normalized(content),
                    lang: None,
                    refined: Seq::empty(),
                },
            ),
        },
    }
}

/// The id that a `refines` attribute names: its value without a `#` at
/// its start.
pub open spec fn refined_id(refines: Seq<char>) -> Seq<char> {
    if refines.len() > 0 && refines[0] == '#' {
        refines.skip(1)
    } else {
        refines
    }
}

/// The link that a `link` element stands for.
pub open spec fn link_of(element: XmlElementView) -> Result<MetadataLinkItemView, Fault> {
    match required_attr(element, "href"@) {
        Err(fault) => Err(fault),
        Ok(href) => match required_attr(element, "rel"@) {
            Err(fault) => Err(fault),
            Ok(rel) => Ok(
                MetadataLinkItemView {
                    href,
                    rel,
                    hreflang: element.attr("hreflang"@),
                    id: element.attr("id"@),
                    mime: element.attr("media-type"@),
                    properties: element.attr("properties"@),
                    refines: None,
                },
            ),
        },
    }
}

/// What was read of the metadata so far.
pub ghost struct MetadataPool {
    /// The entries, in the order of the document.
    pub items: Seq<MetadataItemView>,
    /// The links, in the order of the document.
    pub links: Seq<MetadataLinkItemView>,
    /// The refinements that wait for their entries, in the order of the
    /// document.
    pub refinements: Seq<MetadataRefinementView>,
}

/// The pool after a modern `meta` element.
pub open spec fn modern_meta_step(pool: MetadataPool, element: XmlElementView) -> Result<
    MetadataPool,
    Fault,
> {
    match required_attr(element, "property"@) {
        Err(fault) => Err(fault),
        Ok(property) => match element.attr("refines"@) {
            Some(refines) => Ok(
                MetadataPool {
                    refinements: pool.refinements.push(
                        MetadataRefinementView {
                            refines: refined_id(refines),
                            property,
                            value: normalized(element.full_text()),
                            lang: element.attr("lang"@),
                            scheme: element.attr("scheme"@),
                        },
                    ),
                    ..pool
                },
            ),
            None => Ok(
                MetadataPool {
                    items: pool.items.push(
                        MetadataItemView {
                            id: element.attr("id"@),
                            property,
                            value: normalized(element.full_text()),
                            lang: element.attr("lang"@),
                            refined: Seq::empty(),
                        },
                    ),
                    ..pool
                },
            ),
        },
    }
}

/// The pool after an element of the package namespace: a `meta` element
/// is read as the version asks, a `link` element becomes a link, and any
/// other element is passed over.
pub open spec fn opf_step(pool: MetadataPool, element: XmlElementView, version: EpubVersion) -> Result<
    MetadataPool,
    Fault,
> {
    if element.name == "meta"@ {
        match version {
            EpubVersion::Version2_0 => match legacy_meta_of(element) {
                Ok(item) => Ok(MetadataPool { items: pool.items.push(item), ..pool }),
                Err(fault) => Err(fault),
            },
            EpubVersion::Version3_0 => modern_meta_step(pool, element),
        }
    } else if element.name == "link"@ {
        match link_of(element) {
            Ok(link) => Ok(MetadataPool { links: pool.links.push(link), ..pool }),
            Err(fault) => Err(fault),
        }
    } else {
        Ok(pool)
    }
}

/// The pool after one more element of the metadata section. An element of
/// neither namespace is passed over.
pub open spec fn metadata_step(version: EpubVersion) -> spec_fn(
    MetadataPool,
    XmlElementView,
) -> Result<MetadataPool, Fault> {
    |pool: MetadataPool, element: XmlElementView|
        if element.namespace == Some(dc_namespace()) {
            Ok(MetadataPool { items: pool.items.push(dc_item_of(element, version)), ..pool })
        } else if element.namespace == Some(opf_namespace()) {
            opf_step(pool, element, version)
        } else {
            Ok(pool)
        }
}

/// The pool without anything in it.
pub open spec fn empty_pool() -> MetadataPool {
    MetadataPool { items: Seq::empty(), links: Seq::empty(), refinements: Seq::empty() }
}

/// Whether an entry before the one at `k` has the id `id`.
pub open spec fn earlier_has_id(items: Seq<MetadataItemView>, k: int, id: Seq<char>) -> bool {
    exists|j: int| 0 <= j < k && (#[trigger] items[j]).id == Some(id)
}

/// The refinements of `pool` that refine the entry with the id `id`.
pub open spec fn refinements_of(pool: Seq<MetadataRefinementView>, id: Seq<char>) -> Seq<
    MetadataRefinementView,
> {
    pool.filter(|refinement: MetadataRefinementView| refinement.refines == id)
}

/// The entry at `k` once the refinements have joined: the first entry with
/// an id takes all refinements of that id, in place of its own; every other
/// entry stays as it is.
pub open spec fn joined_item(
    items: Seq<MetadataItemView>,
    pool: Seq<MetadataRefinementView>,
    k: int,
) -> MetadataItemView {
    match items[k].id {
        Some(id) => if refinements_of(pool, id).len() > 0 && !earlier_has_id(items, k, id) {
            MetadataItemView { refined: refinements_of(pool, id), ..items[k] }
        } else {
            items[k]
        },
        None => items[k],
    }
}

/// The entries once the refinements have joined.
pub open spec fn joined_items(items: Seq<MetadataItemView>, pool: Seq<MetadataRefinementView>) -> Seq<
    MetadataItemView,
> {
    Seq::new(items.len(), |k: int| joined_item(items, pool, k))
}

/// The entries and the links that the element `metadata` declares.
pub open spec fn metadata_of(metadata: XmlElementView, version: EpubVersion) -> Result<
    (Seq<MetadataItemView>, Seq<MetadataLinkItemView>),
    Fault,
> {
    match try_fold(metadata.children, empty_pool(), metadata_step(version)) {
        Err(fault) => Err(fault),
        Ok(pool) => Ok((joined_items(pool.items, pool.refinements), pool.links)),
    }
}

/// Whether every entry of `items` carries refinements only where it has an
/// id.
pub open spec fn all_well_formed(items: Seq<MetadataItemView>) -> bool {
    forall|i: int| 0 <= i < items.len() ==> (#[trigger] items[i]).well_formed()
}

/// Every entry that is read from the elements `children` carries
/// refinements only where it has an id.
pub proof fn lemma_pool_well_formed(children: Seq<XmlElementView>, version: EpubVersion)
    ensures
        try_fold(children, empty_pool(), metadata_step(version)) matches Ok(pool)
            ==> all_well_formed(pool.items),
    decreases children.len(),
{
    if children.len() > 0 {
        lemma_pool_well_formed(children.drop_last(), version);
        if let Ok(before) = try_fold(children.drop_last(), empty_pool(), metadata_step(version)) {
            if let Ok(after) = metadata_step(version)(before, children.last()) {
                assert forall|i: int| 0 <= i < after.items.len() implies (
                #[trigger] after.items[i]).well_formed() by {
                    if i < before.items.len() {
                        assert(after.items[i] == before.items[i]);
                    }
                }
            }
        }
    }
}

/// In the metadata that is read, refinements attach only to entries that
/// have an id.
pub proof fn lemma_metadata_well_formed(metadata: XmlElementView, version: EpubVersion)
    ensures
        metadata_of(metadata, version) matches Ok((items, _)) ==> all_well_formed(items),
{
    lemma_pool_well_formed(metadata.children, version);
}

/// Reads the entry of a Dublin Core element.
pub fn parse_dc_metadata(element: &XmlElement, version: EpubVersion) -> (r: MetadataItem)
    ensures
        r@ == dc_item_of(element@, version),
{
    let id = element.get_attr("id");
    let lang = element.get_attr("lang");
    let property = element.name.clone();
    let text = element.text();
    let value = normalize_space(text.as_str());
    let mut refined: Vec<MetadataRefinement> = Vec::new();
    assert(refined.deep_view() =~= Seq::<MetadataRefinementView>::empty());
    if version == EpubVersion::Version2_0 {
        if let Some(refines) = &id {
            let mut i: usize = 0;
            while i < element.attributes.len()
                invariant
                    i <= element.attributes.len(),
                    refined.len() == i,
                    forall|j: int|
                        0 <= j < i ==> refined[j]@ == attribute_refinements(
                            element@.attributes,
                            refines@,
                        )[j],
                decreases element.attributes.len() - i,
            {
                let name = element.attributes[i].0.clone();
                let value = normalize_space(element.attributes[i].1.as_str());
                refined.push(
                    MetadataRefinement {
                        refines: refines.clone(),
                        property: name,
                        value,
                        lang: None,
                        scheme: None,
                    },
                );
                i += 1;
            }
            assert(refined.deep_view() =~= attribute_refinements(element@.attributes, refines@));
        }
    }
    MetadataItem { id, property, value, lang, refined }
}

/// Reads the entry of a legacy `meta` element.
pub fn parse_legacy_meta(element: &XmlElement) -> (r: Result<MetadataItem, EpubError>)
    ensures
        gives(r, legacy_meta_of(element@)),
{
    let property = match element.get_attr("name") {
        Some(property) => property,
        None => {
            return Err(EpubError::NonCanonicalFile { tag: element.tag_name() });
        },
    };
    let content = match require_attr(element, "content") {
        Ok(content) => content,
        Err(e) => {
            return Err(e);
        },
    };
    let r = MetadataItem {
        id: None,
        property,
        value: normalize_space(content.as_str()),
        lang: None,
        refined: Vec::new(),
    };
    assert(r.refined.deep_view() =~= Seq::<MetadataRefinementView>::empty());
    Ok(r)
}

/// Reads a `link` element.
pub fn parse_link_element(element: &XmlElement) -> (r: Result<MetadataLinkItem, EpubError>)
    ensures
        gives(r, link_of(element@)),
{
    let href = match require_attr(element, "href") {
        Ok(href) => href,
        Err(e) => {
            return Err(e);
        },
    };
    let rel = match require_attr(element, "rel") {
        Ok(rel) => rel,
        Err(e) => {
            return Err(e);
        },
    };
    Ok(
        MetadataLinkItem {
            href,
            rel,
            hreflang: element.get_attr("hreflang"),
            id: element.get_attr("id"),
            mime: element.get_attr("media-type"),
            properties: element.get_attr("properties"),
            refines: None,
        },
    )
}

/// The metadata as it is being read.
pub struct MetadataReader {
    /// The entries.
    pub items: Vec<MetadataItem>,
    /// The links.
    pub links: Vec<MetadataLinkItem>,
    /// The refinements that wait for their entries.
    pub refinements: Vec<MetadataRefinement>,
}

impl View for MetadataReader {
    type V = MetadataPool;

    open spec fn view(&self) -> MetadataPool {
        MetadataPool {
            items: self.items.deep_view(),
            links: self.links.deep_view(),
            refinements: self.refinements.deep_view(),
        }
    }
}

impl MetadataReader {
    /// Takes in a `meta` element of the modern format. An element that is
    /// refused leaves the reader as it was.
    pub fn parse_meta_element(&mut self, element: &XmlElement) -> (r: Result<(), EpubError>)
        ensures
            match modern_meta_step(old(self)@, element@) {
                Ok(pool) => r is Ok && final(self)@ == pool,
                Err(fault) => r matches Err(e) && e@ == fault && final(self)@ == old(self)@,
            },
    {
        let property = match require_attr(element, "property") {
            Ok(property) => property,
            Err(e) => {
                return Err(e);
            },
        };
        let text = element.text();
        let value = normalize_space(text.as_str());
        let lang = element.get_attr("lang");
        match element.get_attr("refines") {
            Some(refines) => {
                proof {
                    crate::paths::lemma_slash_prefix(refines@);
                    reveal_strlit("#");
                    assert("#"@ =~= seq!['#']);
                    if refines@.len() > 0 && refines@[0] == '#' {
                        assert("#"@ =~= refines@.subrange(0, 1));
                    }
                    if "#"@.is_prefix_of(refines@) {
                        assert(refines@.subrange(0, 1)[0] == '#');
                    }
                }
                let id = if starts_with(refines.as_str(), "#") {
                    skip_chars(refines.as_str(), 1)
                } else {
                    refines
                };
                let ghost before = self.refinements.deep_view();
                let refinement = MetadataRefinement {
                    refines: id,
                    property,
                    value,
                    lang,
                    scheme: element.get_attr("scheme"),
                };
                self.refinements.push(refinement);
                assert(self.refinements.deep_view() =~= before.push(refinement@));
            },
            None => {
                let ghost before = self.items.deep_view();
                let item = MetadataItem {
                    id: element.get_attr("id"),
                    property,
                    value,
                    lang,
                    refined: Vec::new(),
                };
                assert(item.refined.deep_view() =~= Seq::<MetadataRefinementView>::empty());
                self.items.push(item);
                assert(self.items.deep_view() =~= before.push(item@));
            },
        }
        Ok(())
    }

    /// Takes in an element of the package namespace. An element that is
    /// refused leaves the reader as it was.
    pub fn parse_opf_metadata(&mut self, element: &XmlElement, version: EpubVersion) -> (r: Result<
        (),
        EpubError,
    >)
        ensures
            match opf_step(old(self)@, element@, version) {
                Ok(pool) => r is Ok && final(self)@ == pool,
                Err(fault) => r matches Err(e) && e@ == fault && final(self)@ == old(self)@,
            },
    {
        if str_eq(element.name.as_str(), "meta") {
            match version {
                EpubVersion::Version2_0 => match parse_legacy_meta(element) {
                    Ok(item) => {
                        let ghost before = self.items.deep_view();
                        self.items.push(item);
                        assert(self.items.deep_view() =~= before.push(item@));
                        Ok(())
                    },
                    Err(e) => Err(e),
                },
                EpubVersion::Version3_0 => self.parse_meta_element(element),
            }
        } else if str_eq(element.name.as_str(), "link") {
            match parse_link_element(element) {
                Ok(link) => {
                    let ghost before = self.links.deep_view();
                    self.links.push(link);
                    assert(self.links.deep_view() =~= before.push(link@));
                    Ok(())
                },
                Err(e) => Err(e),
            }
        } else {
            Ok(())
        }
    }
}

/// The two namespaces are not the same.
pub proof fn lemma_namespaces_differ()
    ensures
        dc_namespace() != opf_namespace(),
{
    reveal_strlit("http://purl.org/dc/elements/1.1/");
    reveal_strlit("http://www.idpf.org/2007/opf");
    assert(dc_namespace().len() != opf_namespace().len());
}

/// Whether one of the first `k` entries has the id `id`.
fn has_earlier_id(items: &Vec<MetadataItem>, k: usize, id: &str) -> (r: bool)
    requires
        k <= items.len(),
    ensures
        r == earlier_has_id(items.deep_view(), k as int, id@),
{
    let mut j: usize = 0;
    while j < k
        invariant
            j <= k <= items.len(),
            forall|m: int| 0 <= m < j ==> items.deep_view()[m].id != Some(id@),
        decreases k - j,
    {
        if let Some(other) = &items[j].id {
            if str_eq(other.as_str(), id) {
                assert(items.deep_view()[j as int].id == Some(id@));
                return true;
            }
        }
        j += 1;
    }
    false
}

/// The refinements of `pool` for the entry with the id `id`.
fn collect_refinements(pool: &Vec<MetadataRefinement>, id: &str) -> (r: Vec<MetadataRefinement>)
    ensures
        r.deep_view() == refinements_of(pool.deep_view(), id@),
{
    let mut found: Vec<MetadataRefinement> = Vec::new();
    let ghost wanted = |refinement: MetadataRefinementView| refinement.refines == id@;
    proof {
        assert(pool.deep_view().take(0) =~= Seq::<MetadataRefinementView>::empty());
        assert(found.deep_view() =~= Seq::<MetadataRefinementView>::empty());
    }
    let mut i: usize = 0;
    while i < pool.len()
        invariant
            i <= pool.len(),
            wanted == |refinement: MetadataRefinementView| refinement.refines == id@,
            found.deep_view() == pool.deep_view().take(i as int).filter(wanted),
        decreases pool.len() - i,
    {
        let ghost before = found.deep_view();
        proof {
            assert(pool.deep_view().take(i + 1) =~= pool.deep_view().take(i as int).push(
                pool[i as int]@,
            ));
            pool.deep_view().take(i as int).lemma_filter_push(pool[i as int]@, wanted);
        }
        if str_eq(pool[i].refines.as_str(), id) {
            let copy = pool[i].clone();
            found.push(copy);
            assert(found.deep_view() =~= before.push(pool[i as int]@));
        }
        i += 1;
    }
    proof {
        assert(pool.deep_view().take(i as int) =~= pool.deep_view());
    }
    found
}

/// Lets the refinements join their entries.
pub fn join_refinements(items: &Vec<MetadataItem>, pool: &Vec<MetadataRefinement>) -> (r: Vec<
    MetadataItem,
>)
    ensures
        r.deep_view() == joined_items(items.deep_view(), pool.deep_view()),
{
    let mut done: Vec<MetadataItem> = Vec::new();
    let mut k: usize = 0;
    while k < items.len()
        invariant
            k <= items.len(),
            done.len() == k,
            forall|j: int|
                0 <= j < k ==> done[j]@ == joined_item(items.deep_view(), pool.deep_view(), j),
        decreases items.len() - k,
    {
        let item = &items[k];
        assert(item@ == items.deep_view()[k as int]);
        let mut joined = item.clone();
        if let Some(id) = &item.id {
            let mine = collect_refinements(pool, id.as_str());
            if mine.len() > 0 && !has_earlier_id(items, k, id.as_str()) {
                joined.refined = mine;
            }
        }
        done.push(joined);
        k += 1;
    }
    assert(done.deep_view() =~= joined_items(items.deep_view(), pool.deep_view()));
    done
}

/// Reads the metadata section of a package document of the given version.
/// A `meta` or `link` element that lacks a required attribute fails the
/// whole.
pub fn parse_metadata(metadata_element: &XmlElement, version: EpubVersion) -> (r: Result<
    (Vec<MetadataItem>, Vec<MetadataLinkItem>),
    EpubError,
>)
    ensures
        gives(r, metadata_of(metadata_element@, version)),
        r matches Ok((items, _)) ==> all_well_formed(items.deep_view()),
{
    proof {
        lemma_metadata_well_formed(metadata_element@, version);
    }
    let ghost kids = metadata_element@.children;
    let mut reader = MetadataReader {
        items: Vec::new(),
        links: Vec::new(),
        refinements: Vec::new(),
    };
    proof {
        lemma_xml_views(metadata_element.children);
        lemma_namespaces_differ();
        assert(kids.take(0) =~= Seq::<XmlElementView>::empty());
        assert(reader.items.deep_view() =~= Seq::<MetadataItemView>::empty());
        assert(reader.links.deep_view() =~= Seq::<MetadataLinkItemView>::empty());
        assert(reader.refinements.deep_view() =~= Seq::<MetadataRefinementView>::empty());
    }
    let mut i: usize = 0;
    while i < metadata_element.children.len()
        invariant
            i <= metadata_element.children.len(),
            kids == metadata_element@.children,
            kids.len() == metadata_element.children.len(),
            dc_namespace() != opf_namespace(),
            forall|j: int|
                0 <= j < metadata_element.children.len() ==> kids[j]
                    == #[trigger] metadata_element.children[j]@,
            try_fold(kids.take(i as int), empty_pool(), metadata_step(version)) == Ok::<_, Fault>(
                reader@,
            ),
        decreases metadata_element.children.len() - i,
    {
        let element = &metadata_element.children[i];
        proof {
            lemma_try_fold_step(kids, empty_pool(), metadata_step(version), i as int);
        }
        let in_dc = match &element.namespace {
            Some(namespace) => str_eq(namespace.as_str(), "http://purl.org/dc/elements/1.1/"),
            None => false,
        };
        let in_opf = match &element.namespace {
            Some(namespace) => str_eq(namespace.as_str(), "http://www.idpf.org/2007/opf"),
            None => false,
        };
        if in_dc {
            let item = parse_dc_metadata(element, version);
            let ghost before = reader.items.deep_view();
            reader.items.push(item);
            assert(reader.items.deep_view() =~= before.push(item@));
        } else if in_opf {
            match reader.parse_opf_metadata(element, version) {
                Ok(()) => {},
                Err(e) => {
                    proof {
                        lemma_try_fold_fails(kids, empty_pool(), metadata_step(version), i + 1);
                    }
                    return Err(e);
                },
            }
        }
        i += 1;
    }
    proof {
        assert(kids.take(i as int) =~= kids);
    }
    let items = join_refinements(&reader.items, &reader.refinements);
    Ok((items, reader.links))
}

} // verus!
