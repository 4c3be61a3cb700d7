//! Reading the table of contents: from the NCX document of the legacy
//! format, or from the navigation document of the modern one.

use crate::error::{missing_attribute, missing_element, EpubError, Fault};
use crate::folds::{first_of, gives, lemma_first_match};
use crate::manifest::{find_item, has_nav_property, is_nav_item, Manifest};
use crate::order::{in_order, sort_by_play_order};
use crate::text::{owned, parse_usize, parsed_usize, str_eq};
use crate::types::{lemma_nav_views, ManifestItemView, NavPoint, NavPointView};
use crate::xml::{count_below, lemma_count_below, lemma_xml_views, XmlElement, XmlElementView};
use vstd::prelude::*;

verus! {

/// The names of the elements that may carry the title of a navigation list.
pub open spec fn heading_names() -> Seq<Seq<char>> {
    seq!["h1"@, "h2"@, "h3"@, "h4"@, "h5"@, "h6"@]
}

/// The names of the elements that may carry the label of a list item.
pub open spec fn label_names() -> Seq<Seq<char>> {
    seq!["span"@, "a"@]
}

/// The first child that meets `pred` holds fewer elements than its parent.
pub proof fn lemma_first_child_smaller(
    parent: XmlElementView,
    pred: spec_fn(XmlElementView) -> bool,
)
    ensures
        first_of(parent.children.filter(pred)) matches Some(child) ==> child.node_count()
            < parent.node_count(),
{
    let found = parent.children.filter(pred);
    if found.len() > 0 {
        let child = found[0];
        assert(found.contains(child));
        parent.children.lemma_filter_contains_rev(pred, child);
        let k = choose|k: int| 0 <= k < parent.children.len() && parent.children[k] == child;
        lemma_count_below(parent.children, k);
    }
}

/// The elements before the last hold fewer elements than all, and the last
/// holds no more than all.
pub proof fn lemma_last_counts(items: Seq<XmlElementView>)
    requires
        items.len() > 0,
    ensures
        count_below(items.drop_last()) < count_below(items),
        items.last().node_count() <= count_below(items),
{
    assert(items.last().node_count() == 1 + count_below(items.last().children));
}

/// The entries that the items of a navigation list stand for, or the
/// failure of the first item that is no entry.
pub open spec fn catalog_items(items: Seq<XmlElementView>) -> Result<Seq<NavPointView>, Fault>
    decreases count_below(items), 1nat,
{
    if items.len() == 0 {
        Ok(Seq::empty())
    } else {
        proof {
            lemma_last_counts(items);
        }
        match catalog_items(items.drop_last()) {
            Err(fault) => Err(fault),
            Ok(done) => match catalog_entry(items.last()) {
                Err(fault) => Err(fault),
                Ok(point) => Ok(done.push(point)),
            },
        }
    }
}

/// The entry that the list item `item` stands for: its label is the text
/// of its first `span` or `a`, its content the `href` of that element, and
/// its children the entries of its first `ol`.
pub open spec fn catalog_entry(item: XmlElementView) -> Result<NavPointView, Fault>
    decreases item.node_count(), 0nat,
{
    if item.tag_name() != "li"@ {
        Err(Fault::NonCanonicalFile { tag: "li"@ })
    } else {
        match first_of(item.children_among(label_names())) {
            None => Err(Fault::NonCanonicalFile { tag: "span/a"@ }),
            Some(title) => match first_of(item.children_named("ol"@)) {
                None => Ok(
                    NavPointView {
                        label: title.full_text(),
                        content: title.attr("href"@),
                        children: Seq::empty(),
                        play_order: None,
                    },
                ),
                Some(list) => {
                    proof {
                        lemma_first_child_smaller(
                            item,
                            |child: XmlElementView| child.name == "ol"@,
                        );
                    }
                    match catalog_items(list.children) {
                        Err(fault) => Err(fault),
                        Ok(children) => Ok(
                            NavPointView {
                                label: title.full_text(),
                                content: title.attr("href"@),
                                children,
                                play_order: None,
                            },
                        ),
                    }
                },
            },
        }
    }
}

/// The entry that the NCX element `point` stands for.
pub open spec fn nav_point_of(point: XmlElementView) -> NavPointView
    decreases point.node_count(), 0nat,
{
    NavPointView {
        label: match first_of(point.children_named("navLabel"@)) {
            Some(label) => label.full_text(),
            None => Seq::empty(),
        },
        content: match first_of(point.children_named("content"@)) {
            Some(content) => Some(content.full_text()),
            None => None,
        },
        children: nav_points_of(point.children),
        play_order: match point.attr("playOrder"@) {
            Some(order) => parsed_usize(order),
            None => None,
        },
    }
}

/// The entries of the `navPoint` elements among `children`, in the order of
/// the document.
pub open spec fn raw_nav_points(children: Seq<XmlElementView>) -> Seq<NavPointView>
    decreases count_below(children), 1nat,
{
    if children.len() == 0 {
        Seq::empty()
    } else {
        proof {
            lemma_last_counts(children);
        }
        if children.last().name == "navPoint"@ {
            raw_nav_points(children.drop_last()).push(nav_point_of(children.last()))
        } else {
            raw_nav_points(children.drop_last())
        }
    }
}

/// The entries of the `navPoint` elements among `children`, in the order of
/// their places in the reading order.
pub open spec fn nav_points_of(children: Seq<XmlElementView>) -> Seq<NavPointView>
    decreases count_below(children), 2nat,
{
    in_order(raw_nav_points(children))
}

/// The first item of `found`.
fn first_found<'a>(found: &Vec<&'a XmlElement>) -> (r: Option<&'a XmlElement>)
    ensures
        r.deep_view() == first_of(found.deep_view()),
{
    if found.len() == 0 {
        None
    } else {
        Some(found[0])
    }
}

/// Reads the entries of the `navPoint` elements directly below `parent`,
/// with all entries below them, each list sorted by the place in the
/// reading order.
pub fn parse_nav_points(parent_element: &XmlElement) -> (r: Vec<NavPoint>)
    ensures
        r.deep_view() == nav_points_of(parent_element@.children),
    decreases parent_element@.node_count(),
{
    let ghost kids = parent_element@.children;
    let mut nav_points: Vec<NavPoint> = Vec::new();
    proof {
        lemma_xml_views(parent_element.children);
        lemma_nav_views(nav_points);
        assert(kids.take(0) =~= Seq::<XmlElementView>::empty());
        assert(nav_points.deep_view() =~= Seq::<NavPointView>::empty());
    }
    let mut i: usize = 0;
    while i < parent_element.children.len()
        invariant
            i <= parent_element.children.len(),
            kids == parent_element@.children,
            kids.len() == parent_element.children.len(),
            forall|j: int|
                0 <= j < parent_element.children.len() ==> kids[j]
                    == #[trigger] parent_element.children[j]@,
            nav_points.deep_view() == raw_nav_points(kids.take(i as int)),
        decreases parent_element.children.len() - i,
    {
        let nav_point = &parent_element.children[i];
        let ghost before = nav_points.deep_view();
        proof {
            assert(kids.take(i + 1).drop_last() =~= kids.take(i as int));
            assert(kids.take(i + 1).last() == nav_point@);
            lemma_count_below(kids, i as int);
        }
        if str_eq(nav_point.name.as_str(), "navPoint") {
            let labels = nav_point.find_children_by_name("navLabel");
            let label = match first_found(&labels) {
                Some(element) => element.text(),
                None => String::new(),
            };
            let contents = nav_point.find_children_by_name("content");
            let content = match first_found(&contents) {
                Some(element) => Some(element.text()),
                None => None,
            };
            let play_order = match nav_point.get_attr("playOrder") {
                Some(order) => parse_usize(order.as_str()),
                None => None,
            };
            let children = parse_nav_points(nav_point);
            proof {
                lemma_nav_views(children);
            }
            let point = NavPoint { label, content, children, play_order };
            assert(point@ == nav_point_of(nav_point@));
            nav_points.push(point);
            proof {
                lemma_nav_views(nav_points);
                assert(nav_points.deep_view() =~= before.push(point@));
                assert(raw_nav_points(kids.take(i + 1)) == before.push(point@));
            }
        } else {
            assert(raw_nav_points(kids.take(i + 1)) == before);
        }
        i += 1;
    }
    proof {
        assert(kids.take(i as int) =~= kids);
    }
    sort_by_play_order(nav_points)
}

/// Reads the entry of one item of a navigation list.
pub fn parse_catalog_entry(item: &XmlElement) -> (r: Result<NavPoint, EpubError>)
    ensures
        gives(r, catalog_entry(item@)),
    decreases item@.node_count(), 0nat,
{
    let tag = item.tag_name();
    if !str_eq(tag.as_str(), "li") {
        return Err(missing_element("li"));
    }
    let names: Vec<&str> = vec!["span", "a"];
    assert(names.deep_view() =~= label_names());
    let titles = item.find_children_by_names(names.as_slice());
    let title_element = match first_found(&titles) {
        Some(element) => element,
        None => {
            return Err(missing_element("span/a"));
        },
    };
    let content = title_element.get_attr("href");
    let lists = item.find_children_by_name("ol");
    let children = match first_found(&lists) {
        Some(list) => {
            proof {
                lemma_first_child_smaller(item@, |child: XmlElementView| child.name == "ol"@);
            }
            match parse_catalog_list(list) {
                Ok(children) => children,
                Err(e) => {
                    return Err(e);
                },
            }
        },
        None => Vec::new(),
    };
    proof {
        lemma_nav_views(children);
        if lists.len() == 0 {
            assert(children.deep_view() =~= Seq::<NavPointView>::empty());
        }
    }
    Ok(NavPoint { label: title_element.text(), content, children, play_order: None })
}

/// Reads the entries of the navigation list `element`. An item that is no
/// `li`, or that has neither `span` nor `a`, fails the whole.
pub fn parse_catalog_list(element: &XmlElement) -> (r: Result<Vec<NavPoint>, EpubError>)
    ensures
        gives(r, catalog_items(element@.children)),
    decreases count_below(element@.children), 1nat,
{
    let ghost kids = element@.children;
    let mut catalog: Vec<NavPoint> = Vec::new();
    proof {
        lemma_xml_views(element.children);
        lemma_nav_views(catalog);
        assert(kids.take(0) =~= Seq::<XmlElementView>::empty());
        assert(catalog.deep_view() =~= Seq::<NavPointView>::empty());
    }
    let mut i: usize = 0;
    while i < element.children.len()
        invariant
            i <= element.children.len(),
            kids == element@.children,
            kids.len() == element.children.len(),
            forall|j: int|
                0 <= j < element.children.len() ==> kids[j] == #[trigger] element.children[j]@,
            catalog_items(kids.take(i as int)) == Ok::<_, Fault>(catalog.deep_view()),
        decreases element.children.len() - i,
    {
        let ghost before = catalog.deep_view();
        proof {
            assert(kids.take(i + 1).drop_last() =~= kids.take(i as int));
            assert(kids.take(i + 1).last() == element.children[i as int]@);
            lemma_count_below(kids, i as int);
        }
        match parse_catalog_entry(&element.children[i]) {
            Ok(point) => {
                catalog.push(point);
                proof {
                    lemma_nav_views(catalog);
                    assert(catalog.deep_view() =~= before.push(point@));
                }
            },
            Err(e) => {
                proof {
                    lemma_catalog_fails(kids, i + 1);
                }
                return Err(e);
            },
        }
        i += 1;
    }
    proof {
        assert(kids.take(i as int) =~= kids);
    }
    Ok(catalog)
}

/// A failure stays: a list whose first `k` items fail fails as they do.
pub proof fn lemma_catalog_fails(items: Seq<XmlElementView>, k: int)
    requires
        0 <= k <= items.len(),
        catalog_items(items.take(k)) is Err,
    ensures
        catalog_items(items) == catalog_items(items.take(k)),
    decreases items.len(),
{
    if k == items.len() {
        assert(items.take(k) =~= items);
    } else {
        assert(items.drop_last().take(k) =~= items.take(k));
        lemma_catalog_fails(items.drop_last(), k);
    }
}

/// The title and the entries of a table of contents.
#[derive(Debug)]
pub struct Catalog {
    /// The title, where the document has one.
    pub title: Option<String>,
    /// The entries.
    pub points: Vec<NavPoint>,
}

/// A table of contents, as a value.
pub ghost struct CatalogView {
    pub title: Option<Seq<char>>,
    pub points: Seq<NavPointView>,
}

impl DeepView for Catalog {
    type V = CatalogView;

    open spec fn deep_view(&self) -> CatalogView {
        CatalogView { title: self.title.deep_view(), points: self.points.deep_view() }
    }
}

/// The table of contents of the NCX document `ncx`: the title is the text
/// of its first `docTitle`, the entries are those of its first `navMap`.
pub open spec fn ncx_catalog_of(ncx: XmlElementView) -> Result<CatalogView, Fault> {
    match first_of(ncx.named("navMap"@)) {
        None => Err(Fault::NonCanonicalFile { tag: "navMap"@ }),
        Some(map) => Ok(
            CatalogView {
                title: match first_of(ncx.named("docTitle"@)) {
                    Some(title) => Some(title.full_text()),
                    None => None,
                },
                points: nav_points_of(map.children),
            },
        ),
    }
}

/// Reads the table of contents from an NCX document.
pub fn parse_ncx(ncx: &XmlElement) -> (r: Result<Catalog, EpubError>)
    ensures
        gives(r, ncx_catalog_of(ncx@)),
{
    let titles = ncx.find_elements_by_name("docTitle");
    let title = match first_found(&titles) {
        Some(element) => Some(element.text()),
        None => None,
    };
    let maps = ncx.find_elements_by_name("navMap");
    match first_found(&maps) {
        Some(map) => Ok(Catalog { title, points: parse_nav_points(map) }),
        None => Err(missing_element("navMap")),
    }
}

/// Whether `element` is the navigation of the kind `toc`.
pub open spec fn is_toc(element: XmlElementView) -> bool {
    element.attr("epub:type"@) == Some("toc"@)
}

/// The table of contents of the navigation document `document`: that of
/// the first `nav` element of the kind `toc`. Its title is the text of the
/// first heading directly inside it, its entries are those of the first
/// `ol` directly inside it.
pub open spec fn nav_catalog_of(document: XmlElementView) -> Result<CatalogView, Fault> {
    match first_of(document.named("nav"@).filter(|element: XmlElementView| is_toc(element))) {
        None => Err(Fault::NonCanonicalFile { tag: "nav"@ }),
        Some(nav) => match first_of(nav.children_named("ol"@)) {
            None => Err(Fault::NonCanonicalFile { tag: "ol"@ }),
            Some(list) => match catalog_items(list.children) {
                Err(fault) => Err(fault),
                Ok(points) => Ok(
                    CatalogView {
                        title: match first_of(nav.children_among(heading_names())) {
                            Some(heading) => Some(heading.full_text()),
                            None => None,
                        },
                        points,
                    },
                ),
            },
        },
    }
}

/// Reads the table of contents from a navigation document.
pub fn parse_nav_document(document: &XmlElement) -> (r: Result<Catalog, EpubError>)
    ensures
        gives(r, nav_catalog_of(document@)),
{
    let navs = document.find_elements_by_name("nav");
    let ghost wanted = |element: XmlElementView| is_toc(element);
    let mut i: usize = 0;
    while i < navs.len()
        invariant
            i <= navs.len(),
            navs.deep_view() == document@.named("nav"@),
            wanted == |element: XmlElementView| is_toc(element),
            forall|j: int| 0 <= j < i ==> !wanted(#[trigger] navs.deep_view()[j]),
        decreases navs.len() - i,
    {
        let nav = navs[i];
        let is_toc_nav = match nav.get_attr("epub:type") {
            Some(kind) => str_eq(kind.as_str(), "toc"),
            None => false,
        };
        if is_toc_nav {
            proof {
                assert(navs.deep_view()[i as int] == nav@);
                assert(wanted(nav@));
                lemma_first_match(navs.deep_view(), wanted, i as int);
            }
            let names: Vec<&str> = vec!["h1", "h2", "h3", "h4", "h5", "h6"];
            assert(names.deep_view() =~= heading_names());
            let headings = nav.find_children_by_names(names.as_slice());
            let lists = nav.find_children_by_name("ol");
            let list = match first_found(&lists) {
                Some(list) => list,
                None => {
                    return Err(missing_element("ol"));
                },
            };
            let points = match parse_catalog_list(list) {
                Ok(points) => points,
                Err(e) => {
                    return Err(e);
                },
            };
            let title = match first_found(&headings) {
                Some(heading) => Some(heading.text()),
                None => None,
            };
            return Ok(Catalog { title, points });
        }
        i += 1;
    }
    proof {
        lemma_first_match(navs.deep_view(), wanted, i as int);
    }
    Err(missing_element("nav"))
}

/// The path of the NCX document: that of the manifest entry which the
/// `toc` attribute of the spine names.
pub open spec fn toc_path_of(package: XmlElementView, manifest: Seq<ManifestItemView>) -> Result<
    Seq<char>,
    Fault,
> {
    match first_of(package.children_named("spine"@)) {
        None => Err(Fault::NonCanonicalFile { tag: "spine"@ }),
        Some(spine) => match spine.attr("toc"@) {
            None => Err(Fault::MissingRequiredAttribute { tag: "spine"@, attribute: "toc"@ }),
            Some(id) => match find_item(manifest, id) {
                None => Err(Fault::ResourceIdNotExist { id }),
                Some(item) => Ok(item.path),
            },
        },
    }
}

/// Finds the path of the NCX document.
pub fn find_toc_path(package: &XmlElement, manifest: &Manifest) -> (r: Result<String, EpubError>)
    ensures
        gives(r, toc_path_of(package@, manifest@)),
{
    let spines = package.find_children_by_name("spine");
    let spine = match first_found(&spines) {
        Some(spine) => spine,
        None => {
            return Err(missing_element("spine"));
        },
    };
    let toc_id = match spine.get_attr("toc") {
        Some(id) => id,
        None => {
            return Err(missing_attribute(owned("spine"), "toc"));
        },
    };
    match manifest.get(toc_id.as_str()) {
        Some(item) => Ok(item.path.clone()),
        None => Err(EpubError::ResourceIdNotExist { id: toc_id }),
    }
}

/// The path of the navigation document: that of the first manifest entry
/// whose properties include `nav`.
pub open spec fn nav_path_of(manifest: Seq<ManifestItemView>) -> Result<Seq<char>, Fault> {
    match first_of(manifest.filter(|item: ManifestItemView| has_nav_property(item))) {
        None => Err(Fault::NonCanonicalEpub { expected_file: "Navigation Document"@ }),
        Some(item) => Ok(item.path),
    }
}

/// Finds the path of the navigation document.
pub fn find_nav_path(manifest: &Manifest) -> (r: Result<String, EpubError>)
    ensures
        gives(r, nav_path_of(manifest@)),
{
    let ghost wanted = |item: ManifestItemView| has_nav_property(item);
    let mut i: usize = 0;
    while i < manifest.items.len()
        invariant
            i <= manifest.items.len(),
            wanted == |item: ManifestItemView| has_nav_property(item),
            forall|j: int| 0 <= j < i ==> !wanted(#[trigger] manifest@[j]),
        decreases manifest.items.len() - i,
    {
        if is_nav_item(&manifest.items[i]) {
            proof {
                assert(wanted(manifest@[i as int]));
                lemma_first_match(manifest@, wanted, i as int);
            }
            return Ok(manifest.items[i].path.clone());
        }
        i += 1;
    }
    proof {
        lemma_first_match(manifest@, wanted, i as int);
    }
    Err(EpubError::NonCanonicalEpub { expected_file: owned("Navigation Document") })
}

} // verus!
