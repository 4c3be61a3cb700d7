//! Reading the package document: where it lies, which version it follows,
//! and its metadata, manifest and spine.

use crate::error::{missing_attribute, missing_element, EpubError, Fault};
use crate::folds::{
    first_of, gives, lemma_first_match, lemma_try_fold_fails, lemma_try_fold_step, try_fold,
};
use crate::manifest::{lemma_insert_keeps_unique, unique_ids, with_item, Manifest};
use crate::paths::{normalize_manifest_path, resolved};
use crate::text::{owned, str_eq};
use crate::types::{EncryptionData, EncryptionDataView, EpubVersion, ManifestItem, ManifestItemView, MetadataItem, MetadataItemView, SpineItem, SpineItemView};
use crate::xml::{lemma_xml_views, XmlElement, XmlElementView};
use vstd::prelude::*;

verus! {

/// The value of the attribute `name` of `element`, which it must have.
pub open spec fn required_attr(element: XmlElementView, name: Seq<char>) -> Result<
    Seq<char>,
    Fault,
> {
    match element.attr(name) {
        Some(value) => Ok(value),
        None => Err(Fault::MissingRequiredAttribute { tag: element.tag_name(), attribute: name }),
    }
}

/// The value of the attribute `name` of `element`, or the error that names
/// the element and the attribute.
pub fn require_attr(element: &XmlElement, name: &str) -> (r: Result<String, EpubError>)
    ensures
        gives(r, required_attr(element@, name@)),
{
    match element.get_attr(name) {
        Some(value) => Ok(value),
        None => Err(missing_attribute(element.tag_name(), name)),
    }
}

/// The path of the package document that the container names: the
/// `full-path` of its first `rootfile`.
pub open spec fn rootfile_of(container: XmlElementView) -> Result<Seq<char>, Fault> {
    match first_of(container.named("rootfile"@)) {
        None => Err(Fault::NonCanonicalFile { tag: "rootfile"@ }),
        Some(rootfile) => match rootfile.attr("full-path"@) {
            None => Err(
                Fault::MissingRequiredAttribute { tag: "rootfile"@, attribute: "full-path"@ },
            ),
            Some(path) => Ok(path),
        },
    }
}

/// Finds the path of the package document in the container document.
pub fn parse_container(container: &XmlElement) -> (r: Result<String, EpubError>)
    ensures
        gives(r, rootfile_of(container@)),
{
    let found = container.find_elements_by_name("rootfile");
    if found.len() == 0 {
        return Err(missing_element("rootfile"));
    }
    match found[0].get_attr("full-path") {
        Some(path) => Ok(path),
        None => Err(missing_attribute(owned("rootfile"), "full-path")),
    }
}

/// Whether one of `items` has the id `nav`.
pub open spec fn has_nav_id(items: Seq<XmlElementView>) -> bool {
    exists|k: int| 0 <= k < items.len() && (#[trigger] items[k]).attr("id"@) == Some("nav"@)
}

/// The version of a package document.
///
/// A `version` attribute of `2.0` or `3.0` decides. Without one, a `toc`
/// attribute on the spine means the legacy format, and failing that a
/// manifest entry with the id `nav` means the modern one. A package that
/// shows none of these has no recognized version.
pub open spec fn detected_version(package: XmlElementView) -> Result<EpubVersion, Fault> {
    if package.attr("version"@) == Some("2.0"@) {
        Ok(EpubVersion::Version2_0)
    } else if package.attr("version"@) == Some("3.0"@) {
        Ok(EpubVersion::Version3_0)
    } else {
        match first_of(package.named("spine"@)) {
            None => Err(Fault::NonCanonicalFile { tag: "spine"@ }),
            Some(spine) => if spine.attr("toc"@) is Some {
                Ok(EpubVersion::Version2_0)
            } else {
                match first_of(package.named("manifest"@)) {
                    None => Err(Fault::NonCanonicalFile { tag: "manifest"@ }),
                    Some(manifest) => if has_nav_id(manifest.children) {
                        Ok(EpubVersion::Version3_0)
                    } else {
                        Err(Fault::UnrecognizedEpubVersion)
                    },
                }
            },
        }
    }
}

/// Tells the version of the package document `opf_element`.
pub fn determine_epub_version(opf_element: &XmlElement) -> (r: Result<EpubVersion, EpubError>)
    ensures
        gives(r, detected_version(opf_element@)),
{
    if let Some(version) = opf_element.get_attr("version") {
        if str_eq(version.as_str(), "2.0") {
            return Ok(EpubVersion::Version2_0);
        }
        if str_eq(version.as_str(), "3.0") {
            return Ok(EpubVersion::Version3_0);
        }
    }
    let spines = opf_element.find_elements_by_name("spine");
    if spines.len() == 0 {
        return Err(missing_element("spine"));
    }
    if spines[0].get_attr("toc").is_some() {
        return Ok(EpubVersion::Version2_0);
    }
    let manifests = opf_element.find_elements_by_name("manifest");
    if manifests.len() == 0 {
        return Err(missing_element("manifest"));
    }
    let manifest = manifests[0];
    proof {
        lemma_xml_views(manifest.children);
    }
    let mut i: usize = 0;
    while i < manifest.children.len()
        invariant
            i <= manifest.children.len(),
            manifest@.children.len() == manifest.children.len(),
            forall|j: int|
                0 <= j < manifest.children.len() ==> manifest@.children[j]
                    == #[trigger] manifest.children[j]@,
            forall|j: int| 0 <= j < i ==> manifest@.children[j].attr("id"@) != Some("nav"@),
            detected_version(opf_element@) == if has_nav_id(manifest@.children) {
                Ok::<EpubVersion, Fault>(EpubVersion::Version3_0)
            } else {
                Err::<EpubVersion, Fault>(Fault::UnrecognizedEpubVersion)
            },
        decreases manifest.children.len() - i,
    {
        if let Some(id) = manifest.children[i].get_attr("id") {
            if str_eq(id.as_str(), "nav") {
                assert(manifest@.children[i as int].attr("id"@) == Some("nav"@));
                return Ok(EpubVersion::Version3_0);
            }
        }
        i += 1;
    }
    Err(EpubError::UnrecognizedEpubVersion)
}

/// The spine entry that the element `itemref` stands for. Sequential
/// reading leaves out an entry only where `linear` is `no`.
pub open spec fn spine_item_of(itemref: XmlElementView) -> Result<SpineItemView, Fault> {
    match required_attr(itemref, "idref"@) {
        Err(fault) => Err(fault),
        Ok(idref) => Ok(
            SpineItemView {
                idref,
                id: itemref.attr("id"@),
                properties: itemref.attr("properties"@),
                linear: itemref.attr("linear"@) != Some("no"@),
            },
        ),
    }
}

/// One more element of the spine.
pub open spec fn spine_step() -> spec_fn(Seq<SpineItemView>, XmlElementView) -> Result<
    Seq<SpineItemView>,
    Fault,
> {
    |done: Seq<SpineItemView>, itemref: XmlElementView|
        match spine_item_of(itemref) {
            Ok(item) => Ok(done.push(item)),
            Err(fault) => Err(fault),
        }
}

/// The reading order that the element `spine` declares.
pub open spec fn spine_of(spine: XmlElementView) -> Result<Seq<SpineItemView>, Fault> {
    try_fold(spine.children, Seq::empty(), spine_step())
}

/// Reads one entry of the spine.
pub fn parse_spine_item(itemref: &XmlElement) -> (r: Result<SpineItem, EpubError>)
    ensures
        gives(r, spine_item_of(itemref@)),
{
    let idref = match require_attr(itemref, "idref") {
        Ok(idref) => idref,
        Err(e) => {
            return Err(e);
        },
    };
    let linear = match itemref.get_attr("linear") {
        Some(value) => !str_eq(value.as_str(), "no"),
        None => true,
    };
    Ok(
        SpineItem {
            idref,
            id: itemref.get_attr("id"),
            properties: itemref.get_attr("properties"),
            linear,
        },
    )
}

/// Reads the reading order from the element `spine`. An entry without
/// `idref` fails the whole.
pub fn parse_spine(spine_element: &XmlElement) -> (r: Result<Vec<SpineItem>, EpubError>)
    ensures
        gives(r, spine_of(spine_element@)),
{
    let ghost kids = spine_element@.children;
    let ghost start = Seq::<SpineItemView>::empty();
    let mut done: Vec<SpineItem> = Vec::new();
    proof {
        lemma_xml_views(spine_element.children);
        assert(kids.take(0) =~= Seq::<XmlElementView>::empty());
        assert(done.deep_view() =~= start);
    }
    let mut i: usize = 0;
    while i < spine_element.children.len()
        invariant
            i <= spine_element.children.len(),
            kids == spine_element@.children,
            kids.len() == spine_element.children.len(),
            forall|j: int|
                0 <= j < spine_element.children.len() ==> kids[j]
                    == #[trigger] spine_element.children[j]@,
            try_fold(kids.take(i as int), Seq::empty(), spine_step()) == Ok::<_, Fault>(
                done.deep_view(),
            ),
        decreases spine_element.children.len() - i,
    {
        let ghost before = done.deep_view();
        proof {
            lemma_try_fold_step(kids, Seq::empty(), spine_step(), i as int);
        }
        match parse_spine_item(&spine_element.children[i]) {
            Ok(item) => {
                done.push(item);
                assert(done.deep_view() =~= before.push(item@));
            },
            Err(e) => {
                proof {
                    lemma_try_fold_fails(kids, Seq::empty(), spine_step(), i + 1);
                }
                return Err(e);
            },
        }
        i += 1;
    }
    proof {
        assert(kids.take(i as int) =~= kids);
    }
    Ok(done)
}

/// The manifest entry that the element `item` stands for, its `href`
/// resolved from the directory `base`.
pub open spec fn manifest_item_of(item: XmlElementView, base: Seq<char>) -> Result<
    ManifestItemView,
    Fault,
> {
    match required_attr(item, "id"@) {
        Err(fault) => Err(fault),
        Ok(id) => match required_attr(item, "href"@) {
            Err(fault) => Err(fault),
            Ok(href) => match required_attr(item, "media-type"@) {
                Err(fault) => Err(fault),
                Ok(mime) => match resolved(base, href) {
                    None => Err(Fault::RealtiveLinkLeakage { path: href }),
                    Some(path) => Ok(
                        ManifestItemView {
                            id,
                            path,
                            mime,
                            properties: item.attr("properties"@),
                            fallback: item.attr("fallback"@),
                        },
                    ),
                },
            },
        },
    }
}

/// One more element of the manifest: its entry is set under its id.
pub open spec fn manifest_step(base: Seq<char>) -> spec_fn(
    Seq<ManifestItemView>,
    XmlElementView,
) -> Result<Seq<ManifestItemView>, Fault> {
    |done: Seq<ManifestItemView>, item: XmlElementView|
        match manifest_item_of(item, base) {
            Ok(entry) => Ok(with_item(done, entry)),
            Err(fault) => Err(fault),
        }
}

/// The resources that the element `manifest` declares, for a package
/// document in the directory `base`.
pub open spec fn manifest_of(manifest: XmlElementView, base: Seq<char>) -> Result<
    Seq<ManifestItemView>,
    Fault,
> {
    try_fold(manifest.children, Seq::empty(), manifest_step(base))
}

/// The manifest that is read holds no id twice: an element whose id was
/// read before takes the place of the earlier entry.
pub proof fn lemma_manifest_ids_unique(children: Seq<XmlElementView>, base: Seq<char>)
    ensures
        try_fold(children, Seq::empty(), manifest_step(base)) matches Ok(items) ==> unique_ids(
            items,
        ),
    decreases children.len(),
{
    if children.len() > 0 {
        lemma_manifest_ids_unique(children.drop_last(), base);
        if let Ok(before) = try_fold(children.drop_last(), Seq::empty(), manifest_step(base)) {
            if let Ok(entry) = manifest_item_of(children.last(), base) {
                lemma_insert_keeps_unique(before, entry);
            }
        }
    }
}

/// Reads one entry of the manifest.
pub fn parse_manifest_item(item: &XmlElement, base: &str) -> (r: Result<ManifestItem, EpubError>)
    ensures
        gives(r, manifest_item_of(item@, base@)),
{
    let id = match require_attr(item, "id") {
        Ok(id) => id,
        Err(e) => {
            return Err(e);
        },
    };
    let href = match require_attr(item, "href") {
        Ok(href) => href,
        Err(e) => {
            return Err(e);
        },
    };
    let mime = match require_attr(item, "media-type") {
        Ok(mime) => mime,
        Err(e) => {
            return Err(e);
        },
    };
    let path = match normalize_manifest_path(base, href.as_str()) {
        Ok(path) => path,
        Err(e) => {
            return Err(e);
        },
    };
    Ok(
        ManifestItem {
            id,
            path,
            mime,
            properties: item.get_attr("properties"),
            fallback: item.get_attr("fallback"),
        },
    )
}

/// Reads the manifest from the element `manifest`. An entry without `id`,
/// `href` or `media-type` fails the whole, and so does one whose `href`
/// leaves the container.
pub fn parse_manifest(manifest_element: &XmlElement, base: &str) -> (r: Result<
    Manifest,
    EpubError,
>)
    ensures
        gives(r, manifest_of(manifest_element@, base@)),
        r matches Ok(manifest) ==> unique_ids(manifest@),
{
    proof {
        lemma_manifest_ids_unique(manifest_element@.children, base@);
    }
    let ghost kids = manifest_element@.children;
    let mut done = Manifest::new();
    proof {
        lemma_xml_views(manifest_element.children);
        assert(kids.take(0) =~= Seq::<XmlElementView>::empty());
    }
    let mut i: usize = 0;
    while i < manifest_element.children.len()
        invariant
            i <= manifest_element.children.len(),
            kids == manifest_element@.children,
            kids.len() == manifest_element.children.len(),
            forall|j: int|
                0 <= j < manifest_element.children.len() ==> kids[j]
                    == #[trigger] manifest_element.children[j]@,
            try_fold(kids.take(i as int), Seq::empty(), manifest_step(base@)) == Ok::<_, Fault>(
                done@,
            ),
        decreases manifest_element.children.len() - i,
    {
        proof {
            lemma_try_fold_step(kids, Seq::empty(), manifest_step(base@), i as int);
        }
        match parse_manifest_item(&manifest_element.children[i], base) {
            Ok(item) => {
                done.insert(item);
            },
            Err(e) => {
                proof {
                    lemma_try_fold_fails(kids, Seq::empty(), manifest_step(base@), i + 1);
                }
                return Err(e);
            },
        }
        i += 1;
    }
    proof {
        assert(kids.take(i as int) =~= kids);
    }
    Ok(done)
}

/// The encryption record that the element `data` stands for.
pub open spec fn encryption_record_of(data: XmlElementView) -> Result<EncryptionDataView, Fault> {
    match first_of(data.named("EncryptionMethod"@)) {
        None => Err(Fault::NonCanonicalFile { tag: "EncryptionMethod"@ }),
        Some(method) => match first_of(data.named("CipherReference"@)) {
            None => Err(Fault::NonCanonicalFile { tag: "CipherReference"@ }),
            Some(reference) => match method.attr("Algorithm"@) {
                None => Err(
                    Fault::MissingRequiredAttribute {
                        tag: "EncryptionMethod"@,
                        attribute: "Algorithm"@,
                    },
                ),
                Some(algorithm) => match reference.attr("URI"@) {
                    None => Err(
                        Fault::MissingRequiredAttribute {
                            tag: "CipherReference"@,
                            attribute: "URI"@,
                        },
                    ),
                    Some(uri) => Ok(EncryptionDataView { method: algorithm, data: uri }),
                },
            },
        },
    }
}

/// One more element of the encryption document: only `EncryptedData`
/// elements count.
pub open spec fn encryption_step() -> spec_fn(
    Seq<EncryptionDataView>,
    XmlElementView,
) -> Result<Seq<EncryptionDataView>, Fault> {
    |done: Seq<EncryptionDataView>, data: XmlElementView|
        if data.name != "EncryptedData"@ {
            Ok(done)
        } else {
            match encryption_record_of(data) {
                Ok(record) => Ok(done.push(record)),
                Err(fault) => Err(fault),
            }
        }
}

/// The records of the encryption document `root`; `None` where it has none.
pub open spec fn encryption_of(root: XmlElementView) -> Result<Option<Seq<EncryptionDataView>>, Fault> {
    match try_fold(root.children, Seq::empty(), encryption_step()) {
        Err(fault) => Err(fault),
        Ok(records) => if records.len() == 0 {
            Ok(None)
        } else {
            Ok(Some(records))
        },
    }
}

/// Reads one record of the encryption document.
pub fn parse_encryption_record(data: &XmlElement) -> (r: Result<EncryptionData, EpubError>)
    ensures
        gives(r, encryption_record_of(data@)),
{
    let methods = data.find_elements_by_name("EncryptionMethod");
    if methods.len() == 0 {
        return Err(missing_element("EncryptionMethod"));
    }
    let references = data.find_elements_by_name("CipherReference");
    if references.len() == 0 {
        return Err(missing_element("CipherReference"));
    }
    let method = match methods[0].get_attr("Algorithm") {
        Some(method) => method,
        None => {
            return Err(missing_attribute(owned("EncryptionMethod"), "Algorithm"));
        },
    };
    let uri = match references[0].get_attr("URI") {
        Some(uri) => uri,
        None => {
            return Err(missing_attribute(owned("CipherReference"), "URI"));
        },
    };
    Ok(EncryptionData { method, data: uri })
}

/// Reads the records of the encryption document `root`.
pub fn parse_encryption(root: &XmlElement) -> (r: Result<Option<Vec<EncryptionData>>, EpubError>)
    ensures
        gives(r, encryption_of(root@)),
{
    let ghost kids = root@.children;
    let mut done: Vec<EncryptionData> = Vec::new();
    proof {
        lemma_xml_views(root.children);
        assert(kids.take(0) =~= Seq::<XmlElementView>::empty());
        assert(done.deep_view() =~= Seq::<EncryptionDataView>::empty());
    }
    let mut i: usize = 0;
    while i < root.children.len()
        invariant
            i <= root.children.len(),
            kids == root@.children,
            kids.len() == root.children.len(),
            forall|j: int| 0 <= j < root.children.len() ==> kids[j] == #[trigger] root.children[j]@,
            try_fold(kids.take(i as int), Seq::empty(), encryption_step()) == Ok::<_, Fault>(
                done.deep_view(),
            ),
        decreases root.children.len() - i,
    {
        let ghost before = done.deep_view();
        proof {
            lemma_try_fold_step(kids, Seq::empty(), encryption_step(), i as int);
        }
        if str_eq(root.children[i].name.as_str(), "EncryptedData") {
            match parse_encryption_record(&root.children[i]) {
                Ok(record) => {
                    done.push(record);
                    assert(done.deep_view() =~= before.push(record@));
                },
                Err(e) => {
                    proof {
                        lemma_try_fold_fails(kids, Seq::empty(), encryption_step(), i + 1);
                    }
                    return Err(e);
                },
            }
        }
        i += 1;
    }
    proof {
        assert(kids.take(i as int) =~= kids);
    }
    if done.len() == 0 {
        Ok(None)
    } else {
        Ok(Some(done))
    }
}

/// Whether `item` is the identifier that the package names with `uid`;
/// without a name every identifier is.
pub open spec fn identifies(item: MetadataItemView, uid: Option<Seq<char>>) -> bool {
    item.property == "identifier"@ && match uid {
        Some(id) => item.id == Some(id),
        None => true,
    }
}

/// The unique identifier of the publication: the value of the identifier
/// whose id the package names in `unique-identifier`, or of the first
/// identifier where it names none.
pub open spec fn unique_identifier_of(
    package: XmlElementView,
    metadata: Seq<MetadataItemView>,
) -> Result<Seq<char>, Fault> {
    let uid = package.attr("unique-identifier"@);
    match first_of(metadata.filter(|item: MetadataItemView| identifies(item, uid))) {
        Some(item) => Ok(item.value),
        None => Err(Fault::NonCanonicalFile { tag: "dc:identifier"@ }),
    }
}

/// Finds the unique identifier of the publication.
pub fn resolve_unique_identifier(package: &XmlElement, metadata: &Vec<MetadataItem>) -> (r: Result<
    String,
    EpubError,
>)
    ensures
        gives(r, unique_identifier_of(package@, metadata.deep_view())),
{
    let uid = package.get_attr("unique-identifier");
    let ghost wanted = |item: MetadataItemView| identifies(item, uid.deep_view());
    let mut i: usize = 0;
    while i < metadata.len()
        invariant
            i <= metadata.len(),
            uid.deep_view() == package@.attr("unique-identifier"@),
            wanted == |item: MetadataItemView| identifies(item, uid.deep_view()),
            forall|j: int| 0 <= j < i ==> !wanted(#[trigger] metadata.deep_view()[j]),
        decreases metadata.len() - i,
    {
        let item = &metadata[i];
        let named = match (&uid, &item.id) {
            (Some(wanted_id), Some(id)) => str_eq(wanted_id.as_str(), id.as_str()),
            (Some(_), None) => false,
            (None, _) => true,
        };
        if str_eq(item.property.as_str(), "identifier") && named {
            proof {
                assert(wanted(metadata.deep_view()[i as int]));
                lemma_first_match(metadata.deep_view(), wanted, i as int);
            }
            return Ok(item.value.clone());
        }
        i += 1;
    }
    proof {
        lemma_first_match(metadata.deep_view(), wanted, i as int);
    }
    Err(missing_element("dc:identifier"))
}

} // verus!
