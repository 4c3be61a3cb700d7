//! The entities of a publication's package document, each with the
//! mathematical view that the contracts of this crate speak of.

use crate::error::{EpubBuilderError, EpubError};
use crate::text::{concat3, owned, starts_with, str_eq};
use vstd::prelude::*;

pub use crate::builder::content::{BlockType, Footnote};

verus! {

/// The version of the format that a publication follows.
#[derive(Debug, Clone, Copy, PartialEq, Eq, Structural)]
pub enum EpubVersion {
    /// The legacy format, with an NCX table of contents.
    Version2_0,
    /// The modern format, with a navigation document.
    Version3_0,
}

impl DeepView for EpubVersion {
    type V = EpubVersion;

    open spec fn deep_view(&self) -> EpubVersion {
        *self
    }
}

/// The names of the Dublin Core elements.
pub open spec fn is_dc_element(name: Seq<char>) -> bool {
    name == "contributor"@ || name == "coverage"@ || name == "creator"@ || name == "date"@ || name
        == "description"@ || name == "format"@ || name == "identifier"@ || name == "language"@
        || name == "publisher"@ || name == "relation"@ || name == "rights"@ || name == "source"@
        || name == "subject"@ || name == "title"@ || name == "type"@
}

/// Whether `name` is the name of a Dublin Core element.
pub fn element_in_dc_namespace(name: &str) -> (r: bool)
    ensures
        r == is_dc_element(name@),
{
    str_eq(name, "contributor") || str_eq(name, "coverage") || str_eq(name, "creator") || str_eq(
        name,
        "date",
    ) || str_eq(name, "description") || str_eq(name, "format") || str_eq(name, "identifier")
        || str_eq(name, "language") || str_eq(name, "publisher") || str_eq(name, "relation")
        || str_eq(name, "rights") || str_eq(name, "source") || str_eq(name, "subject") || str_eq(
        name,
        "title",
    ) || str_eq(name, "type")
}

/// A copy of an optional string.
pub fn clone_text(text: &Option<String>) -> (r: Option<String>)
    ensures
        r.deep_view() == text.deep_view(),
{
    match text {
        Some(s) => Some(s.clone()),
        None => None,
    }
}

/// `properties` with `property` added at its end, after one space if
/// there was a property before.
pub open spec fn with_property(properties: Option<Seq<char>>, property: Seq<char>) -> Seq<char> {
    match properties {
        Some(before) => before + " "@ + property,
        None => property,
    }
}

/// A refinement of a metadata entry, as a value.
pub ghost struct MetadataRefinementView {
    pub refines: Seq<char>,
    pub property: Seq<char>,
    pub value: Seq<char>,
    pub lang: Option<Seq<char>>,
    pub scheme: Option<Seq<char>>,
}

/// More detail about the metadata entry whose id is `refines`.
#[derive(Debug)]
pub struct MetadataRefinement {
    /// The id of the entry that this one refines.
    pub refines: String,
    /// What aspect of that entry it describes.
    pub property: String,
    /// The value.
    pub value: String,
    /// The language of the value.
    pub lang: Option<String>,
    /// The vocabulary that the value is taken from.
    pub scheme: Option<String>,
}

impl View for MetadataRefinement {
    type V = MetadataRefinementView;

    open spec fn view(&self) -> MetadataRefinementView {
        MetadataRefinementView {
            refines: self.refines@,
            property: self.property@,
            value: self.value@,
            lang: self.lang.deep_view(),
            scheme: self.scheme.deep_view(),
        }
    }
}

impl DeepView for MetadataRefinement {
    type V = MetadataRefinementView;

    open spec fn deep_view(&self) -> MetadataRefinementView {
        self@
    }
}

impl Clone for MetadataRefinement {
    fn clone(&self) -> (r: Self)
        ensures
            r@ == self@,
    {
        MetadataRefinement {
            refines: self.refines.clone(),
            property: self.property.clone(),
            value: self.value.clone(),
            lang: clone_text(&self.lang),
            scheme: clone_text(&self.scheme),
        }
    }
}

impl MetadataRefinementView {
    /// The attributes of the `meta` element that carries this refinement.
    pub open spec fn attributes(self) -> Seq<(Seq<char>, Seq<char>)> {
        seq![("refines"@, self.refines), ("property"@, self.property)] + (match self.lang {
            Some(lang) => seq![("lang"@, lang)],
            None => seq![],
        }) + (match self.scheme {
            Some(scheme) => seq![("scheme"@, scheme)],
            None => seq![],
        })
    }
}

impl MetadataRefinement {
    /// A refinement of the entry with id `refines`, without language or scheme.
    pub fn new(refines: &str, property: &str, value: &str) -> (r: Self)
        ensures
            r@ == (MetadataRefinementView {
                refines: refines@,
                property: property@,
                value: value@,
                lang: None,
                scheme: None,
            }),
    {
        MetadataRefinement {
            refines: owned(refines),
            property: owned(property),
            value: owned(value),
            lang: None,
            scheme: None,
        }
    }

    /// Sets the language.
    pub fn with_lang(&mut self, lang: &str) -> (ret: &mut Self)
        ensures
            ret@ == (MetadataRefinementView { lang: Some(lang@), ..old(self)@ }),
            *final(self) == *final(ret),
    {
        self.lang = Some(owned(lang));
        self
    }

    /// Sets the scheme.
    pub fn with_scheme(&mut self, scheme: &str) -> (ret: &mut Self)
        ensures
            ret@ == (MetadataRefinementView { scheme: Some(scheme@), ..old(self)@ }),
            *final(self) == *final(ret),
    {
        self.scheme = Some(owned(scheme));
        self
    }

    /// A copy of this refinement.
    pub fn build(&self) -> (r: Self)
        ensures
            r@ == self@,
    {
        self.clone()
    }

    /// The attributes of the `meta` element that carries this refinement.
    pub fn attributes(&self) -> (r: Vec<(&str, &str)>)
        ensures
            r.deep_view() == self@.attributes(),
    {
        let mut attributes: Vec<(&str, &str)> = Vec::new();
        attributes.push(("refines", self.refines.as_str()));
        attributes.push(("property", self.property.as_str()));
        if let Some(lang) = &self.lang {
            attributes.push(("lang", lang.as_str()));
        }
        if let Some(scheme) = &self.scheme {
            attributes.push(("scheme", scheme.as_str()));
        }
        assert(attributes.deep_view() =~= self@.attributes());
        attributes
    }
}

/// A metadata entry, as a value.
pub ghost struct MetadataItemView {
    pub id: Option<Seq<char>>,
    pub property: Seq<char>,
    pub value: Seq<char>,
    pub lang: Option<Seq<char>>,
    pub refined: Seq<MetadataRefinementView>,
}

/// One entry of a publication's metadata. Refinements attach only to an
/// entry that has an id.
#[derive(Debug)]
pub struct MetadataItem {
    /// The id by which refinements and the package refer to this entry.
    pub id: Option<String>,
    /// The name of the property, such as `title` or `creator`.
    pub property: String,
    /// The value.
    pub value: String,
    /// The language of the value.
    pub lang: Option<String>,
    /// What refines this entry.
    pub refined: Vec<MetadataRefinement>,
}

impl View for MetadataItem {
    type V = MetadataItemView;

    open spec fn view(&self) -> MetadataItemView {
        MetadataItemView {
            id: self.id.deep_view(),
            property: self.property@,
            value: self.value@,
            lang: self.lang.deep_view(),
            refined: self.refined.deep_view(),
        }
    }
}

impl DeepView for MetadataItem {
    type V = MetadataItemView;

    open spec fn deep_view(&self) -> MetadataItemView {
        self@
    }
}

impl Clone for MetadataItem {
    fn clone(&self) -> (r: Self)
        ensures
            r@ == self@,
    {
        let refined = self.refined.clone();
        assert(refined.deep_view() =~= self.refined.deep_view());
        MetadataItem {
            id: clone_text(&self.id),
            property: self.property.clone(),
            value: self.value.clone(),
            lang: clone_text(&self.lang),
            refined,
        }
    }
}

impl MetadataItemView {
    /// Whether refinements attach only where there is an id.
    pub open spec fn well_formed(self) -> bool {
        self.refined.len() > 0 ==> self.id is Some
    }

    /// The attributes of the element that carries this entry: the property
    /// name unless the element's own name says it, then id and language.
    pub open spec fn attributes(self) -> Seq<(Seq<char>, Seq<char>)> {
        (if is_dc_element(self.property) {
            seq![]
        } else {
            seq![("property"@, self.property)]
        }) + (match self.id {
            Some(id) => seq![("id"@, id)],
            None => seq![],
        }) + (match self.lang {
            Some(lang) => seq![("lang"@, lang)],
            None => seq![],
        })
    }
}

impl MetadataItem {
    /// An entry without id, language or refinements.
    pub fn new(property: &str, value: &str) -> (r: Self)
        ensures
            r@ == (MetadataItemView {
                id: None,
                property: property@,
                value: value@,
                lang: None,
                refined: Seq::empty(),
            }),
    {
        let r = MetadataItem {
            id: None,
            property: owned(property),
            value: owned(value),
            lang: None,
            refined: Vec::new(),
        };
        assert(r.refined.deep_view() =~= Seq::empty());
        r
    }

    /// Sets the id.
    pub fn with_id(&mut self, id: &str) -> (ret: &mut Self)
        ensures
            ret@ == (MetadataItemView { id: Some(id@), ..old(self)@ }),
            *final(self) == *final(ret),
    {
        self.id = Some(owned(id));
        self
    }

    /// Sets the language.
    pub fn with_lang(&mut self, lang: &str) -> (ret: &mut Self)
        ensures
            ret@ == (MetadataItemView { lang: Some(lang@), ..old(self)@ }),
            *final(self) == *final(ret),
    {
        self.lang = Some(owned(lang));
        self
    }

    /// Adds a refinement at the end if this entry has an id; leaves the
    /// entry as it is if it has none.
    pub fn append_refinement(&mut self, refine: MetadataRefinement) -> (ret: &mut Self)
        ensures
            old(self)@.well_formed() ==> ret@.well_formed(),
            old(self).id is Some ==> ret@ == (MetadataItemView {
                refined: old(self)@.refined.push(refine@),
                ..old(self)@
            }),
            old(self).id is None ==> ret@ == old(self)@,
            *final(self) == *final(ret),
    {
        if self.id.is_some() {
            self.refined.push(refine);
            assert(self.refined.deep_view() =~= old(self).refined.deep_view().push(refine@));
        }
        self
    }

    /// A copy of this entry.
    pub fn build(&self) -> (r: Self)
        ensures
            r@ == self@,
    {
        self.clone()
    }

    /// The attributes of the element that carries this entry.
    pub fn attributes(&self) -> (r: Vec<(&str, &str)>)
        ensures
            r.deep_view() == self@.attributes(),
    {
        let mut attributes: Vec<(&str, &str)> = Vec::new();
        if !element_in_dc_namespace(self.property.as_str()) {
            attributes.push(("property", self.property.as_str()));
        }
        if let Some(id) = &self.id {
            attributes.push(("id", id.as_str()));
        }
        if let Some(lang) = &self.lang {
            attributes.push(("lang", lang.as_str()));
        }
        assert(attributes.deep_view() =~= self@.attributes());
        attributes
    }
}

/// A metadata link, as a value.
pub ghost struct MetadataLinkItemView {
    pub href: Seq<char>,
    pub rel: Seq<char>,
    pub hreflang: Option<Seq<char>>,
    pub id: Option<Seq<char>>,
    pub mime: Option<Seq<char>>,
    pub properties: Option<Seq<char>>,
    pub refines: Option<Seq<char>>,
}

/// A link from the metadata to a resource. `refines` names another entry
/// by its id; it is a label to look up, not an owner.
#[derive(Debug)]
pub struct MetadataLinkItem {
    /// Where the link points.
    pub href: String,
    /// How the target relates to the publication.
    pub rel: String,
    /// The language of the target.
    pub hreflang: Option<String>,
    /// The id of this link.
    pub id: Option<String>,
    /// The media type of the target.
    pub mime: Option<String>,
    /// Properties, separated by spaces.
    pub properties: Option<String>,
    /// The id of the entry that this link refines.
    pub refines: Option<String>,
}

impl View for MetadataLinkItem {
    type V = MetadataLinkItemView;

    open spec fn view(&self) -> MetadataLinkItemView {
        MetadataLinkItemView {
            href: self.href@,
            rel: self.rel@,
            hreflang: self.hreflang.deep_view(),
            id: self.id.deep_view(),
            mime: self.mime.deep_view(),
            properties: self.properties.deep_view(),
            refines: self.refines.deep_view(),
        }
    }
}

impl DeepView for MetadataLinkItem {
    type V = MetadataLinkItemView;

    open spec fn deep_view(&self) -> MetadataLinkItemView {
        self@
    }
}

/// A manifest entry, as a value.
pub ghost struct ManifestItemView {
    pub id: Seq<char>,
    pub path: Seq<char>,
    pub mime: Seq<char>,
    pub properties: Option<Seq<char>>,
    pub fallback: Option<Seq<char>>,
}

/// One resource of the publication. `path` is relative to the root of the
/// container; `fallback` names the entry to use where this one's media type
/// is not supported.
#[derive(Debug)]
pub struct ManifestItem {
    /// The id, unique in the manifest.
    pub id: String,
    /// The path of the resource from the root of the container.
    pub path: String,
    /// The media type.
    pub mime: String,
    /// Properties, separated by spaces.
    pub properties: Option<String>,
    /// The id of the fallback entry.
    pub fallback: Option<String>,
}

impl View for ManifestItem {
    type V = ManifestItemView;

    open spec fn view(&self) -> ManifestItemView {
        ManifestItemView {
            id: self.id@,
            path: self.path@,
            mime: self.mime@,
            properties: self.properties.deep_view(),
            fallback: self.fallback.deep_view(),
        }
    }
}

impl DeepView for ManifestItem {
    type V = ManifestItemView;

    open spec fn deep_view(&self) -> ManifestItemView {
        self@
    }
}

impl Clone for ManifestItem {
    fn clone(&self) -> (r: Self)
        ensures
            r@ == self@,
    {
        ManifestItem {
            id: self.id.clone(),
            path: self.path.clone(),
            mime: self.mime.clone(),
            properties: clone_text(&self.properties),
            fallback: clone_text(&self.fallback),
        }
    }
}

impl ManifestItemView {
    /// The attributes of the `item` element that carries this entry.
    pub open spec fn attributes(self) -> Seq<(Seq<char>, Seq<char>)> {
        seq![("id"@, self.id), ("href"@, self.path), ("media-type"@, self.mime)] + (
        match self.properties {
            Some(properties) => seq![("properties"@, properties)],
            None => seq![],
        }) + (match self.fallback {
            Some(fallback) => seq![("fallback"@, fallback)],
            None => seq![],
        })
    }
}

impl ManifestItem {
    /// An entry with an empty media type, or the error that `path` begins
    /// with `../`: from where such a path would start is not known yet.
    pub fn new(id: &str, path: &str) -> (r: Result<Self, EpubError>)
        ensures
            "../"@.is_prefix_of(path@) ==> (r matches Err(
                EpubError::EpubBuilderError {
                    source: EpubBuilderError::IllegalManifestPath { manifest_id },
                },
            ) && manifest_id@ == id@),
            !"../"@.is_prefix_of(path@) ==> (r matches Ok(item) && item@ == (ManifestItemView {
                id: id@,
                path: path@,
                mime: Seq::empty(),
                properties: None,
                fallback: None,
            })),
    {
        if starts_with(path, "../") {
            return Err(
                EpubError::EpubBuilderError {
                    source: EpubBuilderError::IllegalManifestPath { manifest_id: owned(id) },
                },
            );
        }
        Ok(
            ManifestItem {
                id: owned(id),
                path: owned(path),
                mime: String::new(),
                properties: None,
                fallback: None,
            },
        )
    }

    /// This entry with the media type `mime`.
    pub fn set_mime(self, mime: &str) -> (r: Self)
        ensures
            r@ == (ManifestItemView { mime: mime@, ..self@ }),
    {
        ManifestItem {
            id: self.id,
            path: self.path,
            mime: owned(mime),
            properties: self.properties,
            fallback: self.fallback,
        }
    }

    /// Adds `property` at the end of the properties.
    pub fn append_property(&mut self, property: &str) -> (ret: &mut Self)
        ensures
            ret@ == (ManifestItemView {
                properties: Some(with_property(old(self)@.properties, property@)),
                ..old(self)@
            }),
            *final(self) == *final(ret),
    {
        let new_properties = match &self.properties {
            Some(properties) => concat3(properties.as_str(), " ", property),
            None => owned(property),
        };
        self.properties = Some(new_properties);
        self
    }

    /// Sets the fallback.
    pub fn with_fallback(&mut self, fallback: &str) -> (ret: &mut Self)
        ensures
            ret@ == (ManifestItemView { fallback: Some(fallback@), ..old(self)@ }),
            *final(self) == *final(ret),
    {
        self.fallback = Some(owned(fallback));
        self
    }

    /// A copy of this entry.
    pub fn build(&self) -> (r: Self)
        ensures
            r@ == self@,
    {
        self.clone()
    }

    /// The attributes of the `item` element that carries this entry.
    pub fn attributes(&self) -> (r: Vec<(&str, &str)>)
        ensures
            r.deep_view() == self@.attributes(),
    {
        let mut attributes: Vec<(&str, &str)> = Vec::new();
        attributes.push(("id", self.id.as_str()));
        attributes.push(("href", self.path.as_str()));
        attributes.push(("media-type", self.mime.as_str()));
        if let Some(properties) = &self.properties {
            attributes.push(("properties", properties.as_str()));
        }
        if let Some(fallback) = &self.fallback {
            attributes.push(("fallback", fallback.as_str()));
        }
        assert(attributes.deep_view() =~= self@.attributes());
        attributes
    }
}

/// A spine entry, as a value.
pub ghost struct SpineItemView {
    pub idref: Seq<char>,
    pub id: Option<Seq<char>>,
    pub properties: Option<Seq<char>>,
    pub linear: bool,
}

/// One step of the reading order: the manifest entry with id `idref`.
#[derive(Debug)]
pub struct SpineItem {
    /// The id of the manifest entry.
    pub idref: String,
    /// The id of this spine entry.
    pub id: Option<String>,
    /// Properties, separated by spaces.
    pub properties: Option<String>,
    /// Whether sequential reading passes through this entry.
    pub linear: bool,
}

impl View for SpineItem {
    type V = SpineItemView;

    open spec fn view(&self) -> SpineItemView {
        SpineItemView {
            idref: self.idref@,
            id: self.id.deep_view(),
            properties: self.properties.deep_view(),
            linear: self.linear,
        }
    }
}

impl DeepView for SpineItem {
    type V = SpineItemView;

    open spec fn deep_view(&self) -> SpineItemView {
        self@
    }
}

impl Clone for SpineItem {
    fn clone(&self) -> (r: Self)
        ensures
            r@ == self@,
    {
        SpineItem {
            idref: self.idref.clone(),
            id: clone_text(&self.id),
            properties: clone_text(&self.properties),
            linear: self.linear,
        }
    }
}

impl SpineItemView {
    /// The attributes of the `itemref` element that carries this entry.
    pub open spec fn attributes(self) -> Seq<(Seq<char>, Seq<char>)> {
        seq![("idref"@, self.idref), ("linear"@, if self.linear { "yes"@ } else { "no"@ })] + (
        match self.id {
            Some(id) => seq![("id"@, id)],
            None => seq![],
        }) + (match self.properties {
            Some(properties) => seq![("properties"@, properties)],
            None => seq![],
        })
    }
}

impl SpineItem {
    /// A linear entry for the manifest entry `idref`.
    pub fn new(idref: &str) -> (r: Self)
        ensures
            r@ == (SpineItemView { idref: idref@, id: None, properties: None, linear: true }),
    {
        SpineItem { idref: owned(idref), id: None, properties: None, linear: true }
    }

    /// Sets the id.
    pub fn with_id(&mut self, id: &str) -> (ret: &mut Self)
        ensures
            ret@ == (SpineItemView { id: Some(id@), ..old(self)@ }),
            *final(self) == *final(ret),
    {
        self.id = Some(owned(id));
        self
    }

    /// Adds `property` at the end of the properties.
    pub fn append_property(&mut self, property: &str) -> (ret: &mut Self)
        ensures
            ret@ == (SpineItemView {
                properties: Some(with_property(old(self)@.properties, property@)),
                ..old(self)@
            }),
            *final(self) == *final(ret),
    {
        let new_properties = match &self.properties {
            Some(properties) => concat3(properties.as_str(), " ", property),
            None => owned(property),
        };
        self.properties = Some(new_properties);
        self
    }

    /// Sets whether sequential reading passes through this entry.
    pub fn set_linear(&mut self, linear: bool) -> (ret: &mut Self)
        ensures
            ret@ == (SpineItemView { linear, ..old(self)@ }),
            *final(self) == *final(ret),
    {
        self.linear = linear;
        self
    }

    /// A copy of this entry.
    pub fn build(&self) -> (r: Self)
        ensures
            r@ == self@,
    {
        self.clone()
    }

    /// The attributes of the `itemref` element that carries this entry.
    pub fn attributes(&self) -> (r: Vec<(&str, &str)>)
        ensures
            r.deep_view() == self@.attributes(),
    {
        let mut attributes: Vec<(&str, &str)> = Vec::new();
        attributes.push(("idref", self.idref.as_str()));
        attributes.push(("linear", if self.linear { "yes" } else { "no" }));
        if let Some(id) = &self.id {
            attributes.push(("id", id.as_str()));
        }
        if let Some(properties) = &self.properties {
            attributes.push(("properties", properties.as_str()));
        }
        assert(attributes.deep_view() =~= self@.attributes());
        attributes
    }
}

/// An encryption record, as a value.
pub ghost struct EncryptionDataView {
    pub method: Seq<char>,
    pub data: Seq<char>,
}

/// One record of the encryption manifest: the resource at `data` is
/// encrypted with `method`.
#[derive(Debug)]
pub struct EncryptionData {
    /// The URI of the encryption method.
    pub method: String,
    /// The path of the resource from the root of the container.
    pub data: String,
}

impl View for EncryptionData {
    type V = EncryptionDataView;

    open spec fn view(&self) -> EncryptionDataView {
        EncryptionDataView { method: self.method@, data: self.data@ }
    }
}

impl DeepView for EncryptionData {
    type V = EncryptionDataView;

    open spec fn deep_view(&self) -> EncryptionDataView {
        self@
    }
}

impl Clone for EncryptionData {
    fn clone(&self) -> (r: Self)
        ensures
            r@ == self@,
    {
        EncryptionData { method: self.method.clone(), data: self.data.clone() }
    }
}

/// An entry of the table of contents, as a value.
pub ghost struct NavPointView {
    pub label: Seq<char>,
    pub content: Option<Seq<char>>,
    pub children: Seq<NavPointView>,
    pub play_order: Option<usize>,
}

/// One entry of the table of contents, with the entries below it.
#[derive(Debug)]
pub struct NavPoint {
    /// The text shown for this entry.
    pub label: String,
    /// The path of the document that the entry leads to.
    pub content: Option<String>,
    /// The entries below this one.
    pub children: Vec<NavPoint>,
    /// The place of this entry in the reading order.
    pub play_order: Option<usize>,
}

/// The value of each entry of `points`, in order.
pub open spec fn nav_views(points: Seq<NavPoint>) -> Seq<NavPointView>
    decreases points,
{
    Seq::new(
        points.len(),
        |i: int|
            if 0 <= i < points.len() {
                nav_view(points[i])
            } else {
                arbitrary()
            },
    )
}

/// The value of `point`.
pub open spec fn nav_view(point: NavPoint) -> NavPointView
    decreases point,
{
    NavPointView {
        label: point.label@,
        content: point.content.deep_view(),
        children: nav_views(point.children@),
        play_order: point.play_order,
    }
}

impl View for NavPoint {
    type V = NavPointView;

    open spec fn view(&self) -> NavPointView {
        nav_view(*self)
    }
}

impl DeepView for NavPoint {
    type V = NavPointView;

    open spec fn deep_view(&self) -> NavPointView {
        nav_view(*self)
    }
}

/// The deep view of a list of entries is the list of their values.
pub proof fn lemma_nav_views(points: Vec<NavPoint>)
    ensures
        points.deep_view() == nav_views(points@),
        nav_views(points@).len() == points.len(),
        forall|i: int| 0 <= i < points.len() ==> nav_views(points@)[i] == #[trigger] points[i]@,
{
    assert(points.deep_view() =~= nav_views(points@));
}

/// A copy of each entry of `points`.
pub fn clone_nav_points(points: &Vec<NavPoint>) -> (r: Vec<NavPoint>)
    ensures
        r.deep_view() == points.deep_view(),
    decreases points,
{
    let mut r: Vec<NavPoint> = Vec::new();
    let mut i: usize = 0;
    while i < points.len()
        invariant
            i <= points.len(),
            r.len() == i,
            forall|j: int| 0 <= j < i ==> r[j]@ == points[j]@,
        decreases points.len() - i,
    {
        let point = &points[i];
        let copy = NavPoint {
            label: point.label.clone(),
            content: clone_text(&point.content),
            children: clone_nav_points(&point.children),
            play_order: point.play_order,
        };
        proof {
            lemma_nav_views(copy.children);
            lemma_nav_views(point.children);
        }
        r.push(copy);
        i += 1;
    }
    assert(r.deep_view() =~= points.deep_view());
    r
}

impl Clone for NavPoint {
    fn clone(&self) -> (r: Self)
        ensures
            r@ == self@,
    {
        let children = clone_nav_points(&self.children);
        proof {
            lemma_nav_views(children);
            lemma_nav_views(self.children);
        }
        NavPoint {
            label: self.label.clone(),
            content: clone_text(&self.content),
            children,
            play_order: self.play_order,
        }
    }
}

impl NavPoint {
    /// An entry without content, children or place in the reading order.
    pub fn new(label: &str) -> (r: Self)
        ensures
            r@ == (NavPointView {
                label: label@,
                content: None,
                children: Seq::empty(),
                play_order: None,
            }),
    {
        let r = NavPoint { label: owned(label), content: None, children: Vec::new(), play_order: None };
        assert(nav_views(r.children@) =~= Seq::empty());
        r
    }

    /// Sets the path of the document that the entry leads to.
    pub fn with_content(&mut self, content: &str) -> (ret: &mut Self)
        ensures
            ret@ == (NavPointView { content: Some(content@), ..old(self)@ }),
            *final(self) == *final(ret),
    {
        self.content = Some(owned(content));
        self
    }

    /// Adds `child` below this entry, after the children it has.
    pub fn append_child(&mut self, child: NavPoint) -> (ret: &mut Self)
        ensures
            ret@ == (NavPointView { children: old(self)@.children.push(child@), ..old(self)@ }),
            *final(self) == *final(ret),
    {
        self.children.push(child);
        assert(nav_views(self.children@) =~= nav_views(old(self).children@).push(child@));
        self
    }

    /// Replaces the children of this entry.
    pub fn set_children(&mut self, children: Vec<NavPoint>) -> (ret: &mut Self)
        ensures
            ret@ == (NavPointView { children: children.deep_view(), ..old(self)@ }),
            *final(self) == *final(ret),
    {
        proof {
            lemma_nav_views(children);
        }
        self.children = children;
        self
    }

    /// A copy of this entry and of all entries below it.
    pub fn build(&self) -> (r: Self)
        ensures
            r@ == self@,
    {
        self.clone()
    }
}

} // verus!
