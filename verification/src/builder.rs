//! Building a publication.
//!
//! A builder gathers the same model that a reader finds: rootfiles,
//! metadata, manifest, spine and table of contents, with the bytes of every
//! resource staged under the path at which the archive will hold it. Making
//! the publication checks what reading only warns of, writes the container
//! document, the navigation document and the package document, and packs
//! everything into an archive.

use crate::archive::{
    add_outcome, archive_bytes, held, writer_add, writer_finish, writer_open, written_entries,
    AddOutcome, ArchiveView,
};
use crate::builder::content::{sniff, sniffed_mime};
use crate::epub::EpubDoc;
use crate::error::{EpubBuilderError, EpubError, Fault, BuilderFault};
use crate::fallback::{
    chain_message, chain_outcome, chain_text, check_fallback_chain, ChainFault, ChainOutcome,
};
use crate::manifest::{find_item, has_nav_property, is_nav_item, with_item, Manifest};
use crate::paths::{normalize_manifest_path, parent_dir, parent_of, resolved, up_step};
use crate::text::{concat2, owned, starts_with, str_eq};
use crate::types::{clone_nav_points, element_in_dc_namespace, is_dc_element, lemma_nav_views, ManifestItem, ManifestItemView, MetadataItem, MetadataItemView, MetadataRefinementView, NavPoint, NavPointView, SpineItem, SpineItemView};
use crate::xml_writer::{attribute, decl, declaration, empty_of, empty_with, end, end_of, owned_attributes, push_piece, push_text_element, render, rendered, start, start_of, start_with, text, text_element, XmlPiece, XmlPieceView};
use std::marker::PhantomData;
use vstd::prelude::*;

pub mod chapter;
pub mod content;

verus! {

/// The marker of the modern format, the only one that is built.
#[derive(Debug)]
pub struct EpubVersion3;

/// A resource that waits to be packed, as a value.
pub ghost struct StagedFileView {
    pub path: Seq<char>,
    pub data: Seq<u8>,
}

/// The bytes of one file, staged under the path at which the archive will
/// hold them.
#[derive(Debug)]
pub struct StagedFile {
    /// The path from the root of the container.
    pub path: String,
    /// The content.
    pub data: Vec<u8>,
}

impl DeepView for StagedFile {
    type V = StagedFileView;

    open spec fn deep_view(&self) -> StagedFileView {
        StagedFileView { path: self.path@, data: self.data@ }
    }
}

/// A builder, as a value.
pub ghost struct EpubBuilderView {
    pub rootfiles: Seq<Seq<char>>,
    pub metadata: Seq<MetadataItemView>,
    pub manifest: Seq<ManifestItemView>,
    pub spine: Seq<SpineItemView>,
    pub catalog_title: Seq<char>,
    pub catalog: Seq<NavPointView>,
    pub staged: Seq<StagedFileView>,
}

/// Gathers what a publication is made of.
#[derive(Debug)]
pub struct EpubBuilder<Version> {
    /// The format that is built.
    pub epub_version: PhantomData<Version>,
    /// The paths of the package documents; the first one is written.
    pub rootfiles: Vec<String>,
    /// The metadata entries.
    pub metadata: Vec<MetadataItem>,
    /// The resources.
    pub manifest: Manifest,
    /// The reading order.
    pub spine: Vec<SpineItem>,
    /// The title of the table of contents.
    pub catalog_title: String,
    /// The table of contents.
    pub catalog: Vec<NavPoint>,
    /// The files that wait to be packed, in the order in which they were
    /// staged.
    pub staged: Vec<StagedFile>,
}

impl<Version> View for EpubBuilder<Version> {
    type V = EpubBuilderView;

    open spec fn view(&self) -> EpubBuilderView {
        EpubBuilderView {
            rootfiles: self.rootfiles.deep_view(),
            metadata: self.metadata.deep_view(),
            manifest: self.manifest@,
            spine: self.spine.deep_view(),
            catalog_title: self.catalog_title@,
            catalog: self.catalog.deep_view(),
            staged: self.staged.deep_view(),
        }
    }
}

/// The content of the `mimetype` entry.
pub open spec fn mimetype_bytes() -> Seq<u8> {
    vstd::utf8::encode_utf8("application/epub+zip"@)
}

/// The builder that nothing was added to: only the `mimetype` file is
/// staged.
pub open spec fn fresh_builder() -> EpubBuilderView {
    EpubBuilderView {
        rootfiles: Seq::empty(),
        metadata: Seq::empty(),
        manifest: Seq::empty(),
        spine: Seq::empty(),
        catalog_title: Seq::empty(),
        catalog: Seq::empty(),
        staged: seq![StagedFileView { path: "mimetype"@, data: mimetype_bytes() }],
    }
}

impl EpubBuilder<EpubVersion3> {
    /// A builder with nothing in it but the staged `mimetype` file.
    pub fn new() -> (r: Result<Self, EpubError>)
        ensures
            r matches Ok(builder) && builder@ == fresh_builder(),
    {
        let mut staged: Vec<StagedFile> = Vec::new();
        let mimetype = "application/epub+zip";
        staged.push(
            StagedFile { path: owned("mimetype"), data: vstd::slice::slice_to_vec(mimetype.as_bytes()) },
        );
        let builder = EpubBuilder {
            epub_version: PhantomData,
            rootfiles: Vec::new(),
            metadata: Vec::new(),
            manifest: Manifest::new(),
            spine: Vec::new(),
            catalog_title: String::new(),
            catalog: Vec::new(),
            staged,
        };
        proof {
            lemma_nav_views(builder.catalog);
            assert(builder@.rootfiles =~= Seq::empty());
            assert(builder@.metadata =~= Seq::empty());
            assert(builder@.spine =~= Seq::empty());
            assert(builder@.catalog =~= Seq::empty());
            assert(builder@.staged =~= fresh_builder().staged);
        }
        Ok(builder)
    }

    /// Adds the path of a package document.
    pub fn add_rootfile(&mut self, rootfile: &str) -> (ret: &mut Self)
        ensures
            ret@ == (EpubBuilderView {
                rootfiles: old(self)@.rootfiles.push(rootfile@),
                ..old(self)@
            }),
            *final(self) == *final(ret),
    {
        self.rootfiles.push(owned(rootfile));
        assert(self.rootfiles.deep_view() =~= old(self).rootfiles.deep_view().push(rootfile@));
        self
    }

    /// Adds a metadata entry.
    pub fn add_metadata(&mut self, item: MetadataItem) -> (ret: &mut Self)
        ensures
            ret@ == (EpubBuilderView { metadata: old(self)@.metadata.push(item@), ..old(self)@ }),
            *final(self) == *final(ret),
    {
        self.metadata.push(item);
        assert(self.metadata.deep_view() =~= old(self).metadata.deep_view().push(item@));
        self
    }

    /// Adds an entry at the end of the spine.
    pub fn add_spine(&mut self, item: SpineItem) -> (ret: &mut Self)
        ensures
            ret@ == (EpubBuilderView { spine: old(self)@.spine.push(item@), ..old(self)@ }),
            *final(self) == *final(ret),
    {
        self.spine.push(item);
        assert(self.spine.deep_view() =~= old(self).spine.deep_view().push(item@));
        self
    }

    /// Sets the title of the table of contents.
    pub fn set_catalog_title(&mut self, title: &str) -> (ret: &mut Self)
        ensures
            ret@ == (EpubBuilderView { catalog_title: title@, ..old(self)@ }),
            *final(self) == *final(ret),
    {
        self.catalog_title = owned(title);
        self
    }

    /// Adds an entry at the end of the table of contents.
    pub fn add_catalog_item(&mut self, item: NavPoint) -> (ret: &mut Self)
        ensures
            ret@ == (EpubBuilderView { catalog: old(self)@.catalog.push(item@), ..old(self)@ }),
            *final(self) == *final(ret),
    {
        proof {
            lemma_nav_views(self.catalog);
        }
        self.catalog.push(item);
        proof {
            lemma_nav_views(self.catalog);
            assert(self.catalog.deep_view() =~= old(self).catalog.deep_view().push(item@));
        }
        self
    }

    /// Replaces the table of contents.
    pub fn set_catalog(&mut self, catalog: Vec<NavPoint>) -> (ret: &mut Self)
        ensures
            ret@ == (EpubBuilderView { catalog: catalog.deep_view(), ..old(self)@ }),
            *final(self) == *final(ret),
    {
        self.catalog = catalog;
        self
    }
}

/// `text` in lower case, as `str::to_lowercase` gives it.
pub uninterp spec fn lowercased(text: Seq<char>) -> Seq<char>;

/// Calls `str::to_lowercase`.
#[verifier::external_body]
fn lowercase(text: &str) -> (r: String)
    ensures
        r@ == lowercased(text@),
{
    text.to_lowercase()
}

/// Reads the clock with `SystemTime::now`, takes the time since 1970 as a
/// `chrono::DateTime` and writes it as RFC 3339 with `Z` for the offset.
/// Nothing is claimed of the text. A clock that stands before 1970, or
/// beyond the dates that `chrono` holds, is a failure of the system.
#[verifier::external_body]
fn modified_now() -> (text: Result<String, std::io::Error>) {
    let now = std::time::SystemTime::now();
    let since = now.duration_since(std::time::UNIX_EPOCH).map_err(std::io::Error::other)?;
    let seconds = i64::try_from(since.as_secs()).map_err(std::io::Error::other)?;
    let at = chrono::DateTime::from_timestamp(seconds, since.subsec_nanos());
    let at = at.ok_or(std::io::ErrorKind::InvalidData)?;
    Ok(at.to_rfc3339_opts(chrono::SecondsFormat::AutoSi, true))
}

/// The media type of a file, refined by its extension: content that was
/// told only as XML, ZIP or plain text is what the extension says.
pub open spec fn refined_mime(infer_mime: Seq<char>, extension: Seq<char>) -> Seq<char> {
    let xml = infer_mime == "text/xml"@ || infer_mime == "application/xml"@;
    let plain = infer_mime == "text/plain"@;
    if xml && (extension == "xhtml"@ || extension == "xht"@) {
        "application/xhtml+xml"@
    } else if xml && extension == "opf"@ {
        "application/oebps-package+xml"@
    } else if xml && extension == "ncx"@ {
        "application/x-dtbncx+xml"@
    } else if infer_mime == "application/zip"@ && extension == "epub"@ {
        "application/epub+zip"@
    } else if plain && extension == "css"@ {
        "text/css"@
    } else if plain && extension == "js"@ {
        "application/javascript"@
    } else if plain && extension == "json"@ {
        "application/json"@
    } else if plain && extension == "svg"@ {
        "image/svg+xml"@
    } else {
        infer_mime
    }
}

/// Refines the media type that was told from the content of a file by the
/// extension of the file.
pub fn refine_mime_type(infer_mime: &str, extension: &str) -> (r: String)
    ensures
        r@ == refined_mime(infer_mime@, extension@),
{
    let xml = str_eq(infer_mime, "text/xml") || str_eq(infer_mime, "application/xml");
    let plain = str_eq(infer_mime, "text/plain");
    if xml && (str_eq(extension, "xhtml") || str_eq(extension, "xht")) {
        owned("application/xhtml+xml")
    } else if xml && str_eq(extension, "opf") {
        owned("application/oebps-package+xml")
    } else if xml && str_eq(extension, "ncx") {
        owned("application/x-dtbncx+xml")
    } else if str_eq(infer_mime, "application/zip") && str_eq(extension, "epub") {
        owned("application/epub+zip")
    } else if plain && str_eq(extension, "css") {
        owned("text/css")
    } else if plain && str_eq(extension, "js") {
        owned("application/javascript")
    } else if plain && str_eq(extension, "json") {
        owned("application/json")
    } else if plain && str_eq(extension, "svg") {
        owned("image/svg+xml")
    } else {
        owned(infer_mime)
    }
}

/// The extension of the file at `path`: what stands behind the last dot of
/// its name. A name without dot, or with a dot only at its start, has none.
pub open spec fn extension_of(path: Seq<char>) -> Seq<char> {
    let name = crate::text::pieces(path, crate::text::Delim::Char('/')).last();
    let parts = crate::text::pieces(name, crate::text::Delim::Char('.'));
    if parts.len() < 2 || (parts.len() == 2 && parts[0].len() == 0) {
        Seq::empty()
    } else {
        parts.last()
    }
}

/// The extension of the file at `path`.
pub fn file_extension(path: &str) -> (r: String)
    ensures
        r@ == extension_of(path@),
{
    let names = crate::text::split(path, &crate::text::Delim::Char('/'));
    let name = &names[names.len() - 1];
    let parts = crate::text::split(name.as_str(), &crate::text::Delim::Char('.'));
    if parts.len() < 2 || (parts.len() == 2 && parts[0].as_str().unicode_len() == 0) {
        String::new()
    } else {
        parts[parts.len() - 1].clone()
    }
}

/// `staged` with `file` in the place of the first file that has its path,
/// or at the end if there is none.
pub open spec fn staged_with(staged: Seq<StagedFileView>, file: StagedFileView) -> Seq<
    StagedFileView,
>
    decreases staged.len(),
{
    if staged.len() == 0 {
        seq![file]
    } else if staged[0].path == file.path {
        seq![file] + staged.drop_first()
    } else {
        seq![staged[0]] + staged_with(staged.drop_first(), file)
    }
}

/// Where no file before `at` has the path of `file`, staging `file` changes
/// the file at `at` if that one has the path, and adds `file` at the end if
/// `at` is the end.
pub proof fn lemma_staged_with(staged: Seq<StagedFileView>, file: StagedFileView, at: int)
    requires
        0 <= at <= staged.len(),
        forall|j: int| 0 <= j < at ==> staged[j].path != file.path,
        at < staged.len() ==> staged[at].path == file.path,
    ensures
        at < staged.len() ==> staged_with(staged, file) == staged.update(at, file),
        at == staged.len() ==> staged_with(staged, file) == staged.push(file),
    decreases staged.len(),
{
    if staged.len() == 0 {
        assert(seq![file] =~= staged.push(file));
    } else if at == 0 {
        assert(seq![file] + staged.drop_first() =~= staged.update(0, file));
    } else {
        lemma_staged_with(staged.drop_first(), file, at - 1);
        if at < staged.len() {
            assert(seq![staged[0]] + staged.drop_first().update(at - 1, file) =~= staged.update(
                at,
                file,
            ));
        } else {
            assert(seq![staged[0]] + staged.drop_first().push(file) =~= staged.push(file));
        }
    }
}

/// Stages `data` under `path`, in place of what was staged there.
pub fn stage_file(staged: &mut Vec<StagedFile>, path: String, data: Vec<u8>)
    ensures
        final(staged).deep_view() == staged_with(
            old(staged).deep_view(),
            StagedFileView { path: path@, data: data@ },
        ),
{
    let ghost file = StagedFileView { path: path@, data: data@ };
    let mut i: usize = 0;
    while i < staged.len()
        invariant
            i <= staged.len(),
            *staged == *old(staged),
            file == (StagedFileView { path: path@, data: data@ }),
            forall|j: int| 0 <= j < i ==> staged.deep_view()[j].path != path@,
        decreases staged.len() - i,
    {
        if str_eq(staged[i].path.as_str(), path.as_str()) {
            proof {
                lemma_staged_with(staged.deep_view(), file, i as int);
            }
            let ghost before = staged.deep_view();
            staged.remove(i);
            staged.insert(i, StagedFile { path, data });
            assert(staged.deep_view() =~= before.update(i as int, file));
            return ;
        }
        i += 1;
    }
    proof {
        lemma_staged_with(staged.deep_view(), file, i as int);
    }
    let ghost before = staged.deep_view();
    staged.push(StagedFile { path, data });
    assert(staged.deep_view() =~= before.push(file));
}

/// The builder after a resource was added: the entry is in the manifest
/// with the media type told from the content and refined by the extension
/// of the source, and the content is staged where the entry's path leads
/// from the directory of the first rootfile.
pub open spec fn with_resource(
    before: EpubBuilderView,
    source: Seq<char>,
    content: Seq<u8>,
    item: ManifestItemView,
) -> Result<EpubBuilderView, Fault> {
    if before.rootfiles.len() == 0 {
        Err(Fault::EpubBuilderError { source: BuilderFault::MissingRootfile })
    } else {
        match sniffed_mime(content) {
            None => Err(
                Fault::EpubBuilderError {
                    source: BuilderFault::UnknownFileFormat { file_path: source },
                },
            ),
            Some(mime) => match resolved(parent_of(before.rootfiles[0]), item.path) {
                None => Err(Fault::RealtiveLinkLeakage { path: item.path }),
                Some(target) => Ok(
                    EpubBuilderView {
                        manifest: with_item(
                            before.manifest,
                            ManifestItemView {
                                mime: refined_mime(mime, lowercased(extension_of(source))),
                                ..item
                            },
                        ),
                        staged: staged_with(
                            before.staged,
                            StagedFileView { path: target, data: content },
                        ),
                        ..before
                    },
                ),
            },
        }
    }
}

/// The builder without the resource that has the id `id`: the manifest
/// loses the entry, and the staged files lose the one that the path of the
/// entry leads to from the directory of the first rootfile. An id that the
/// manifest does not hold changes nothing.
pub open spec fn without_resource(before: EpubBuilderView, id: Seq<char>) -> EpubBuilderView {
    match find_item(before.manifest, id) {
        None => before,
        Some(item) => EpubBuilderView {
            manifest: before.manifest.filter(|entry: ManifestItemView| entry.id != id),
            staged: match resolved(package_dir(before.rootfiles), item.path) {
                Some(target) => before.staged.filter(|file: StagedFileView| file.path != target),
                None => before.staged,
            },
            ..before
        },
    }
}

/// Whether the metadata holds what every publication must have: a title, a
/// language, and an identifier with the id `pub-id`.
pub open spec fn complete_metadata(metadata: Seq<MetadataItemView>) -> bool {
    &&& exists|i: int| 0 <= i < metadata.len() && (#[trigger] metadata[i]).property == "title"@
    &&& exists|i: int| 0 <= i < metadata.len() && (#[trigger] metadata[i]).property == "language"@
    &&& exists|i: int|
        0 <= i < metadata.len() && (#[trigger] metadata[i]).property == "identifier"@
            && metadata[i].id == Some("pub-id"@)
}

/// What checking one fallback chain ends in, as the builder reports it.
pub open spec fn chain_check(items: Seq<ManifestItemView>, id: Seq<char>, visited: Seq<Seq<char>>) -> Result<
    Seq<Seq<char>>,
    Fault,
> {
    match chain_outcome(items, id, visited) {
        ChainOutcome::Valid(chain) => Ok(chain),
        ChainOutcome::Circular(chain) => Err(
            Fault::EpubBuilderError {
                source: BuilderFault::ManifestCircularReference {
                    fallback_chain: chain_text(chain),
                },
            },
        ),
        ChainOutcome::Missing(missing, _) => Err(
            Fault::EpubBuilderError {
                source: BuilderFault::ManifestNotFound { manifest_id: missing },
            },
        ),
    }
}

/// The failure of the first of the first `upto` entries whose fallback
/// chain is refused.
pub open spec fn first_chain_fault(items: Seq<ManifestItemView>, upto: int) -> Option<Fault>
    decreases upto,
{
    if upto <= 0 || upto > items.len() {
        None
    } else {
        match first_chain_fault(items, upto - 1) {
            Some(fault) => Some(fault),
            None => if items[upto - 1].fallback is None {
                None
            } else {
                match chain_check(items, items[upto - 1].id, Seq::empty()) {
                    Ok(_) => None,
                    Err(fault) => Some(fault),
                }
            },
        }
    }
}

/// A failure among the first entries stays the first failure.
pub proof fn lemma_first_chain_fault(items: Seq<ManifestItemView>, k: int, upto: int)
    requires
        0 <= k <= upto <= items.len(),
        first_chain_fault(items, k) is Some,
    ensures
        first_chain_fault(items, upto) == first_chain_fault(items, k),
    decreases upto - k,
{
    if k < upto {
        lemma_first_chain_fault(items, k, upto - 1);
    }
}

/// How many entries carry the `nav` property.
pub open spec fn nav_count(items: Seq<ManifestItemView>) -> nat {
    items.filter(|item: ManifestItemView| has_nav_property(item)).len()
}

impl EpubBuilder<EpubVersion3> {
    /// Takes the last rootfile away, if there is one.
    pub fn remove_last_rootfile(&mut self) -> (ret: &mut Self)
        ensures
            ret@ == (EpubBuilderView {
                rootfiles: if old(self)@.rootfiles.len() > 0 {
                    old(self)@.rootfiles.drop_last()
                } else {
                    old(self)@.rootfiles
                },
                ..old(self)@
            }),
            *final(self) == *final(ret),
    {
        self.rootfiles.pop();
        proof {
            if old(self)@.rootfiles.len() > 0 {
                assert(self.rootfiles.deep_view() =~= old(self)@.rootfiles.drop_last());
            }
        }
        self
    }

    /// Takes all rootfiles away.
    pub fn clear_rootfiles(&mut self) -> (ret: &mut Self)
        ensures
            ret@ == (EpubBuilderView { rootfiles: Seq::empty(), ..old(self)@ }),
            *final(self) == *final(ret),
    {
        self.rootfiles.clear();
        assert(self.rootfiles.deep_view() =~= Seq::<Seq<char>>::empty());
        self
    }

    /// Takes the last metadata entry away, if there is one.
    pub fn remove_last_metadata(&mut self) -> (ret: &mut Self)
        ensures
            ret@ == (EpubBuilderView {
                metadata: if old(self)@.metadata.len() > 0 {
                    old(self)@.metadata.drop_last()
                } else {
                    old(self)@.metadata
                },
                ..old(self)@
            }),
            *final(self) == *final(ret),
    {
        self.metadata.pop();
        proof {
            if old(self)@.metadata.len() > 0 {
                assert(self.metadata.deep_view() =~= old(self)@.metadata.drop_last());
            }
        }
        self
    }

    /// Takes all metadata entries away.
    pub fn clear_metadata(&mut self) -> (ret: &mut Self)
        ensures
            ret@ == (EpubBuilderView { metadata: Seq::empty(), ..old(self)@ }),
            *final(self) == *final(ret),
    {
        self.metadata.clear();
        assert(self.metadata.deep_view() =~= Seq::<MetadataItemView>::empty());
        self
    }

    /// Takes the last spine entry away, if there is one.
    pub fn remove_last_spine(&mut self) -> (ret: &mut Self)
        ensures
            ret@ == (EpubBuilderView {
                spine: if old(self)@.spine.len() > 0 {
                    old(self)@.spine.drop_last()
                } else {
                    old(self)@.spine
                },
                ..old(self)@
            }),
            *final(self) == *final(ret),
    {
        self.spine.pop();
        proof {
            if old(self)@.spine.len() > 0 {
                assert(self.spine.deep_view() =~= old(self)@.spine.drop_last());
            }
        }
        self
    }

    /// Takes all spine entries away.
    pub fn clear_spine(&mut self) -> (ret: &mut Self)
        ensures
            ret@ == (EpubBuilderView { spine: Seq::empty(), ..old(self)@ }),
            *final(self) == *final(ret),
    {
        self.spine.clear();
        assert(self.spine.deep_view() =~= Seq::<SpineItemView>::empty());
        self
    }

    /// Takes the table of contents and its title away.
    pub fn clear_catalog(&mut self) -> (ret: &mut Self)
        ensures
            ret@ == (EpubBuilderView {
                catalog: Seq::empty(),
                catalog_title: Seq::empty(),
                ..old(self)@
            }),
            *final(self) == *final(ret),
    {
        self.catalog.clear();
        self.catalog_title = String::new();
        proof {
            lemma_nav_views(self.catalog);
            assert(self.catalog.deep_view() =~= Seq::<NavPointView>::empty());
        }
        self
    }

    /// Takes all manifest entries away, and with them everything that was
    /// staged: only the `mimetype` file stays.
    pub fn clear_manifest(&mut self) -> (ret: &mut Self)
        ensures
            ret@ == (EpubBuilderView {
                manifest: Seq::empty(),
                staged: fresh_builder().staged,
                ..old(self)@
            }),
            *final(self) == *final(ret),
    {
        self.manifest = Manifest::new();
        let mut staged: Vec<StagedFile> = Vec::new();
        let mimetype = "application/epub+zip";
        staged.push(
            StagedFile { path: owned("mimetype"), data: vstd::slice::slice_to_vec(mimetype.as_bytes()) },
        );
        assert(staged.deep_view() =~= fresh_builder().staged);
        self.staged = staged;
        self
    }

    /// Takes away the manifest entry with the id `id`, and what was staged
    /// where its path leads. An id that the manifest does not hold changes
    /// nothing.
    pub fn remove_manifest(&mut self, id: &str) -> (ret: &mut Self)
        ensures
            ret@ == without_resource(old(self)@, id@),
            *final(self) == *final(ret),
    {
        let target = match self.manifest.get(id) {
            None => {
                return self;
            },
            Some(item) => {
                let base = if self.rootfiles.len() == 0 {
                    String::new()
                } else {
                    parent_dir(self.rootfiles[0].as_str())
                };
                match normalize_manifest_path(base.as_str(), item.path.as_str()) {
                    Ok(target) => Some(target),
                    Err(_) => None,
                }
            },
        };
        let ghost wanted = |item: ManifestItemView| item.id != id@;
        let ghost items = self@.manifest;
        let mut kept = Manifest::new();
        proof {
            assert(items.take(0) =~= Seq::<ManifestItemView>::empty());
        }
        let mut i: usize = 0;
        while i < self.manifest.items.len()
            invariant
                i <= self.manifest.items.len(),
                *self == *old(self),
                items == self@.manifest,
                wanted == |item: ManifestItemView| item.id != id@,
                kept@ == items.take(i as int).filter(wanted),
            decreases self.manifest.items.len() - i,
        {
            let ghost before = kept@;
            proof {
                assert(items.take(i + 1) =~= items.take(i as int).push(items[i as int]));
                items.take(i as int).lemma_filter_push(items[i as int], wanted);
            }
            if !str_eq(self.manifest.items[i].id.as_str(), id) {
                let copy = self.manifest.items[i].clone();
                kept.items.push(copy);
                assert(kept@ =~= before.push(items[i as int]));
            }
            i += 1;
        }
        proof {
            assert(items.take(i as int) =~= items);
        }
        self.manifest = kept;
        if let Some(target) = target {
            let ghost others = |file: StagedFileView| file.path != target@;
            let ghost files = self@.staged;
            let mut left: Vec<StagedFile> = Vec::new();
            proof {
                assert(files.take(0) =~= Seq::<StagedFileView>::empty());
                assert(left.deep_view() =~= Seq::<StagedFileView>::empty());
            }
            let mut k: usize = 0;
            while k < self.staged.len()
                invariant
                    k <= self.staged.len(),
                    files == self@.staged,
                    self@ == (EpubBuilderView {
                        manifest: old(self)@.manifest.filter(wanted),
                        ..old(self)@
                    }),
                    others == |file: StagedFileView| file.path != target@,
                    left.deep_view() == files.take(k as int).filter(others),
                decreases self.staged.len() - k,
            {
                let ghost before = left.deep_view();
                proof {
                    assert(files.take(k + 1) =~= files.take(k as int).push(files[k as int]));
                    files.take(k as int).lemma_filter_push(files[k as int], others);
                }
                if !str_eq(self.staged[k].path.as_str(), target.as_str()) {
                    let copy = StagedFile {
                        path: self.staged[k].path.clone(),
                        data: self.staged[k].data.clone(),
                    };
                    left.push(copy);
                    assert(left.deep_view() =~= before.push(files[k as int]));
                }
                k += 1;
            }
            proof {
                assert(files.take(k as int) =~= files);
            }
            self.staged = left;
        }
        self
    }

    /// Takes the last entry of the table of contents away, if there is
    /// one.
    pub fn remove_last_catalog_item(&mut self) -> (ret: &mut Self)
        ensures
            ret@ == (EpubBuilderView {
                catalog: if old(self)@.catalog.len() > 0 {
                    old(self)@.catalog.drop_last()
                } else {
                    old(self)@.catalog
                },
                ..old(self)@
            }),
            *final(self) == *final(ret),
    {
        proof {
            lemma_nav_views(self.catalog);
        }
        self.catalog.pop();
        proof {
            lemma_nav_views(self.catalog);
            if old(self)@.catalog.len() > 0 {
                assert(self.catalog.deep_view() =~= old(self)@.catalog.drop_last());
            }
        }
        self
    }

    /// Adds a resource: the manifest entry `manifest_item`, with the bytes
    /// `content` that were read from the file at `manifest_source`.
    ///
    /// The resource is refused where no rootfile was added yet, where the
    /// kind of the content cannot be told, and where the path of the entry
    /// leaves the container.
    pub fn add_manifest(
        &mut self,
        manifest_source: &str,
        content: Vec<u8>,
        manifest_item: ManifestItem,
    ) -> (r: Result<(), EpubError>)
        ensures
            match with_resource(old(self)@, manifest_source@, content@, manifest_item@) {
                Ok(after) => r is Ok && final(self)@ == after,
                Err(fault) => r matches Err(e) && e@ == fault && final(self)@ == old(self)@,
            },
    {
        if self.rootfiles.len() == 0 {
            return Err(EpubError::EpubBuilderError { source: EpubBuilderError::MissingRootfile });
        }
        let extension = lowercase(file_extension(manifest_source).as_str());
        let real_mime = match sniff(content.as_slice()) {
            Some((infer_mime, _)) => refine_mime_type(infer_mime.as_str(), extension.as_str()),
            None => {
                return Err(
                    EpubError::EpubBuilderError {
                        source: EpubBuilderError::UnknownFileFormat {
                            file_path: owned(manifest_source),
                        },
                    },
                );
            },
        };
        let base = parent_dir(self.rootfiles[0].as_str());
        let target = match normalize_manifest_path(base.as_str(), manifest_item.path.as_str()) {
            Ok(target) => target,
            Err(e) => {
                return Err(e);
            },
        };
        stage_file(&mut self.staged, target, content);
        self.manifest.insert(manifest_item.set_mime(real_mime.as_str()));
        Ok(())
    }

    /// Whether the metadata holds a title, a language, and an identifier
    /// with the id `pub-id`.
    pub fn validate_metadata(&self) -> (r: bool)
        ensures
            r == complete_metadata(self@.metadata),
    {
        let mut has_title = false;
        let mut has_language = false;
        let mut has_identifier = false;
        let ghost metadata = self.metadata.deep_view();
        let mut i: usize = 0;
        while i < self.metadata.len()
            invariant
                i <= self.metadata.len(),
                metadata == self.metadata.deep_view(),
                has_title == exists|j: int|
                    0 <= j < i && (#[trigger] metadata[j]).property == "title"@,
                has_language == exists|j: int|
                    0 <= j < i && (#[trigger] metadata[j]).property == "language"@,
                has_identifier == exists|j: int|
                    0 <= j < i && (#[trigger] metadata[j]).property == "identifier"@
                        && metadata[j].id == Some("pub-id"@),
            decreases self.metadata.len() - i,
        {
            let item = &self.metadata[i];
            assert(item@ == metadata[i as int]);
            if str_eq(item.property.as_str(), "title") {
                has_title = true;
            }
            if str_eq(item.property.as_str(), "language") {
                has_language = true;
            }
            if str_eq(item.property.as_str(), "identifier") {
                if let Some(id) = &item.id {
                    if str_eq(id.as_str(), "pub-id") {
                        has_identifier = true;
                    }
                }
            }
            i += 1;
        }
        has_title && has_identifier && has_language
    }

    /// Walks the fallback chain that starts at `manifest_id`, adding to
    /// `fallback_chain` the ids that it passes. A chain that comes back to
    /// an id, or leads to an id that the manifest does not hold, is an
    /// error; `fallback_chain` then holds the ids up to where the walk was
    /// refused, an id that comes back once more at the end.
    pub fn validate_fallback_chain(&self, manifest_id: &str, fallback_chain: &mut Vec<String>) -> (r:
        Result<(), EpubError>)
        ensures
            match chain_check(self@.manifest, manifest_id@, old(fallback_chain).deep_view()) {
                Ok(chain) => r is Ok && final(fallback_chain).deep_view() == chain,
                Err(fault) => r matches Err(e) && e@ == fault,
            },
            final(fallback_chain).deep_view() == crate::fallback::walked(
                chain_outcome(self@.manifest, manifest_id@, old(fallback_chain).deep_view()),
            ),
    {
        match check_fallback_chain(&self.manifest, manifest_id, fallback_chain) {
            Ok(()) => Ok(()),
            Err(ChainFault::Circular) => Err(
                EpubError::EpubBuilderError {
                    source: EpubBuilderError::ManifestCircularReference {
                        fallback_chain: chain_message(fallback_chain),
                    },
                },
            ),
            Err(ChainFault::Missing(missing)) => Err(
                EpubError::EpubBuilderError {
                    source: EpubBuilderError::ManifestNotFound { manifest_id: missing },
                },
            ),
        }
    }

    /// Checks the fallback chain of every entry that has a fallback. The
    /// first chain that is refused fails the check.
    pub fn validate_manifest_fallback_chains(&self) -> (r: Result<(), EpubError>)
        ensures
            match first_chain_fault(self@.manifest, self@.manifest.len() as int) {
                None => r is Ok,
                Some(fault) => r matches Err(e) && e@ == fault,
            },
    {
        let mut i: usize = 0;
        while i < self.manifest.items.len()
            invariant
                i <= self.manifest.items.len(),
                first_chain_fault(self@.manifest, i as int) is None,
            decreases self.manifest.items.len() - i,
        {
            let item = &self.manifest.items[i];
            assert(item@ == self@.manifest[i as int]);
            if item.fallback.is_some() {
                let mut fallback_chain: Vec<String> = Vec::new();
                assert(fallback_chain.deep_view() =~= Seq::<Seq<char>>::empty());
                match self.validate_fallback_chain(item.id.as_str(), &mut fallback_chain) {
                    Ok(()) => {},
                    Err(e) => {
                        proof {
                            lemma_first_chain_fault(
                                self@.manifest,
                                i + 1,
                                self@.manifest.len() as int,
                            );
                        }
                        return Err(e);
                    },
                }
            }
            i += 1;
        }
        Ok(())
    }

    /// Checks that exactly one entry of the manifest carries the `nav`
    /// property.
    pub fn validate_manifest_nav(&self) -> (r: Result<(), EpubError>)
        ensures
            nav_count(self@.manifest) == 1 ==> r is Ok,
            nav_count(self@.manifest) != 1 ==> (r matches Err(e) && e@ == (
            Fault::EpubBuilderError { source: BuilderFault::TooManyNavFlags })),
    {
        let ghost wanted = |item: ManifestItemView| has_nav_property(item);
        let ghost items = self@.manifest;
        let mut count: usize = 0;
        let mut i: usize = 0;
        proof {
            assert(items.take(0) =~= Seq::<ManifestItemView>::empty());
        }
        while i < self.manifest.items.len()
            invariant
                i <= self.manifest.items.len(),
                items == self@.manifest,
                wanted == |item: ManifestItemView| has_nav_property(item),
                count == items.take(i as int).filter(wanted).len(),
                count <= i,
            decreases self.manifest.items.len() - i,
        {
            proof {
                assert(items.take(i + 1) =~= items.take(i as int).push(items[i as int]));
                items.take(i as int).lemma_filter_push(items[i as int], wanted);
            }
            if is_nav_item(&self.manifest.items[i]) {
                count += 1;
            }
            i += 1;
        }
        proof {
            assert(items.take(i as int) =~= items);
        }
        if count == 1 {
            Ok(())
        } else {
            Err(EpubError::EpubBuilderError { source: EpubBuilderError::TooManyNavFlags })
        }
    }
}

/// The `rootfile` elements of the container document.
pub open spec fn rootfile_pieces(rootfiles: Seq<Seq<char>>) -> Seq<XmlPieceView>
    decreases rootfiles.len(),
{
    if rootfiles.len() == 0 {
        Seq::empty()
    } else {
        rootfile_pieces(rootfiles.drop_last()).push(
            empty_of(
                "rootfile"@,
                seq![
                    ("full-path"@, rootfiles.last()),
                    ("media-type"@, "application/oebps-package+xml"@),
                ],
            ),
        )
    }
}

/// The container document that names `rootfiles`.
pub open spec fn container_document(rootfiles: Seq<Seq<char>>) -> Seq<XmlPieceView> {
    seq![
        declaration(),
        start_of(
            "container"@,
            seq![
                ("version"@, "1.0"@),
                ("xmlns"@, "urn:oasis:names:tc:opendocument:xmlns:container"@),
            ],
        ),
        start_of("rootfiles"@, Seq::empty()),
    ] + rootfile_pieces(rootfiles) + seq![end_of("rootfiles"@), end_of("container"@)]
}

/// Whether `path` may be the path of a package document: it neither
/// starts at the root nor climbs out of the container.
pub open spec fn legal_rootfile(path: Seq<char>) -> bool {
    !up_step().is_prefix_of(path) && !(path.len() > 0 && path[0] == '/')
}

/// The items of a navigation list that stand for `points`.
pub open spec fn nav_item_pieces(points: Seq<NavPointView>) -> Seq<XmlPieceView>
    decreases points, 0nat,
{
    if points.len() == 0 {
        Seq::empty()
    } else {
        nav_item_pieces(points.drop_last()) + nav_point_pieces(points.last())
    }
}

/// The list item that stands for `point`: a link where the entry leads
/// somewhere, a plain label where it does not, and below it the list of its
/// children if it has any.
pub open spec fn nav_point_pieces(point: NavPointView) -> Seq<XmlPieceView>
    decreases point, 0nat,
{
    seq![start_of("li"@, Seq::empty())] + (match point.content {
        Some(path) => text_element("a"@, seq![("href"@, path)], point.label),
        None => text_element("span"@, Seq::empty(), point.label),
    }) + (if point.children.len() > 0 {
        nav_list_pieces(point.children)
    } else {
        Seq::empty()
    }) + seq![end_of("li"@)]
}

/// The navigation list that stands for `points`.
pub open spec fn nav_list_pieces(points: Seq<NavPointView>) -> Seq<XmlPieceView>
    decreases points, 1nat,
{
    seq![start_of("ol"@, Seq::empty())] + nav_item_pieces(points) + seq![end_of("ol"@)]
}

/// The navigation document for a table of contents with the title `title`.
pub open spec fn navigation_document(title: Seq<char>, catalog: Seq<NavPointView>) -> Seq<
    XmlPieceView,
> {
    seq![
        start_of(
            "html"@,
            seq![
                ("xmlns"@, "http://www.w3.org/1999/xhtml"@),
                ("xmlns:epub"@, "http://www.idpf.org/2007/ops"@),
            ],
        ),
        start_of("head"@, Seq::empty()),
    ] + text_element("title"@, Seq::empty(), title) + seq![
        end_of("head"@),
        start_of("body"@, Seq::empty()),
        start_of("nav"@, seq![("epub:type"@, "toc"@)]),
    ] + (if title.len() > 0 {
        text_element("h1"@, Seq::empty(), title)
    } else {
        Seq::empty()
    }) + nav_list_pieces(catalog) + seq![end_of("nav"@), end_of("body"@), end_of("html"@)]
}

/// The manifest entry of the navigation document.
pub open spec fn nav_entry() -> ManifestItemView {
    ManifestItemView {
        id: "nav"@,
        path: "nav.xhtml"@,
        mime: "application/xhtml+xml"@,
        properties: Some("nav"@),
        fallback: None,
    }
}

/// The elements that stand for the refinements `refined`.
pub open spec fn refinement_pieces(refined: Seq<MetadataRefinementView>) -> Seq<XmlPieceView>
    decreases refined.len(),
{
    if refined.len() == 0 {
        Seq::empty()
    } else {
        refinement_pieces(refined.drop_last()) + text_element(
            "meta"@,
            refined.last().attributes(),
            refined.last().value,
        )
    }
}

/// The name of the element that carries the metadata entry `item`.
pub open spec fn metadata_tag(item: MetadataItemView) -> Seq<char> {
    if is_dc_element(item.property) {
        "dc:"@ + item.property
    } else {
        "meta"@
    }
}

/// The elements that stand for the metadata entries `metadata`: each entry
/// followed by its refinements.
pub open spec fn metadata_pieces(metadata: Seq<MetadataItemView>) -> Seq<XmlPieceView>
    decreases metadata.len(),
{
    if metadata.len() == 0 {
        Seq::empty()
    } else {
        metadata_pieces(metadata.drop_last()) + text_element(
            metadata_tag(metadata.last()),
            metadata.last().attributes(),
            metadata.last().value,
        ) + refinement_pieces(metadata.last().refined)
    }
}

/// The elements that stand for the manifest entries `items`.
pub open spec fn manifest_pieces(items: Seq<ManifestItemView>) -> Seq<XmlPieceView>
    decreases items.len(),
{
    if items.len() == 0 {
        Seq::empty()
    } else {
        manifest_pieces(items.drop_last()).push(empty_of("item"@, items.last().attributes()))
    }
}

/// The elements that stand for the spine entries `spine`.
pub open spec fn spine_pieces(spine: Seq<SpineItemView>) -> Seq<XmlPieceView>
    decreases spine.len(),
{
    if spine.len() == 0 {
        Seq::empty()
    } else {
        spine_pieces(spine.drop_last()).push(empty_of("itemref"@, spine.last().attributes()))
    }
}

/// The metadata entry that tells when the publication was last modified.
pub open spec fn modified_entry(modified: Seq<char>) -> MetadataItemView {
    MetadataItemView {
        id: None,
        property: "dcterms:modified"@,
        value: modified,
        lang: None,
        refined: Seq::empty(),
    }
}

/// The package document of a publication.
pub open spec fn package_document(
    metadata: Seq<MetadataItemView>,
    manifest: Seq<ManifestItemView>,
    spine: Seq<SpineItemView>,
) -> Seq<XmlPieceView> {
    seq![
        declaration(),
        start_of(
            "package"@,
            seq![
                ("xmlns"@, "http://www.idpf.org/2007/opf"@),
                ("xmlns:dc"@, "http://purl.org/dc/elements/1.1/"@),
                ("unique-identifier"@, "pub-id"@),
                ("version"@, "3.0"@),
            ],
        ),
        start_of("metadata"@, Seq::empty()),
    ] + metadata_pieces(metadata) + seq![
        end_of("metadata"@),
        start_of("manifest"@, Seq::empty()),
    ] + manifest_pieces(manifest) + seq![end_of("manifest"@), start_of("spine"@, Seq::empty())]
        + spine_pieces(spine) + seq![end_of("spine"@), end_of("package"@)]
}

/// The pieces of the container document that names `rootfiles`.
pub fn container_pieces(rootfiles: &Vec<String>) -> (r: Vec<XmlPiece>)
    ensures
        r.deep_view() == container_document(rootfiles.deep_view()),
{
    let mut out: Vec<XmlPiece> = Vec::new();
    assert(out.deep_view() =~= Seq::<XmlPieceView>::empty());
    push_piece(&mut out, decl());
    let attributes = vec![
        attribute("version", "1.0"),
        attribute("xmlns", "urn:oasis:names:tc:opendocument:xmlns:container"),
    ];
    assert(attributes.deep_view() =~= seq![
        ("version"@, "1.0"@),
        ("xmlns"@, "urn:oasis:names:tc:opendocument:xmlns:container"@),
    ]);
    push_piece(&mut out, start_with("container", attributes));
    push_piece(&mut out, start("rootfiles"));
    let ghost head = out.deep_view();
    let ghost all = rootfiles.deep_view();
    proof {
        assert(all.take(0) =~= Seq::<Seq<char>>::empty());
        assert(head + Seq::<XmlPieceView>::empty() =~= head);
    }
    let mut i: usize = 0;
    while i < rootfiles.len()
        invariant
            i <= rootfiles.len(),
            all == rootfiles.deep_view(),
            out.deep_view() == head + rootfile_pieces(all.take(i as int)),
        decreases rootfiles.len() - i,
    {
        let attributes = vec![
            attribute("full-path", rootfiles[i].as_str()),
            attribute("media-type", "application/oebps-package+xml"),
        ];
        proof {
            assert(attributes.deep_view() =~= seq![
                ("full-path"@, all[i as int]),
                ("media-type"@, "application/oebps-package+xml"@),
            ]);
            assert(all.take(i + 1).drop_last() =~= all.take(i as int));
            assert(all.take(i + 1).last() == all[i as int]);
        }
        let ghost before = out.deep_view();
        push_piece(&mut out, empty_with("rootfile", attributes));
        proof {
            assert(out.deep_view() =~= head + rootfile_pieces(all.take(i + 1)));
        }
        i += 1;
    }
    proof {
        assert(all.take(i as int) =~= all);
    }
    let ghost body = out.deep_view();
    push_piece(&mut out, end("rootfiles"));
    push_piece(&mut out, end("container"));
    proof {
        assert(out.deep_view() =~= container_document(all));
    }
    out
}

/// Adds to `out` the navigation list that stands for `navgations`.
pub fn make_nav(out: &mut Vec<XmlPiece>, navgations: &Vec<NavPoint>)
    ensures
        final(out).deep_view() == old(out).deep_view() + nav_list_pieces(navgations.deep_view()),
    decreases navgations,
{
    let ghost start_view = out.deep_view();
    let ghost all = navgations.deep_view();
    push_piece(out, start("ol"));
    let ghost head = out.deep_view();
    proof {
        lemma_nav_views(*navgations);
        assert(all.take(0) =~= Seq::<NavPointView>::empty());
        assert(head + Seq::<XmlPieceView>::empty() =~= head);
    }
    let mut i: usize = 0;
    while i < navgations.len()
        invariant
            i <= navgations.len(),
            all == navgations.deep_view(),
            all.len() == navgations.len(),
            forall|j: int| 0 <= j < navgations.len() ==> all[j] == #[trigger] navgations[j]@,
            out.deep_view() == head + nav_item_pieces(all.take(i as int)),
        decreases navgations.len() - i,
    {
        let nav = &navgations[i];
        let ghost before = out.deep_view();
        proof {
            lemma_nav_views(nav.children);
            assert(all.take(i + 1).drop_last() =~= all.take(i as int));
            assert(all.take(i + 1).last() == nav@);
        }
        push_piece(out, start("li"));
        match &nav.content {
            Some(path) => {
                let attributes = vec![attribute("href", path.as_str())];
                assert(attributes.deep_view() =~= seq![("href"@, path@)]);
                push_text_element(out, "a", attributes, nav.label.as_str());
            },
            None => {
                let attributes: Vec<(String, String)> = Vec::new();
                assert(attributes.deep_view() =~= Seq::empty());
                push_text_element(out, "span", attributes, nav.label.as_str());
            },
        }
        if nav.children.len() > 0 {
            make_nav(out, &nav.children);
        }
        push_piece(out, end("li"));
        proof {
            assert(out.deep_view() =~= before + nav_point_pieces(nav@));
            assert(head + nav_item_pieces(all.take(i as int)) + nav_point_pieces(nav@) =~= head + (
            nav_item_pieces(all.take(i as int)) + nav_point_pieces(nav@)));
        }
        i += 1;
    }
    proof {
        assert(all.take(i as int) =~= all);
    }
    push_piece(out, end("ol"));
    proof {
        assert(out.deep_view() =~= start_view + nav_list_pieces(all));
    }
}

/// The pieces of the navigation document.
pub fn navigation_pieces(title: &str, catalog: &Vec<NavPoint>) -> (r: Vec<XmlPiece>)
    ensures
        r.deep_view() == navigation_document(title@, catalog.deep_view()),
{
    let mut out: Vec<XmlPiece> = Vec::new();
    assert(out.deep_view() =~= Seq::<XmlPieceView>::empty());
    let attributes = vec![
        attribute("xmlns", "http://www.w3.org/1999/xhtml"),
        attribute("xmlns:epub", "http://www.idpf.org/2007/ops"),
    ];
    assert(attributes.deep_view() =~= seq![
        ("xmlns"@, "http://www.w3.org/1999/xhtml"@),
        ("xmlns:epub"@, "http://www.idpf.org/2007/ops"@),
    ]);
    push_piece(&mut out, start_with("html", attributes));
    push_piece(&mut out, start("head"));
    let none: Vec<(String, String)> = Vec::new();
    assert(none.deep_view() =~= Seq::empty());
    push_text_element(&mut out, "title", none, title);
    push_piece(&mut out, end("head"));
    push_piece(&mut out, start("body"));
    let attributes = vec![attribute("epub:type", "toc")];
    assert(attributes.deep_view() =~= seq![("epub:type"@, "toc"@)]);
    push_piece(&mut out, start_with("nav", attributes));
    if title.unicode_len() > 0 {
        let none: Vec<(String, String)> = Vec::new();
        assert(none.deep_view() =~= Seq::empty());
        push_text_element(&mut out, "h1", none, title);
    }
    make_nav(&mut out, catalog);
    push_piece(&mut out, end("nav"));
    push_piece(&mut out, end("body"));
    push_piece(&mut out, end("html"));
    proof {
        assert(out.deep_view() =~= navigation_document(title@, catalog.deep_view()));
    }
    out
}

/// Adds to `out` the elements that stand for `metadata`.
pub fn make_opf_metadata(out: &mut Vec<XmlPiece>, metadata: &Vec<MetadataItem>)
    ensures
        final(out).deep_view() == old(out).deep_view() + metadata_pieces(metadata.deep_view()),
{
    let ghost head = out.deep_view();
    let ghost all = metadata.deep_view();
    proof {
        assert(all.take(0) =~= Seq::<MetadataItemView>::empty());
        assert(head + Seq::<XmlPieceView>::empty() =~= head);
    }
    let mut i: usize = 0;
    while i < metadata.len()
        invariant
            i <= metadata.len(),
            all == metadata.deep_view(),
            out.deep_view() == head + metadata_pieces(all.take(i as int)),
        decreases metadata.len() - i,
    {
        let item = &metadata[i];
        let ghost before = out.deep_view();
        proof {
            assert(all.take(i + 1).drop_last() =~= all.take(i as int));
            assert(all.take(i + 1).last() == item@);
        }
        let tag_name = if element_in_dc_namespace(item.property.as_str()) {
            concat2("dc:", item.property.as_str())
        } else {
            owned("meta")
        };
        let attributes = owned_attributes(&item.attributes());
        push_text_element(out, tag_name.as_str(), attributes, item.value.as_str());
        let ghost own = out.deep_view();
        let ghost refined = item@.refined;
        proof {
            assert(refined.take(0) =~= Seq::<MetadataRefinementView>::empty());
            assert(own + Seq::<XmlPieceView>::empty() =~= own);
        }
        let mut k: usize = 0;
        while k < item.refined.len()
            invariant
                k <= item.refined.len(),
                refined == item.refined.deep_view(),
                out.deep_view() == own + refinement_pieces(refined.take(k as int)),
            decreases item.refined.len() - k,
        {
            let refinement = &item.refined[k];
            proof {
                assert(refined.take(k + 1).drop_last() =~= refined.take(k as int));
                assert(refined.take(k + 1).last() == refinement@);
            }
            let attributes = owned_attributes(&refinement.attributes());
            push_text_element(out, "meta", attributes, refinement.value.as_str());
            proof {
                assert(own + refinement_pieces(refined.take(k as int)) + text_element(
                    "meta"@,
                    refinement@.attributes(),
                    refinement@.value,
                ) =~= own + refinement_pieces(refined.take(k + 1)));
            }
            k += 1;
        }
        proof {
            assert(refined.take(k as int) =~= refined);
            assert(before + text_element(metadata_tag(item@), item@.attributes(), item@.value)
                + refinement_pieces(refined) =~= head + metadata_pieces(all.take(i + 1)));
        }
        i += 1;
    }
    proof {
        assert(all.take(i as int) =~= all);
    }
}

/// Adds to `out` the elements that stand for the manifest entries.
pub fn make_opf_manifest(out: &mut Vec<XmlPiece>, manifest: &Manifest)
    ensures
        final(out).deep_view() == old(out).deep_view() + manifest_pieces(manifest@),
{
    let ghost head = out.deep_view();
    let ghost all = manifest@;
    proof {
        assert(all.take(0) =~= Seq::<ManifestItemView>::empty());
        assert(head + Seq::<XmlPieceView>::empty() =~= head);
    }
    let mut i: usize = 0;
    while i < manifest.items.len()
        invariant
            i <= manifest.items.len(),
            all == manifest@,
            out.deep_view() == head + manifest_pieces(all.take(i as int)),
        decreases manifest.items.len() - i,
    {
        let item = &manifest.items[i];
        proof {
            assert(all.take(i + 1).drop_last() =~= all.take(i as int));
            assert(all.take(i + 1).last() == item@);
        }
        let attributes = owned_attributes(&item.attributes());
        push_piece(out, empty_with("item", attributes));
        proof {
            assert(out.deep_view() =~= head + manifest_pieces(all.take(i + 1)));
        }
        i += 1;
    }
    proof {
        assert(all.take(i as int) =~= all);
    }
}

/// Adds to `out` the elements that stand for the spine entries.
pub fn make_opf_spine(out: &mut Vec<XmlPiece>, spine: &Vec<SpineItem>)
    ensures
        final(out).deep_view() == old(out).deep_view() + spine_pieces(spine.deep_view()),
{
    let ghost head = out.deep_view();
    let ghost all = spine.deep_view();
    proof {
        assert(all.take(0) =~= Seq::<SpineItemView>::empty());
        assert(head + Seq::<XmlPieceView>::empty() =~= head);
    }
    let mut i: usize = 0;
    while i < spine.len()
        invariant
            i <= spine.len(),
            all == spine.deep_view(),
            out.deep_view() == head + spine_pieces(all.take(i as int)),
        decreases spine.len() - i,
    {
        let item = &spine[i];
        proof {
            assert(all.take(i + 1).drop_last() =~= all.take(i as int));
            assert(all.take(i + 1).last() == item@);
        }
        let attributes = owned_attributes(&item.attributes());
        push_piece(out, empty_with("itemref", attributes));
        proof {
            assert(out.deep_view() =~= head + spine_pieces(all.take(i + 1)));
        }
        i += 1;
    }
    proof {
        assert(all.take(i as int) =~= all);
    }
}

/// The pieces of the package document.
pub fn package_pieces(metadata: &Vec<MetadataItem>, manifest: &Manifest, spine: &Vec<SpineItem>) -> (r:
    Vec<XmlPiece>)
    ensures
        r.deep_view() == package_document(metadata.deep_view(), manifest@, spine.deep_view()),
{
    let mut out: Vec<XmlPiece> = Vec::new();
    assert(out.deep_view() =~= Seq::<XmlPieceView>::empty());
    push_piece(&mut out, decl());
    let attributes = vec![
        attribute("xmlns", "http://www.idpf.org/2007/opf"),
        attribute("xmlns:dc", "http://purl.org/dc/elements/1.1/"),
        attribute("unique-identifier", "pub-id"),
        attribute("version", "3.0"),
    ];
    assert(attributes.deep_view() =~= seq![
        ("xmlns"@, "http://www.idpf.org/2007/opf"@),
        ("xmlns:dc"@, "http://purl.org/dc/elements/1.1/"@),
        ("unique-identifier"@, "pub-id"@),
        ("version"@, "3.0"@),
    ]);
    push_piece(&mut out, start_with("package", attributes));
    push_piece(&mut out, start("metadata"));
    make_opf_metadata(&mut out, metadata);
    push_piece(&mut out, end("metadata"));
    push_piece(&mut out, start("manifest"));
    make_opf_manifest(&mut out, manifest);
    push_piece(&mut out, end("manifest"));
    push_piece(&mut out, start("spine"));
    make_opf_spine(&mut out, spine);
    push_piece(&mut out, end("spine"));
    push_piece(&mut out, end("package"));
    proof {
        assert(out.deep_view() =~= package_document(
            metadata.deep_view(),
            manifest@,
            spine.deep_view(),
        ));
    }
    out
}

/// Whether every path of `rootfiles` may be the path of a package
/// document.
pub open spec fn legal_rootfiles(rootfiles: Seq<Seq<char>>) -> bool {
    forall|i: int| 0 <= i < rootfiles.len() ==> legal_rootfile(#[trigger] rootfiles[i])
}

/// The builder after the container document was written and staged.
pub open spec fn container_step(before: EpubBuilderView) -> Result<EpubBuilderView, Fault> {
    if before.rootfiles.len() == 0 {
        Err(Fault::EpubBuilderError { source: BuilderFault::MissingRootfile })
    } else if !legal_rootfiles(before.rootfiles) {
        Err(Fault::EpubBuilderError { source: BuilderFault::IllegalRootfilePath })
    } else {
        Ok(
            EpubBuilderView {
                staged: staged_with(
                    before.staged,
                    StagedFileView {
                        path: "META-INF/container.xml"@,
                        data: rendered(container_document(before.rootfiles)),
                    },
                ),
                ..before
            },
        )
    }
}

/// The directory of the package document that is written: that of the
/// first rootfile.
pub open spec fn package_dir(rootfiles: Seq<Seq<char>>) -> Seq<char> {
    if rootfiles.len() == 0 {
        Seq::empty()
    } else {
        parent_of(rootfiles[0])
    }
}

/// The builder after the navigation document was written, staged beside
/// the package document, and entered in the manifest. A package document
/// whose directory leaves the container has no place beside it.
pub open spec fn navigation_step(before: EpubBuilderView) -> Result<EpubBuilderView, Fault> {
    if before.catalog.len() == 0 {
        Err(Fault::EpubBuilderError { source: BuilderFault::NavigationInfoUninitalized })
    } else {
        match resolved(package_dir(before.rootfiles), "nav.xhtml"@) {
            None => Err(Fault::RealtiveLinkLeakage { path: "nav.xhtml"@ }),
            Some(path) => Ok(
                EpubBuilderView {
                    staged: staged_with(
                        before.staged,
                        StagedFileView {
                            path,
                            data: rendered(
                                navigation_document(before.catalog_title, before.catalog),
                            ),
                        },
                    ),
                    manifest: with_item(before.manifest, nav_entry()),
                    ..before
                },
            ),
        }
    }
}

/// The builder after the package document was written and staged: the
/// metadata must be complete, every fallback chain valid, and exactly one
/// manifest entry marked as navigation. The metadata gains the entry that
/// tells when the publication was modified.
pub open spec fn package_step(before: EpubBuilderView, modified: Seq<char>) -> Result<
    EpubBuilderView,
    Fault,
> {
    if !complete_metadata(before.metadata) {
        Err(Fault::EpubBuilderError { source: BuilderFault::MissingNecessaryMetadata })
    } else {
        match first_chain_fault(before.manifest, before.manifest.len() as int) {
            Some(fault) => Err(fault),
            None => if nav_count(before.manifest) != 1 {
                Err(Fault::EpubBuilderError { source: BuilderFault::TooManyNavFlags })
            } else if before.rootfiles.len() == 0 {
                Err(Fault::EpubBuilderError { source: BuilderFault::MissingRootfile })
            } else {
                Ok(
                    EpubBuilderView {
                        metadata: before.metadata.push(modified_entry(modified)),
                        staged: staged_with(
                            before.staged,
                            StagedFileView {
                                path: before.rootfiles[0],
                                data: rendered(
                                    package_document(
                                        before.metadata.push(modified_entry(modified)),
                                        before.manifest,
                                        before.spine,
                                    ),
                                ),
                            },
                        ),
                        ..before
                    },
                )
            },
        }
    }
}

/// Whether a step that should lead from `before` to `expected` ended as
/// `r` reports, leaving the builder as `after`. A step that the builder
/// refuses changes nothing; a step that the builder accepts is done.
pub open spec fn stepped(
    before: EpubBuilderView,
    expected: Result<EpubBuilderView, Fault>,
    r: Result<(), EpubError>,
    after: EpubBuilderView,
) -> bool {
    match expected {
        Err(fault) => r matches Err(e) && e@ == fault && after == before,
        Ok(done) => r is Ok && after == done,
    }
}

/// The entries of the archive that holds the staged files: `mimetype`
/// first and stored, every other file deflated, in the order of staging.
pub open spec fn packed_entries(staged: Seq<StagedFileView>) -> Seq<(Seq<char>, Seq<u8>, bool)>
    decreases staged.len(),
{
    if staged.len() == 0 {
        seq![("mimetype"@, mimetype_bytes(), false)]
    } else if staged.last().path == "mimetype"@ {
        packed_entries(staged.drop_last())
    } else {
        packed_entries(staged.drop_last()).push((staged.last().path, staged.last().data, true))
    }
}

/// What making the publication stages, or why the builder refuses to make
/// it.
pub open spec fn made(before: EpubBuilderView, modified: Seq<char>) -> Result<
    EpubBuilderView,
    Fault,
> {
    match container_step(before) {
        Err(fault) => Err(fault),
        Ok(first) => match navigation_step(first) {
            Err(fault) => Err(fault),
            Ok(second) => package_step(second, modified),
        },
    }
}

/// Why an archive that holds `entries` does not take `entry`, if it does
/// not: the archive refuses it, or its content cannot be written.
pub open spec fn add_fault(
    entries: Seq<(Seq<char>, Seq<u8>, bool)>,
    entry: (Seq<char>, Seq<u8>, bool),
) -> Option<Fault> {
    match add_outcome(entries, entry.0, entry.1, entry.2) {
        AddOutcome::Added => None,
        AddOutcome::Refused => Some(Fault::ArchiveError),
        AddOutcome::Unwritten => Some(Fault::IOError),
    }
}

/// Why the staged files are not packed, if they are not: the failure of
/// the first entry that the archive does not take.
pub open spec fn pack_fault(staged: Seq<StagedFileView>) -> Option<Fault>
    decreases staged.len(),
{
    if staged.len() == 0 {
        add_fault(Seq::empty(), ("mimetype"@, mimetype_bytes(), false))
    } else {
        match pack_fault(staged.drop_last()) {
            Some(fault) => Some(fault),
            None => if staged.last().path == "mimetype"@ {
                None
            } else {
                add_fault(
                    packed_entries(staged.drop_last()),
                    (staged.last().path, staged.last().data, true),
                )
            },
        }
    }
}

/// A failure among the first staged files is the failure of all of them.
pub proof fn lemma_pack_fault(staged: Seq<StagedFileView>, upto: int)
    requires
        0 <= upto <= staged.len(),
        pack_fault(staged.take(upto)) is Some,
    ensures
        pack_fault(staged) == pack_fault(staged.take(upto)),
    decreases staged.len() - upto,
{
    if upto < staged.len() {
        assert(staged.take(upto + 1).drop_last() =~= staged.take(upto));
        lemma_pack_fault(staged, upto + 1);
    } else {
        assert(staged.take(upto) =~= staged);
    }
}

/// The bytes of the archive that holds the staged files, or why there is
/// none: an entry that the archive does not take, or an archive that
/// cannot be finished.
pub open spec fn packed(staged: Seq<StagedFileView>) -> Result<Seq<u8>, Fault> {
    match pack_fault(staged) {
        Some(fault) => Err(fault),
        None => match archive_bytes(packed_entries(staged)) {
            Some(bytes) => Ok(bytes),
            None => Err(Fault::ArchiveError),
        },
    }
}

/// The bytes of the publication made from `before` at the time `modified`,
/// or why it is not made: what is staged by then is packed.
pub open spec fn made_bytes(before: EpubBuilderView, modified: Seq<char>) -> Result<
    Seq<u8>,
    Fault,
> {
    match made(before, modified) {
        Err(fault) => Err(fault),
        Ok(done) => packed(done.staged),
    }
}

/// Whether `bytes` is the archive of the publication made from `before`
/// at the time `modified`.
pub open spec fn made_as(before: EpubBuilderView, modified: Seq<char>, bytes: Seq<u8>) -> bool {
    made_bytes(before, modified) == Ok::<Seq<u8>, Fault>(bytes)
}

/// Whether `r` is what making the publication from `before` at the time
/// `modified` gives.
pub open spec fn timed(before: EpubBuilderView, modified: Seq<char>, r: Result<Vec<u8>, EpubError>) -> bool {
    crate::folds::gives_bytes(r, made_bytes(before, modified))
}

/// Why the builder refuses to make the publication before the time is
/// read, if it does: the failure of writing the container document or the
/// navigation document.
pub open spec fn early_fault(before: EpubBuilderView) -> Option<Fault> {
    match container_step(before) {
        Err(fault) => Some(fault),
        Ok(first) => match navigation_step(first) {
            Err(fault) => Some(fault),
            Ok(_) => None,
        },
    }
}

/// Whether `r` is what making the publication from `before` gives when the
/// time is read from the clock.
pub open spec fn made_at_some_time(before: EpubBuilderView, r: Result<Vec<u8>, EpubError>) -> bool {
    match early_fault(before) {
        Some(fault) => r matches Err(e) && e@ == fault,
        None => (r matches Err(e) && e@ == Fault::IOError) || exists|modified: Seq<char>|
            #[trigger] timed(before, modified, r),
    }
}

/// Whether `r` is what making the publication from `before` at the time
/// `modified` and opening its bytes gives.
pub open spec fn reopened(before: EpubBuilderView, modified: Seq<char>, r: Result<EpubDoc, EpubError>) -> bool {
    match made_bytes(before, modified) {
        Err(fault) => r matches Err(e) && e@ == fault,
        Ok(bytes) => match crate::epub::publication_of(bytes) {
            Ok(model) => r matches Ok(doc) && doc@ == model,
            Err(fault) => r matches Err(e) && e@ == fault,
        },
    }
}

/// Whether `r` is what building the publication from `before` gives when
/// the time is read from the clock.
pub open spec fn built_at_some_time(before: EpubBuilderView, r: Result<EpubDoc, EpubError>) -> bool {
    match early_fault(before) {
        Some(fault) => r matches Err(e) && e@ == fault,
        None => (r matches Err(e) && e@ == Fault::IOError) || exists|modified: Seq<char>|
            #[trigger] reopened(before, modified, r),
    }
}

/// Packs the staged files into an archive.
pub fn pack(staged: &Vec<StagedFile>) -> (r: Result<Vec<u8>, EpubError>)
    ensures
        crate::folds::gives_bytes(r, packed(staged.deep_view())),
{
    let mut writer = writer_open();
    let mimetype = "application/epub+zip";
    let ghost all = staged.deep_view();
    proof {
        assert(all.take(0) =~= Seq::<StagedFileView>::empty());
    }
    match writer_add(&mut writer, "mimetype", mimetype.as_bytes(), false) {
        Ok(Ok(())) => {},
        Ok(Err(source)) => {
            proof {
                lemma_pack_fault(all, 0);
            }
            return Err(EpubError::IOError { source });
        },
        Err(source) => {
            proof {
                lemma_pack_fault(all, 0);
            }
            return Err(EpubError::ArchiveError { source });
        },
    }
    proof {
        assert(all.take(0) =~= Seq::<StagedFileView>::empty());
        assert(written_entries(writer) =~= packed_entries(all.take(0)));
        assert(pack_fault(all.take(0)) is None);
    }
    let mut i: usize = 0;
    while i < staged.len()
        invariant
            i <= staged.len(),
            all == staged.deep_view(),
            written_entries(writer) == packed_entries(all.take(i as int)),
            pack_fault(all.take(i as int)) is None,
        decreases staged.len() - i,
    {
        let file = &staged[i];
        proof {
            assert(all.take(i + 1).drop_last() =~= all.take(i as int));
            assert(all.take(i + 1).last() == file.deep_view());
        }
        if !str_eq(file.path.as_str(), "mimetype") {
            match writer_add(&mut writer, file.path.as_str(), file.data.as_slice(), true) {
                Ok(Ok(())) => {},
                Ok(Err(source)) => {
                    proof {
                        lemma_pack_fault(all, i + 1);
                    }
                    return Err(EpubError::IOError { source });
                },
                Err(source) => {
                    proof {
                        lemma_pack_fault(all, i + 1);
                    }
                    return Err(EpubError::ArchiveError { source });
                },
            }
        }
        i += 1;
    }
    proof {
        assert(all.take(i as int) =~= all);
    }
    match writer_finish(writer) {
        Ok(bytes) => Ok(bytes),
        Err(source) => Err(EpubError::ArchiveError { source }),
    }
}

/// Whether `path` may be the path of a package document.
pub fn is_legal_rootfile(path: &str) -> (r: bool)
    ensures
        r == legal_rootfile(path@),
{
    proof {
        reveal_strlit("../");
        assert("../"@ =~= up_step());
        crate::paths::lemma_slash_prefix(path@);
    }
    !starts_with(path, "../") && !starts_with(path, "/")
}

impl EpubBuilder<EpubVersion3> {
    /// Writes the container document and stages it.
    pub fn make_container_xml(&mut self) -> (r: Result<(), EpubError>)
        ensures
            stepped(old(self)@, container_step(old(self)@), r, final(self)@),
    {
        if self.rootfiles.len() == 0 {
            return Err(EpubError::EpubBuilderError { source: EpubBuilderError::MissingRootfile });
        }
        let mut i: usize = 0;
        while i < self.rootfiles.len()
            invariant
                i <= self.rootfiles.len(),
                *self == *old(self),
                forall|j: int| 0 <= j < i ==> legal_rootfile(#[trigger] self@.rootfiles[j]),
            decreases self.rootfiles.len() - i,
        {
            if !is_legal_rootfile(self.rootfiles[i].as_str()) {
                assert(!legal_rootfile(self@.rootfiles[i as int]));
                return Err(
                    EpubError::EpubBuilderError { source: EpubBuilderError::IllegalRootfilePath },
                );
            }
            i += 1;
        }
        let pieces = container_pieces(&self.rootfiles);
        match render(&pieces) {
            Ok(data) => {
                stage_file(&mut self.staged, owned("META-INF/container.xml"), data);
                Ok(())
            },
            Err(e) => Err(e),
        }
    }

    /// Writes the navigation document from the table of contents, stages it
    /// beside the package document, and enters it in the manifest with the
    /// `nav` property.
    pub fn make_navigation_document(&mut self) -> (r: Result<(), EpubError>)
        ensures
            stepped(old(self)@, navigation_step(old(self)@), r, final(self)@),
    {
        proof {
            lemma_nav_views(self.catalog);
        }
        if self.catalog.len() == 0 {
            return Err(
                EpubError::EpubBuilderError {
                    source: EpubBuilderError::NavigationInfoUninitalized,
                },
            );
        }
        let pieces = navigation_pieces(self.catalog_title.as_str(), &self.catalog);
        let data = match render(&pieces) {
            Ok(data) => data,
            Err(e) => {
                return Err(e);
            },
        };
        let base = if self.rootfiles.len() == 0 {
            String::new()
        } else {
            parent_dir(self.rootfiles[0].as_str())
        };
        proof {
            reveal_strlit("nav.xhtml");
            assert(!up_step().is_prefix_of("nav.xhtml"@)) by {
                if up_step().is_prefix_of("nav.xhtml"@) {
                    assert("nav.xhtml"@.subrange(0, 3)[0] == '.');
                }
            }
            assert("nav.xhtml"@[0] == 'n');
        }
        let target = match normalize_manifest_path(base.as_str(), "nav.xhtml") {
            Ok(target) => target,
            Err(e) => {
                return Err(e);
            },
        };
        stage_file(&mut self.staged, target, data);
        self.manifest.insert(
            ManifestItem {
                id: owned("nav"),
                path: owned("nav.xhtml"),
                mime: owned("application/xhtml+xml"),
                properties: Some(owned("nav")),
                fallback: None,
            },
        );
        Ok(())
    }

    /// Checks the model, writes the package document with `modified` as
    /// the time of modification, and stages it at the first rootfile.
    pub fn make_opf_file(&mut self, modified: &str) -> (r: Result<(), EpubError>)
        ensures
            stepped(old(self)@, package_step(old(self)@, modified@), r, final(self)@),
    {
        if !self.validate_metadata() {
            return Err(
                EpubError::EpubBuilderError { source: EpubBuilderError::MissingNecessaryMetadata },
            );
        }
        match self.validate_manifest_fallback_chains() {
            Ok(()) => {},
            Err(e) => {
                return Err(e);
            },
        }
        match self.validate_manifest_nav() {
            Ok(()) => {},
            Err(e) => {
                return Err(e);
            },
        }
        if self.rootfiles.len() == 0 {
            return Err(EpubError::EpubBuilderError { source: EpubBuilderError::MissingRootfile });
        }
        let mut metadata = self.metadata.clone();
        let entry = MetadataItem {
            id: None,
            property: owned("dcterms:modified"),
            value: owned(modified),
            lang: None,
            refined: Vec::new(),
        };
        proof {
            assert(entry.refined.deep_view() =~= Seq::<MetadataRefinementView>::empty());
            assert(metadata.deep_view() =~= self.metadata.deep_view());
        }
        metadata.push(entry);
        proof {
            assert(metadata.deep_view() =~= self@.metadata.push(modified_entry(modified@)));
        }
        let pieces = package_pieces(&metadata, &self.manifest, &self.spine);
        match render(&pieces) {
            Ok(data) => {
                self.metadata = metadata;
                let path = self.rootfiles[0].clone();
                stage_file(&mut self.staged, path, data);
                Ok(())
            },
            Err(e) => Err(e),
        }
    }

    /// Makes the publication, with `modified` as the time of modification:
    /// writes the container document, the navigation document and the
    /// package document, and packs everything that is staged.
    ///
    /// What the builder refuses, it refuses with the failure of the first
    /// step that fails; the only other failures are those of the archive
    /// writer.
    pub fn make_at(self, modified: &str) -> (r: Result<Vec<u8>, EpubError>)
        ensures
            crate::folds::gives_bytes(r, made_bytes(self@, modified@)),
    {
        let mut builder = self;
        match builder.make_container_xml() {
            Ok(()) => {},
            Err(e) => {
                return Err(e);
            },
        }
        match builder.make_navigation_document() {
            Ok(()) => {},
            Err(e) => {
                return Err(e);
            },
        }
        match builder.make_opf_file(modified) {
            Ok(()) => {},
            Err(e) => {
                return Err(e);
            },
        }
        pack(&builder.staged)
    }

    /// Makes the publication and returns the bytes of its archive. The
    /// time of modification is the time of the call, which is read when
    /// the container document and the navigation document are written.
    ///
    /// What the builder refuses before the time is read, it refuses as at
    /// any time. Behind that the result is that of making the publication
    /// at some time, or the failure of the clock.
    pub fn make(self) -> (r: Result<Vec<u8>, EpubError>)
        ensures
            made_at_some_time(self@, r),
    {
        let mut builder = self;
        match builder.make_container_xml() {
            Ok(()) => {},
            Err(e) => {
                return Err(e);
            },
        }
        match builder.make_navigation_document() {
            Ok(()) => {},
            Err(e) => {
                return Err(e);
            },
        }
        let modified = match modified_now() {
            Ok(modified) => modified,
            Err(source) => {
                return Err(EpubError::IOError { source });
            },
        };
        let r = match builder.make_opf_file(modified.as_str()) {
            Ok(()) => pack(&builder.staged),
            Err(e) => Err(e),
        };
        proof {
            assert(timed(self@, modified@, r));
        }
        r
    }

    /// Makes the publication and opens it for reading.
    ///
    /// What the builder refuses before the time is read, it refuses as at
    /// any time. Behind that the result is that of making the publication
    /// at some time and opening its bytes, or the failure of the clock.
    pub fn build(self) -> (r: Result<EpubDoc, EpubError>)
        ensures
            built_at_some_time(self@, r),
    {
        let ghost before = self@;
        match self.make() {
            Ok(bytes) => {
                let ghost made: Result<Vec<u8>, EpubError> = Ok(bytes);
                let ghost modified = choose|modified: Seq<char>|
                    #[trigger] timed(before, modified, made);
                let r = EpubDoc::from_reader(bytes);
                proof {
                    assert(reopened(before, modified, r));
                }
                r
            },
            Err(e) => {
                proof {
                    let made: Result<Vec<u8>, EpubError> = Err(e);
                    if early_fault(before) is None && e@ != Fault::IOError {
                        let modified = choose|modified: Seq<char>|
                            #[trigger] timed(before, modified, made);
                        assert(reopened(before, modified, Err::<EpubDoc, EpubError>(e)));
                    }
                }
                Err(e)
            },
        }
    }
}

/// `item` with its path written from the root of the container.
pub open spec fn rooted(item: ManifestItemView) -> ManifestItemView {
    ManifestItemView { path: "/"@ + item.path, ..item }
}

/// The manifest of the builder that is made from a publication with the
/// manifest `items`: every entry but those marked as navigation, its path
/// written from the root.
pub open spec fn regathered(items: Seq<ManifestItemView>) -> Seq<ManifestItemView>
    decreases items.len(),
{
    if items.len() == 0 {
        Seq::empty()
    } else if has_nav_property(items.last()) {
        regathered(items.drop_last())
    } else {
        with_item(regathered(items.drop_last()), rooted(items.last()))
    }
}

/// Why the resources of the first `upto` entries of the manifest of
/// `model` are not all read from `archive`, if they are not: the failure
/// of the first one that is not read. Entries marked as navigation are
/// not read.
pub open spec fn regather_fault(model: crate::epub::EpubDocView, archive: ArchiveView, upto: int) -> Option<
    Fault,
>
    decreases upto,
{
    if upto <= 0 || upto > model.manifest.len() {
        None
    } else {
        match regather_fault(model, archive, upto - 1) {
            Some(fault) => Some(fault),
            None => if has_nav_property(model.manifest[upto - 1]) {
                None
            } else {
                match crate::epub::resource_at(model, archive, model.manifest[upto - 1].path) {
                    Err(fault) => Some(fault),
                    Ok(_) => None,
                }
            },
        }
    }
}

/// A failure among the first entries is the failure of all of them.
pub proof fn lemma_regather_fault(model: crate::epub::EpubDocView, archive: ArchiveView, upto: int)
    requires
        0 <= upto <= model.manifest.len(),
        regather_fault(model, archive, upto) is Some,
    ensures
        regather_fault(model, archive, model.manifest.len() as int) == regather_fault(
            model,
            archive,
            upto,
        ),
    decreases model.manifest.len() - upto,
{
    if upto < model.manifest.len() {
        lemma_regather_fault(model, archive, upto + 1);
    }
}

/// The files that are staged for the first `upto` entries of the manifest
/// of `model`: behind `mimetype`, the content of each resource that is
/// read from `archive`, at the path of its entry. Entries marked as
/// navigation are left out.
pub open spec fn regathered_files(model: crate::epub::EpubDocView, archive: ArchiveView, upto: int) -> Seq<
    StagedFileView,
>
    decreases upto,
{
    if upto <= 0 || upto > model.manifest.len() {
        fresh_builder().staged
    } else if has_nav_property(model.manifest[upto - 1]) {
        regathered_files(model, archive, upto - 1)
    } else {
        match crate::epub::resource_at(model, archive, model.manifest[upto - 1].path) {
            Ok(data) => staged_with(
                regathered_files(model, archive, upto - 1),
                StagedFileView { path: model.manifest[upto - 1].path, data },
            ),
            Err(_) => regathered_files(model, archive, upto - 1),
        }
    }
}

/// The builder that holds what the publication with the model `model` in
/// `archive` holds, or why there is none.
pub open spec fn regathered_builder(model: crate::epub::EpubDocView, archive: ArchiveView) -> Result<
    EpubBuilderView,
    Fault,
> {
    match regather_fault(model, archive, model.manifest.len() as int) {
        Some(fault) => Err(fault),
        None => Ok(
            EpubBuilderView {
                rootfiles: seq![model.package_path],
                metadata: model.metadata,
                manifest: regathered(model.manifest),
                spine: model.spine,
                catalog_title: model.catalog_title,
                catalog: model.catalog,
                staged: regathered_files(model, archive, model.manifest.len() as int),
            },
        ),
    }
}

impl EpubBuilder<EpubVersion3> {
    /// A builder that holds what the publication `doc` holds: its package
    /// document as the only rootfile, its metadata, spine and table of
    /// contents, and every resource of its manifest with its content
    /// staged. Entries marked as navigation are left out: making the
    /// publication writes a new navigation document. The first resource
    /// that cannot be read, or whose obfuscation cannot be taken off, is
    /// the failure of the whole.
    pub fn from(doc: &mut EpubDoc) -> (r: Result<Self, EpubError>)
        ensures
            final(doc)@ == old(doc)@,
            held(final(doc).archive) == held(old(doc).archive),
            match regathered_builder(old(doc)@, held(old(doc).archive)) {
                Ok(expected) => r matches Ok(builder) && builder@ == expected,
                Err(fault) => r matches Err(e) && e@ == fault,
            },
    {
        let mut builder = match Self::new() {
            Ok(builder) => builder,
            Err(e) => {
                return Err(e);
            },
        };
        builder.add_rootfile(doc.package_path.as_str());
        builder.metadata = doc.metadata.clone();
        builder.spine = doc.spine.clone();
        builder.catalog = clone_nav_points(&doc.catalog);
        builder.catalog_title = doc.catalog_title.clone();
        let ghost model = doc@;
        let ghost archive = held(doc.archive);
        let ghost items = doc@.manifest;
        proof {
            assert(builder@.rootfiles =~= seq![model.package_path]);
            assert(builder@.metadata =~= model.metadata);
            assert(builder@.spine =~= model.spine);
            assert(items.take(0) =~= Seq::<ManifestItemView>::empty());
        }
        let mut i: usize = 0;
        while i < doc.manifest.items.len()
            invariant
                i <= doc.manifest.items.len(),
                doc@ == model,
                doc@ == old(doc)@,
                archive == held(doc.archive),
                archive == held(old(doc).archive),
                items == model.manifest,
                builder@.rootfiles == seq![model.package_path],
                builder@.metadata == model.metadata,
                builder@.spine == model.spine,
                builder@.catalog == model.catalog,
                builder@.catalog_title == model.catalog_title,
                builder@.manifest == regathered(items.take(i as int)),
                builder@.staged == regathered_files(model, archive, i as int),
                regather_fault(model, archive, i as int) is None,
            decreases doc.manifest.items.len() - i,
        {
            proof {
                assert(items.take(i + 1).drop_last() =~= items.take(i as int));
                assert(items.take(i + 1).last() == items[i as int]);
            }
            if !is_nav_item(&doc.manifest.items[i]) {
                let item = doc.manifest.items[i].clone();
                let data = match doc.read_resource(item.path.as_str()) {
                    Ok(data) => data,
                    Err(e) => {
                        proof {
                            lemma_regather_fault(model, archive, i + 1);
                        }
                        return Err(e);
                    },
                };
                let path = concat2("/", item.path.as_str());
                stage_file(&mut builder.staged, item.path, data);
                builder.manifest.insert(
                    ManifestItem {
                        id: item.id,
                        path,
                        mime: item.mime,
                        properties: item.properties,
                        fallback: item.fallback,
                    },
                );
            }
            i += 1;
        }
        proof {
            assert(items.take(i as int) =~= items);
        }
        Ok(builder)
    }
}

/// What the builder refuses does not depend on the time: a publication
/// that is refused at one time is refused at any other, for the same
/// reason.
pub proof fn lemma_refused_at_any_time(before: EpubBuilderView, first: Seq<char>, second: Seq<char>)
    requires
        made(before, first) is Err,
    ensures
        made(before, second) == made(before, first),
{
}

/// Making a publication adds one entry to the metadata, the time of
/// modification, behind the entries that the builder held.
pub proof fn lemma_made_metadata(before: EpubBuilderView, modified: Seq<char>)
    requires
        made(before, modified) is Ok,
    ensures
        made(before, modified)->Ok_0.metadata == before.metadata.push(modified_entry(modified)),
{
}

/// A builder that is made from a publication and then made into a
/// publication again writes the metadata of the publication, in their
/// order, and behind them one entry with the time of modification. The
/// entries of the manifest that are marked as navigation are not taken
/// over: their place is taken by the entry of the navigation document that
/// is written.
pub proof fn lemma_remade_metadata(
    model: crate::epub::EpubDocView,
    archive: ArchiveView,
    modified: Seq<char>,
)
    requires
        regathered_builder(model, archive) is Ok,
        made(regathered_builder(model, archive)->Ok_0, modified) is Ok,
    ensures
        made(regathered_builder(model, archive)->Ok_0, modified)->Ok_0.metadata
            == model.metadata.push(modified_entry(modified)),
        made(regathered_builder(model, archive)->Ok_0, modified)->Ok_0.manifest == with_item(
            regathered(model.manifest),
            nav_entry(),
        ),
{
    lemma_made_metadata(regathered_builder(model, archive)->Ok_0, modified);
}

} // verus!
