//! A publication that was opened for reading.

use crate::archive::{
    archive_entry, archive_files, archive_has, archive_len, archive_names, archive_of,
    archive_open, archive_read, held, ArchiveView, Compression, EntryInfo,
};
use crate::decode::decode_bytes;
use crate::error::{missing_element, EpubError, Fault};
use crate::fallback::{
    chain_message, chain_outcome, chain_text, check_fallback_chain, pick, pick_supported,
    ChainFault, ChainOutcome, Pick, Picked,
};
use crate::folds::{first_of, gives, gives_bytes, lemma_first_match};
use crate::manifest::{find_item, Manifest};
use crate::metadata::{metadata_of, parse_metadata};
use crate::navigation::{
    find_nav_path, find_toc_path, nav_catalog_of, nav_path_of, ncx_catalog_of, parse_nav_document,
    parse_ncx, toc_path_of,
};
use crate::obfuscation::{
    adobe_font_dencryption, adobe_obfuscated, idpf_font_dencryption, idpf_obfuscated,
};
use crate::package::{
    detected_version, determine_epub_version, encryption_of, manifest_of, parse_container,
    parse_encryption, parse_manifest, parse_spine, resolve_unique_identifier, rootfile_of,
    spine_of, unique_identifier_of,
};
use crate::paths::{parent_dir, parent_of};
use crate::spine::{next_of, next_spine_index, prev_of, prev_spine_index};
use crate::text::{concat2, concat3, owned, str_eq};
use crate::types::{EncryptionData, EncryptionDataView, EpubVersion, ManifestItemView, MetadataItem, MetadataItemView, MetadataLinkItem, MetadataLinkItemView, NavPoint, NavPointView, SpineItem, SpineItemView};
use crate::xml::{XmlElement, XmlElementView};
use crate::xml_reader::XmlReader;
use vstd::prelude::*;

verus! {

/// The URI of the IDPF font obfuscation.
pub open spec fn idpf_method() -> Seq<char> {
    "http://www.idpf.org/2008/embedding"@
}

/// The URI of the Adobe font obfuscation.
pub open spec fn adobe_method() -> Seq<char> {
    "http://ns.adobe.com/pdf/enc#RC"@
}

/// What the package document says of a publication.
#[derive(Debug)]
pub struct Package {
    /// The version of the format.
    pub version: EpubVersion,
    /// The metadata entries.
    pub metadata: Vec<MetadataItem>,
    /// The metadata links.
    pub metadata_link: Vec<MetadataLinkItem>,
    /// The resources.
    pub manifest: Manifest,
    /// The reading order.
    pub spine: Vec<SpineItem>,
}

/// A package, as a value.
pub ghost struct PackageView {
    pub version: EpubVersion,
    pub metadata: Seq<MetadataItemView>,
    pub metadata_link: Seq<MetadataLinkItemView>,
    pub manifest: Seq<ManifestItemView>,
    pub spine: Seq<SpineItemView>,
}

impl DeepView for Package {
    type V = PackageView;

    open spec fn deep_view(&self) -> PackageView {
        PackageView {
            version: self.version,
            metadata: self.metadata.deep_view(),
            metadata_link: self.metadata_link.deep_view(),
            manifest: self.manifest@,
            spine: self.spine.deep_view(),
        }
    }
}

/// What the package document `package`, which lies in the directory
/// `base`, says of the publication.
///
/// The version is told first. Then the first `metadata`, `manifest` and
/// `spine` elements must be there, and each is read in this order; the
/// first failure is the failure of the whole.
pub open spec fn package_of(package: XmlElementView, base: Seq<char>) -> Result<PackageView, Fault> {
    match detected_version(package) {
        Err(fault) => Err(fault),
        Ok(version) => match first_of(package.named("metadata"@)) {
            None => Err(Fault::NonCanonicalFile { tag: "metadata"@ }),
            Some(metadata_element) => match first_of(package.named("manifest"@)) {
                None => Err(Fault::NonCanonicalFile { tag: "manifest"@ }),
                Some(manifest_element) => match first_of(package.named("spine"@)) {
                    None => Err(Fault::NonCanonicalFile { tag: "spine"@ }),
                    Some(spine_element) => match metadata_of(metadata_element, version) {
                        Err(fault) => Err(fault),
                        Ok((metadata, metadata_link)) => match manifest_of(
                            manifest_element,
                            base,
                        ) {
                            Err(fault) => Err(fault),
                            Ok(manifest) => match spine_of(spine_element) {
                                Err(fault) => Err(fault),
                                Ok(spine) => Ok(
                                    PackageView {
                                        version,
                                        metadata,
                                        metadata_link,
                                        manifest,
                                        spine,
                                    },
                                ),
                            },
                        },
                    },
                },
            },
        },
    }
}

/// Reads the version, the metadata, the manifest and the spine from the
/// package document.
pub fn read_package(package: &XmlElement, base: &str) -> (r: Result<Package, EpubError>)
    ensures
        gives(r, package_of(package@, base@)),
{
    let version = match determine_epub_version(package) {
        Ok(version) => version,
        Err(e) => {
            return Err(e);
        },
    };
    let metadata_elements = package.find_elements_by_name("metadata");
    if metadata_elements.len() == 0 {
        return Err(missing_element("metadata"));
    }
    let manifest_elements = package.find_elements_by_name("manifest");
    if manifest_elements.len() == 0 {
        return Err(missing_element("manifest"));
    }
    let spine_elements = package.find_elements_by_name("spine");
    if spine_elements.len() == 0 {
        return Err(missing_element("spine"));
    }
    let (metadata, metadata_link) = match parse_metadata(metadata_elements[0], version) {
        Ok(read) => read,
        Err(e) => {
            return Err(e);
        },
    };
    let manifest = match parse_manifest(manifest_elements[0], base) {
        Ok(manifest) => manifest,
        Err(e) => {
            return Err(e);
        },
    };
    let spine = match parse_spine(spine_elements[0]) {
        Ok(spine) => spine,
        Err(e) => {
            return Err(e);
        },
    };
    Ok(Package { version, metadata, metadata_link, manifest, spine })
}

/// The warning for the entry `item` of the manifest `items`: `None` where
/// it has no fallback or its fallback chain is valid.
pub open spec fn fallback_warning(items: Seq<ManifestItemView>, item: ManifestItemView) -> Option<
    Seq<char>,
> {
    if item.fallback is None {
        None
    } else {
        match chain_outcome(items, item.id, Seq::empty()) {
            ChainOutcome::Valid(_) => None,
            ChainOutcome::Circular(chain) => Some(
                "Invalid fallback chain for item "@ + item.id
                    + ": Circular reference detected in fallback chain for "@ + chain_text(chain),
            ),
            ChainOutcome::Missing(id, _) => Some(
                "Invalid fallback chain for item "@ + item.id + ": Fallback resource "@ + id
                    + " does not exist in manifest"@,
            ),
        }
    }
}

/// The warnings for the first `upto` entries of the manifest, in order.
pub open spec fn fallback_warnings(items: Seq<ManifestItemView>, upto: int) -> Seq<Seq<char>>
    decreases upto,
{
    if upto <= 0 || upto > items.len() {
        Seq::empty()
    } else {
        match fallback_warning(items, items[upto - 1]) {
            Some(warning) => fallback_warnings(items, upto - 1).push(warning),
            None => fallback_warnings(items, upto - 1),
        }
    }
}

/// Checks the fallback chain of every entry that has a fallback, and
/// returns a warning for each chain that is circular or leads nowhere.
/// Reading goes on whatever the chains are.
pub fn validate_fallback_chains(manifest: &Manifest) -> (warnings: Vec<String>)
    ensures
        warnings.deep_view() == fallback_warnings(manifest@, manifest@.len() as int),
{
    let mut warnings: Vec<String> = Vec::new();
    assert(warnings.deep_view() =~= Seq::<Seq<char>>::empty());
    let mut i: usize = 0;
    while i < manifest.items.len()
        invariant
            i <= manifest.items.len(),
            warnings.deep_view() == fallback_warnings(manifest@, i as int),
        decreases manifest.items.len() - i,
    {
        let item = &manifest.items[i];
        assert(item@ == manifest@[i as int]);
        let ghost before = warnings.deep_view();
        if item.fallback.is_some() {
            let mut chain: Vec<String> = Vec::new();
            assert(chain.deep_view() =~= Seq::<Seq<char>>::empty());
            match check_fallback_chain(manifest, item.id.as_str(), &mut chain) {
                Ok(()) => {},
                Err(ChainFault::Circular) => {
                    let text = chain_message(&chain);
                    let head = concat3(
                        "Invalid fallback chain for item ",
                        item.id.as_str(),
                        ": Circular reference detected in fallback chain for ",
                    );
                    let warning = concat2(head.as_str(), text.as_str());
                    warnings.push(warning);
                    assert(warnings.deep_view() =~= before.push(warning@));
                },
                Err(ChainFault::Missing(id)) => {
                    let head = concat3(
                        "Invalid fallback chain for item ",
                        item.id.as_str(),
                        ": Fallback resource ",
                    );
                    let warning = concat3(head.as_str(), id.as_str(), " does not exist in manifest");
                    warnings.push(warning);
                    assert(warnings.deep_view() =~= before.push(warning@));
                },
            }
        }
        i += 1;
    }
    warnings
}

/// What an archive entry's compression allows: only stored and deflated
/// entries are accepted.
pub fn check_entry(entry: EntryInfo) -> (r: Result<(), EpubError>)
    ensures
        entry.compression != Compression::Other ==> r is Ok,
        entry.compression == Compression::Other ==> (r matches Err(e) && e@ == (
        Fault::UnusableCompressionMethod { file: entry.file@, method: entry.method@ })),
{
    match entry.compression {
        Compression::Stored | Compression::Deflated => Ok(()),
        Compression::Other => Err(
            EpubError::UnusableCompressionMethod { file: entry.file, method: entry.method },
        ),
    }
}

/// What is wrong with an entry of an archive: that the archive does not
/// hand it out, or that it is neither stored nor deflated.
pub open spec fn entry_fault(entry: Option<crate::archive::EntryInfoView>) -> Option<Fault> {
    match entry {
        None => Some(Fault::ArchiveError),
        Some(info) => if info.compression == Compression::Other {
            Some(Fault::UnusableCompressionMethod { file: info.file, method: info.method })
        } else {
            None
        },
    }
}

/// What is wrong with the first entry of `entries` with which anything is
/// wrong.
pub open spec fn entries_fault(entries: Seq<Option<crate::archive::EntryInfoView>>) -> Option<
    Fault,
>
    decreases entries.len(),
{
    if entries.len() == 0 {
        None
    } else {
        match entry_fault(entries[0]) {
            Some(fault) => Some(fault),
            None => entries_fault(entries.drop_first()),
        }
    }
}

/// Checks that every entry of the archive is stored or deflated: the first
/// entry that is neither fails the check with its name and its method. An
/// entry that the archive cannot hand out fails the check as well.
pub fn compression_method_check(archive: &mut zip::ZipArchive<std::io::Cursor<Vec<u8>>>) -> (r:
    Result<(), EpubError>)
    ensures
        held(*final(archive)) == held(*old(archive)),
        r is Ok <==> entries_fault(held(*old(archive)).entries) is None,
        r matches Err(e) ==> entries_fault(held(*old(archive)).entries) == Some(e@),
{
    let ghost entries = crate::archive::archive_entries(*archive);
    let count = archive_len(archive);
    let mut index: usize = 0;
    proof {
        assert(entries.skip(0) =~= entries);
    }
    while index < count
        invariant
            index <= count,
            count == entries.len(),
            held(*archive) == held(*old(archive)),
            entries == held(*old(archive)).entries,
            entries_fault(entries.skip(index as int)) == entries_fault(entries),
        decreases count - index,
    {
        proof {
            assert(entries.skip(index as int)[0] == entries[index as int]);
            assert(entries.skip(index as int).drop_first() =~= entries.skip(index as int + 1));
        }
        let entry = match archive_entry(archive, index) {
            Ok(entry) => entry,
            Err(source) => {
                return Err(EpubError::ArchiveError { source });
            },
        };
        match check_entry(entry) {
            Ok(()) => {},
            Err(e) => {
                return Err(e);
            },
        }
        index += 1;
    }
    Ok(())
}

/// What reading the entry named `name` of `archive` gives: the content of
/// a readable entry; a failure of reading where the entry is handed out
/// and cannot be read to its end; a failure of the archive where the entry
/// is not handed out.
pub open spec fn entry_in(archive: ArchiveView, name: Seq<char>) -> Result<Seq<u8>, Fault> {
    if archive.files.contains_key(name) {
        Ok(archive.files[name])
    } else if archive.opened.contains(name) {
        Err(Fault::IOError)
    } else {
        Err(Fault::ArchiveError)
    }
}

/// Reads the entry named `file_name` from the archive.
pub fn get_file_in_zip_archive(
    zip_file: &mut zip::ZipArchive<std::io::Cursor<Vec<u8>>>,
    file_name: &str,
) -> (r: Result<Vec<u8>, EpubError>)
    ensures
        held(*final(zip_file)) == held(*old(zip_file)),
        gives_bytes(r, entry_in(held(*old(zip_file)), file_name@)),
{
    match archive_read(zip_file, file_name) {
        Ok(Ok(data)) => Ok(data),
        Ok(Err(source)) => Err(EpubError::IOError { source }),
        Err(source) => Err(EpubError::ArchiveError { source }),
    }
}

/// The element tree of the document that `archive` holds under `name`:
/// the entry is read, decoded and read as XML.
pub open spec fn document_in(archive: ArchiveView, name: Seq<char>) -> Result<
    XmlElementView,
    Fault,
> {
    match entry_in(archive, name) {
        Err(fault) => Err(fault),
        Ok(bytes) => crate::xml_reader::parsed_bytes(bytes),
    }
}

/// Reads the entry named `file_name` and builds its element tree.
fn read_document(archive: &mut zip::ZipArchive<std::io::Cursor<Vec<u8>>>, file_name: &str) -> (r:
    Result<XmlElement, EpubError>)
    ensures
        gives(r, document_in(held(*old(archive)), file_name@)),
        held(*final(archive)) == held(*old(archive)),
{
    let bytes = match get_file_in_zip_archive(archive, file_name) {
        Ok(bytes) => bytes,
        Err(e) => {
            return Err(e);
        },
    };
    let text = match decode_bytes(bytes.as_slice()) {
        Ok(text) => text,
        Err(e) => {
            return Err(e);
        },
    };
    XmlReader::parse(text.as_str())
}

/// A publication that was opened for reading: its archive and the model
/// that was read from it, with a cursor on the spine.
pub struct EpubDoc {
    /// The archive that holds the publication.
    pub archive: zip::ZipArchive<std::io::Cursor<Vec<u8>>>,
    /// The path of the package document.
    pub package_path: String,
    /// The directory of the package document.
    pub base_path: String,
    /// The version of the format.
    pub version: EpubVersion,
    /// The value of the identifier that the package names as unique.
    pub unique_identifier: String,
    /// The metadata entries.
    pub metadata: Vec<MetadataItem>,
    /// The metadata links.
    pub metadata_link: Vec<MetadataLinkItem>,
    /// The resources.
    pub manifest: Manifest,
    /// The reading order.
    pub spine: Vec<SpineItem>,
    /// The encryption records, where the publication has any.
    pub encryption: Option<Vec<EncryptionData>>,
    /// The table of contents.
    pub catalog: Vec<NavPoint>,
    /// The title of the table of contents.
    pub catalog_title: String,
    /// The index of the spine entry that is being read.
    pub current_spine_index: usize,
    /// What reading found wrong without giving up.
    pub warnings: Vec<String>,
}

/// The model of a publication, as a value: everything but its archive.
pub ghost struct EpubDocView {
    pub package_path: Seq<char>,
    pub base_path: Seq<char>,
    pub version: EpubVersion,
    pub unique_identifier: Seq<char>,
    pub metadata: Seq<MetadataItemView>,
    pub metadata_link: Seq<MetadataLinkItemView>,
    pub manifest: Seq<ManifestItemView>,
    pub spine: Seq<SpineItemView>,
    pub encryption: Option<Seq<EncryptionDataView>>,
    pub catalog: Seq<NavPointView>,
    pub catalog_title: Seq<char>,
    pub current_spine_index: usize,
    pub warnings: Seq<Seq<char>>,
}

impl View for EpubDoc {
    type V = EpubDocView;

    open spec fn view(&self) -> EpubDocView {
        EpubDocView {
            package_path: self.package_path@,
            base_path: self.base_path@,
            version: self.version,
            unique_identifier: self.unique_identifier@,
            metadata: self.metadata.deep_view(),
            metadata_link: self.metadata_link.deep_view(),
            manifest: self.manifest@,
            spine: self.spine.deep_view(),
            encryption: self.encryption.deep_view(),
            catalog: self.catalog.deep_view(),
            catalog_title: self.catalog_title@,
            current_spine_index: self.current_spine_index,
            warnings: self.warnings.deep_view(),
        }
    }
}

/// The method with which the resource at `path` is encrypted: that of the
/// first record for this path.
pub open spec fn method_for(records: Option<Seq<EncryptionDataView>>, path: Seq<char>) -> Option<
    Seq<char>,
> {
    match records {
        None => None,
        Some(records) => match first_of(
            records.filter(|record: EncryptionDataView| record.data == path),
        ) {
            Some(record) => Some(record.method),
            None => None,
        },
    }
}

/// The bytes behind the obfuscation `method`, for the publication with the
/// unique identifier `uid`.
pub open spec fn decrypted(method: Seq<char>, data: Seq<u8>, uid: Seq<char>) -> Result<
    Seq<u8>,
    Fault,
> {
    if method == idpf_method() {
        Ok(idpf_obfuscated(data, uid))
    } else if method == adobe_method() {
        Ok(adobe_obfuscated(data, uid))
    } else {
        Err(Fault::UnsupportedEncryptedMethod { method })
    }
}

/// The content of a resource, given the bytes `data` that the archive
/// holds for it at `path`.
pub open spec fn content_of(model: EpubDocView, path: Seq<char>, data: Seq<u8>) -> Result<
    Seq<u8>,
    Fault,
> {
    match method_for(model.encryption, path) {
        Some(method) => decrypted(method, data, model.unique_identifier),
        None => Ok(data),
    }
}

/// The values of the entries of `metadata` with the property `key`.
pub open spec fn values_of(metadata: Seq<MetadataItemView>, key: Seq<char>) -> Seq<Seq<char>> {
    metadata.filter(|item: MetadataItemView| item.property == key).map_values(
        |item: MetadataItemView| item.value,
    )
}

/// What is in `s`, unless it is empty.
pub open spec fn unless_empty<A>(s: Seq<A>) -> Option<Seq<A>> {
    if s.len() == 0 {
        None
    } else {
        Some(s)
    }
}

/// The values of the required property `key`.
pub open spec fn required_values(metadata: Seq<MetadataItemView>, key: Seq<char>) -> Result<
    Seq<Seq<char>>,
    Fault,
> {
    match unless_empty(values_of(metadata, key)) {
        Some(values) => Ok(values),
        None => Err(Fault::NonCanonicalFile { tag: key }),
    }
}

/// The warning for an NCX document without title.
pub open spec fn missing_title_warning() -> Seq<char> {
    "Expecting to get docTitle information from the ncx file, but it's missing."@
}

/// The table of contents that the document `toc` holds for a publication
/// of the given version.
pub open spec fn catalog_of(version: EpubVersion, toc: XmlElementView) -> Result<
    crate::navigation::CatalogView,
    Fault,
> {
    match version {
        EpubVersion::Version2_0 => ncx_catalog_of(toc),
        EpubVersion::Version3_0 => nav_catalog_of(toc),
    }
}

/// The path of the package document that the container document of
/// `archive` names, and the package document.
pub open spec fn package_in(archive: ArchiveView) -> Result<
    (Seq<char>, XmlElementView),
    Fault,
> {
    match document_in(archive, "META-INF/container.xml"@) {
        Err(fault) => Err(fault),
        Ok(container) => match rootfile_of(container) {
            Err(fault) => Err(fault),
            Ok(path) => match document_in(archive, path) {
                Err(fault) => Err(fault),
                Ok(package) => Ok((path, package)),
            },
        },
    }
}

/// The encryption records of the publication in `archive`: those of its
/// encryption document, where it has one.
pub open spec fn encryption_in(archive: ArchiveView) -> Result<
    Option<Seq<EncryptionDataView>>,
    Fault,
> {
    if archive.names.contains("META-INF/encryption.xml"@) {
        match document_in(archive, "META-INF/encryption.xml"@) {
            Err(fault) => Err(fault),
            Ok(document) => encryption_of(document),
        }
    } else {
        Ok(None)
    }
}

/// The path of the document that holds the table of contents: the NCX
/// document of a publication of the second version, the navigation
/// document of one of the third.
pub open spec fn contents_path(
    version: EpubVersion,
    package: XmlElementView,
    manifest: Seq<ManifestItemView>,
) -> Result<Seq<char>, Fault> {
    match version {
        EpubVersion::Version2_0 => toc_path_of(package, manifest),
        EpubVersion::Version3_0 => nav_path_of(manifest),
    }
}

/// The table of contents of the publication with the package document
/// `package` and the resources `manifest`, in `archive`.
pub open spec fn catalog_in(
    archive: ArchiveView,
    version: EpubVersion,
    package: XmlElementView,
    manifest: Seq<ManifestItemView>,
) -> Result<crate::navigation::CatalogView, Fault> {
    match contents_path(version, package, manifest) {
        Err(fault) => Err(fault),
        Ok(path) => match document_in(archive, path) {
            Err(fault) => Err(fault),
            Ok(toc) => catalog_of(version, toc),
        },
    }
}

/// What is warned of when a publication is read: the fallback chains that
/// are circular or lead nowhere, and an NCX document without title.
pub open spec fn warnings_of(
    version: EpubVersion,
    manifest: Seq<ManifestItemView>,
    title: Option<Seq<char>>,
) -> Seq<Seq<char>> {
    fallback_warnings(manifest, manifest.len() as int) + (if version == EpubVersion::Version2_0
        && title is None {
        seq![missing_title_warning()]
    } else {
        Seq::empty()
    })
}

/// The model of the publication that `archive` holds, or why it holds
/// none. The entries are checked first; then the container document is
/// read, the package document that it names, the encryption document if
/// there is one, and the table of contents; at last the unique identifier
/// is looked up. The first failure on this way is that of the whole.
pub open spec fn model_of(archive: ArchiveView) -> Result<EpubDocView, Fault> {
    match entries_fault(archive.entries) {
        Some(fault) => Err(fault),
        None => match package_in(archive) {
            Err(fault) => Err(fault),
            Ok((path, package)) => match package_of(package, parent_of(path)) {
                Err(fault) => Err(fault),
                Ok(read) => match encryption_in(archive) {
                    Err(fault) => Err(fault),
                    Ok(encryption) => match catalog_in(
                        archive,
                        read.version,
                        package,
                        read.manifest,
                    ) {
                        Err(fault) => Err(fault),
                        Ok(catalog) => match unique_identifier_of(package, read.metadata) {
                            Err(fault) => Err(fault),
                            Ok(unique_identifier) => Ok(
                                EpubDocView {
                                    package_path: path,
                                    base_path: parent_of(path),
                                    version: read.version,
                                    unique_identifier,
                                    metadata: read.metadata,
                                    metadata_link: read.metadata_link,
                                    manifest: read.manifest,
                                    spine: read.spine,
                                    encryption,
                                    catalog: catalog.points,
                                    catalog_title: match catalog.title {
                                        Some(title) => title,
                                        None => Seq::empty(),
                                    },
                                    current_spine_index: 0,
                                    warnings: warnings_of(
                                        read.version,
                                        read.manifest,
                                        catalog.title,
                                    ),
                                },
                            ),
                        },
                    },
                },
            },
        },
    }
}

/// The model of the publication that `bytes` hold as a ZIP archive, or
/// why they hold none: bytes that are no archive are a failure of the
/// archive.
pub open spec fn publication_of(bytes: Seq<u8>) -> Result<EpubDocView, Fault> {
    match archive_of(bytes) {
        None => Err(Fault::ArchiveError),
        Some(archive) => model_of(archive),
    }
}

impl EpubDoc {
    /// Opens the publication that `reader` holds as a ZIP archive.
    ///
    /// The archive must hold only stored and deflated entries. The
    /// container document names the package document, which gives the
    /// version, the metadata, the manifest and the spine; then the
    /// encryption document is read if there is one, then the table of
    /// contents, and at last the unique identifier is looked up. Any
    /// failure on the way is the failure of the whole, but for fallback
    /// chains: a chain that is circular or leads nowhere is only warned of.
    pub fn from_reader(reader: Vec<u8>) -> (r: Result<EpubDoc, EpubError>)
        ensures
            match publication_of(reader@) {
                Ok(model) => r matches Ok(doc) && doc@ == model && archive_of(reader@) == Some(
                    held(doc.archive),
                ),
                Err(fault) => r matches Err(e) && e@ == fault,
            },
    {
        let mut archive = match archive_open(reader) {
            Ok(archive) => archive,
            Err(source) => {
                return Err(EpubError::ArchiveError { source });
            },
        };
        let ghost all = held(archive);
        match compression_method_check(&mut archive) {
            Ok(()) => {},
            Err(e) => {
                return Err(e);
            },
        }
        let container = match read_document(&mut archive, "META-INF/container.xml") {
            Ok(container) => container,
            Err(e) => {
                return Err(e);
            },
        };
        let package_path = match parse_container(&container) {
            Ok(path) => path,
            Err(e) => {
                return Err(e);
            },
        };
        let base_path = parent_dir(package_path.as_str());
        let package = match read_document(&mut archive, package_path.as_str()) {
            Ok(package) => package,
            Err(e) => {
                return Err(e);
            },
        };
        assert(package_in(all) == Ok::<_, Fault>((package_path@, package@)));
        let read = match read_package(&package, base_path.as_str()) {
            Ok(read) => read,
            Err(e) => {
                return Err(e);
            },
        };
        let mut warnings = validate_fallback_chains(&read.manifest);
        let ghost chain_warnings = warnings.deep_view();
        let encryption = if archive_has(&archive, "META-INF/encryption.xml") {
            let document = match read_document(&mut archive, "META-INF/encryption.xml") {
                Ok(document) => document,
                Err(e) => {
                    return Err(e);
                },
            };
            match parse_encryption(&document) {
                Ok(records) => records,
                Err(e) => {
                    return Err(e);
                },
            }
        } else {
            None
        };
        assert(encryption_in(all) == Ok::<_, Fault>(encryption.deep_view()));
        let toc_path = match read.version {
            EpubVersion::Version2_0 => find_toc_path(&package, &read.manifest),
            EpubVersion::Version3_0 => find_nav_path(&read.manifest),
        };
        let toc_path = match toc_path {
            Ok(path) => path,
            Err(e) => {
                return Err(e);
            },
        };
        let toc = match read_document(&mut archive, toc_path.as_str()) {
            Ok(toc) => toc,
            Err(e) => {
                return Err(e);
            },
        };
        let catalog = match read.version {
            EpubVersion::Version2_0 => parse_ncx(&toc),
            EpubVersion::Version3_0 => parse_nav_document(&toc),
        };
        let catalog = match catalog {
            Ok(catalog) => catalog,
            Err(e) => {
                return Err(e);
            },
        };
        assert(catalog_in(all, read.version, package@, read.manifest@) == Ok::<_, Fault>(
            catalog.deep_view(),
        ));
        let ghost title = catalog.deep_view().title;
        let catalog_title = match catalog.title {
            Some(title) => title,
            None => {
                if read.version == EpubVersion::Version2_0 {
                    let warning = owned(
                        "Expecting to get docTitle information from the ncx file, but it's missing.",
                    );
                    warnings.push(warning);
                    assert(warnings.deep_view() =~= chain_warnings + seq![missing_title_warning()]);
                }
                String::new()
            },
        };
        assert(warnings.deep_view() =~= warnings_of(read.version, read.manifest@, title));
        let unique_identifier = match resolve_unique_identifier(&package, &read.metadata) {
            Ok(unique_identifier) => unique_identifier,
            Err(e) => {
                return Err(e);
            },
        };
        let doc = EpubDoc {
            archive,
            package_path,
            base_path,
            version: read.version,
            unique_identifier,
            metadata: read.metadata,
            metadata_link: read.metadata_link,
            manifest: read.manifest,
            spine: read.spine,
            encryption,
            catalog: catalog.points,
            catalog_title,
            current_spine_index: 0,
            warnings,
        };
        Ok(doc)
    }

    /// Whether the archive holds an encryption document.
    pub fn has_encryption(&self) -> (r: bool)
        ensures
            r == archive_names(self.archive).contains("META-INF/encryption.xml"@),
    {
        archive_has(&self.archive, "META-INF/encryption.xml")
    }

    /// The metadata entries with the property `key`; `None` where there is
    /// none.
    pub fn get_metadata(&self, key: &str) -> (r: Option<Vec<MetadataItem>>)
        ensures
            r.deep_view() == unless_empty(
                self@.metadata.filter(|item: MetadataItemView| item.property == key@),
            ),
    {
        let mut found: Vec<MetadataItem> = Vec::new();
        let ghost wanted = |item: MetadataItemView| item.property == key@;
        let ghost all = self.metadata.deep_view();
        proof {
            assert(all.take(0) =~= Seq::<MetadataItemView>::empty());
            assert(found.deep_view() =~= Seq::<MetadataItemView>::empty());
        }
        let mut i: usize = 0;
        while i < self.metadata.len()
            invariant
                i <= self.metadata.len(),
                all == self.metadata.deep_view(),
                wanted == |item: MetadataItemView| item.property == key@,
                found.deep_view() == all.take(i as int).filter(wanted),
            decreases self.metadata.len() - i,
        {
            let ghost before = found.deep_view();
            proof {
                assert(all.take(i + 1) =~= all.take(i as int).push(self.metadata[i as int]@));
                all.take(i as int).lemma_filter_push(self.metadata[i as int]@, wanted);
            }
            if str_eq(self.metadata[i].property.as_str(), key) {
                let copy = self.metadata[i].clone();
                found.push(copy);
                assert(found.deep_view() =~= before.push(self.metadata[i as int]@));
            }
            i += 1;
        }
        proof {
            assert(all.take(i as int) =~= all);
        }
        if found.len() == 0 {
            None
        } else {
            Some(found)
        }
    }

    /// The values of the metadata entries with the property `key`; `None`
    /// where there is none.
    pub fn get_metadata_value(&self, key: &str) -> (r: Option<Vec<String>>)
        ensures
            r.deep_view() == unless_empty(values_of(self@.metadata, key@)),
    {
        let mut found: Vec<String> = Vec::new();
        let ghost wanted = |item: MetadataItemView| item.property == key@;
        let ghost value = |item: MetadataItemView| item.value;
        let ghost all = self.metadata.deep_view();
        proof {
            assert(all.take(0) =~= Seq::<MetadataItemView>::empty());
            assert(found.deep_view() =~= Seq::<Seq<char>>::empty());
            assert(all.take(0).filter(wanted).map_values(value) =~= Seq::<Seq<char>>::empty());
        }
        let mut i: usize = 0;
        while i < self.metadata.len()
            invariant
                i <= self.metadata.len(),
                all == self.metadata.deep_view(),
                wanted == |item: MetadataItemView| item.property == key@,
                value == |item: MetadataItemView| item.value,
                found.deep_view() == all.take(i as int).filter(wanted).map_values(value),
            decreases self.metadata.len() - i,
        {
            let ghost before = found.deep_view();
            proof {
                assert(all.take(i + 1) =~= all.take(i as int).push(self.metadata[i as int]@));
                all.take(i as int).lemma_filter_push(self.metadata[i as int]@, wanted);
            }
            if str_eq(self.metadata[i].property.as_str(), key) {
                let copy = self.metadata[i].value.clone();
                found.push(copy);
                proof {
                    assert(found.deep_view() =~= before.push(self.metadata[i as int]@.value));
                    assert(all.take(i as int).filter(wanted).push(self.metadata[i as int]@).map_values(
                        value,
                    ) =~= before.push(self.metadata[i as int]@.value));
                }
            }
            i += 1;
        }
        proof {
            assert(all.take(i as int) =~= all);
        }
        if found.len() == 0 {
            None
        } else {
            Some(found)
        }
    }

    /// The values of the required property `key`, or the error that the
    /// package lacks it.
    fn get_required(&self, key: &str) -> (r: Result<Vec<String>, EpubError>)
        ensures
            gives(r, required_values(self@.metadata, key@)),
    {
        match self.get_metadata_value(key) {
            Some(values) => Ok(values),
            None => Err(missing_element(key)),
        }
    }

    /// The titles of the publication.
    pub fn get_title(&self) -> (r: Result<Vec<String>, EpubError>)
        ensures
            gives(r, required_values(self@.metadata, "title"@)),
    {
        self.get_required("title")
    }

    /// The languages of the publication.
    pub fn get_language(&self) -> (r: Result<Vec<String>, EpubError>)
        ensures
            gives(r, required_values(self@.metadata, "language"@)),
    {
        self.get_required("language")
    }

    /// The identifiers of the publication.
    pub fn get_identifier(&self) -> (r: Result<Vec<String>, EpubError>)
        ensures
            gives(r, required_values(self@.metadata, "identifier"@)),
    {
        self.get_required("identifier")
    }

    /// The method with which the resource at `path` is encrypted, if it is.
    pub fn is_encryption_file(&self, path: &str) -> (r: Option<String>)
        ensures
            r.deep_view() == method_for(self@.encryption, path@),
    {
        match &self.encryption {
            None => None,
            Some(records) => {
                let ghost wanted = |record: EncryptionDataView| record.data == path@;
                let mut i: usize = 0;
                while i < records.len()
                    invariant
                        i <= records.len(),
                        self@.encryption == Some(records.deep_view()),
                        wanted == |record: EncryptionDataView| record.data == path@,
                        forall|j: int| 0 <= j < i ==> !wanted(#[trigger] records.deep_view()[j]),
                    decreases records.len() - i,
                {
                    if str_eq(records[i].data.as_str(), path) {
                        proof {
                            assert(wanted(records.deep_view()[i as int]));
                            lemma_first_match(records.deep_view(), wanted, i as int);
                        }
                        return Some(records[i].method.clone());
                    }
                    i += 1;
                }
                proof {
                    lemma_first_match(records.deep_view(), wanted, i as int);
                }
                None
            },
        }
    }

    /// Takes the obfuscation `method` off `data`. Only the two font
    /// obfuscations are known.
    pub fn auto_dencrypt(&self, method: &str, data: &[u8]) -> (r: Result<Vec<u8>, EpubError>)
        ensures
            gives_bytes(r, decrypted(method@, data@, self@.unique_identifier)),
    {
        if str_eq(method, "http://www.idpf.org/2008/embedding") {
            Ok(idpf_font_dencryption(data, self.unique_identifier.as_str()))
        } else if str_eq(method, "http://ns.adobe.com/pdf/enc#RC") {
            Ok(adobe_font_dencryption(data, self.unique_identifier.as_str()))
        } else {
            Err(EpubError::UnsupportedEncryptedMethod { method: owned(method) })
        }
    }

    /// The content of the resource at `path`, given the bytes `data` that
    /// the archive holds for it: the bytes themselves, or what is behind
    /// their obfuscation where an encryption record names the path.
    pub fn reveal_resource(&self, path: &str, data: Vec<u8>) -> (r: Result<Vec<u8>, EpubError>)
        ensures
            gives_bytes(r, content_of(self@, path@, data@)),
    {
        match self.is_encryption_file(path) {
            Some(method) => self.auto_dencrypt(method.as_str(), data.as_slice()),
            None => Ok(data),
        }
    }
}

/// The content of the resource that `archive` holds at `path`, for a
/// publication with the model `model`: the entry as it is read, its
/// obfuscation taken off where an encryption record names the path.
pub open spec fn resource_at(model: EpubDocView, archive: ArchiveView, path: Seq<char>) -> Result<
    Seq<u8>,
    Fault,
> {
    match entry_in(archive, path) {
        Err(fault) => Err(fault),
        Ok(data) => content_of(model, path, data),
    }
}

/// What fetching the resource with the id `id` gives, for a publication
/// with the model `model` that lies in `archive`: the content of the
/// archive entry at the path of the manifest entry, its obfuscation taken
/// off, and the media type of the manifest entry.
///
/// An id that the manifest does not hold and a path that the archive does
/// not name are failures of their own; an entry that the archive names but
/// does not hand out is a failure of the archive, and one that cannot be
/// read to its end is a failure of reading.
pub open spec fn resource_of(
    model: EpubDocView,
    archive: zip::ZipArchive<std::io::Cursor<Vec<u8>>>,
    id: Seq<char>,
) -> Result<(Seq<u8>, Seq<char>), Fault> {
    match find_item(model.manifest, id) {
        None => Err(Fault::ResourceIdNotExist { id }),
        Some(item) => if !archive_names(archive).contains(item.path) {
            Err(Fault::ResourceNotFound { resource: item.path })
        } else {
            match resource_at(model, held(archive), item.path) {
                Ok(data) => Ok((data, item.mime)),
                Err(fault) => Err(fault),
            }
        },
    }
}

/// Whether `r` is what fetching the resource with the id `id` gives.
pub open spec fn fetched(
    model: EpubDocView,
    archive: zip::ZipArchive<std::io::Cursor<Vec<u8>>>,
    id: Seq<char>,
    r: Result<(Vec<u8>, String), EpubError>,
) -> bool {
    match resource_of(model, archive, id) {
        Ok((content, media_type)) => r matches Ok((data, mime)) && data@ == content && mime@
            == media_type,
        Err(fault) => r matches Err(e) && e@ == fault,
    }
}

/// Whether `r` is what fetching the resource with the id `id` gives where
/// a failure shows as nothing.
pub open spec fn fetched_if_any(
    model: EpubDocView,
    archive: zip::ZipArchive<std::io::Cursor<Vec<u8>>>,
    id: Seq<char>,
    r: Option<(Vec<u8>, String)>,
) -> bool {
    match resource_of(model, archive, id) {
        Ok((content, media_type)) => r matches Some((data, mime)) && data@ == content && mime@
            == media_type,
        Err(_) => r is None,
    }
}

impl EpubDoc {
    /// Fetches the resource with the id `id`: its content and its media
    /// type.
    pub fn get_manifest_item(&mut self, id: &str) -> (r: Result<(Vec<u8>, String), EpubError>)
        ensures
            final(self)@ == old(self)@,
            held(final(self).archive) == held(old(self).archive),
            fetched(old(self)@, old(self).archive, id@, r),
    {
        let (path, mime) = match self.manifest.get(id) {
            Some(item) => (item.path.clone(), item.mime.clone()),
            None => {
                return Err(EpubError::ResourceIdNotExist { id: owned(id) });
            },
        };
        if !archive_has(&self.archive, path.as_str()) {
            return Err(EpubError::ResourceNotFound { resource: path });
        }
        let data = match get_file_in_zip_archive(&mut self.archive, path.as_str()) {
            Ok(data) => data,
            Err(e) => {
                return Err(e);
            },
        };
        match self.reveal_resource(path.as_str(), data) {
            Ok(content) => Ok((content, mime)),
            Err(e) => Err(e),
        }
    }

    /// Fetches the resource that lies at `path`: that of the first manifest
    /// entry with this path.
    pub fn get_manifest_item_by_path(&mut self, path: &str) -> (r: Result<
        (Vec<u8>, String),
        EpubError,
    >)
        ensures
            final(self)@ == old(self)@,
            held(final(self).archive) == held(old(self).archive),
            match first_of(old(self)@.manifest.filter(|item: ManifestItemView| item.path == path@)) {
                Some(item) => fetched(old(self)@, old(self).archive, item.id, r),
                None => r matches Err(e) && e@ == (Fault::ResourceNotFound { resource: path@ }),
            },
    {
        let ghost wanted = |item: ManifestItemView| item.path == path@;
        let mut i: usize = 0;
        while i < self.manifest.items.len()
            invariant
                i <= self.manifest.items.len(),
                *self == *old(self),
                wanted == |item: ManifestItemView| item.path == path@,
                forall|j: int| 0 <= j < i ==> !wanted(#[trigger] self.manifest@[j]),
            decreases self.manifest.items.len() - i,
        {
            if str_eq(self.manifest.items[i].path.as_str(), path) {
                proof {
                    assert(wanted(self.manifest@[i as int]));
                    lemma_first_match(self.manifest@, wanted, i as int);
                }
                let id = self.manifest.items[i].id.clone();
                return self.get_manifest_item(id.as_str());
            }
            i += 1;
        }
        proof {
            lemma_first_match(self.manifest@, wanted, i as int);
        }
        Err(EpubError::ResourceNotFound { resource: owned(path) })
    }

    /// Fetches the first resource with a media type among
    /// `supported_format` on the fallback chain that starts at `id`.
    pub fn get_manifest_item_with_fallback(&mut self, id: &str, supported_format: Vec<&str>) -> (r:
        Result<(Vec<u8>, String), EpubError>)
        ensures
            final(self)@ == old(self)@,
            held(final(self).archive) == held(old(self).archive),
            match pick(old(self)@.manifest, id@, supported_format.deep_view(), Seq::empty()) {
                Pick::Found(found) => fetched(old(self)@, old(self).archive, found, r),
                Pick::Unknown(unknown) => r matches Err(e) && e@ == (
                Fault::ResourceIdNotExist { id: unknown }),
                Pick::Exhausted => r matches Err(e) && e@ == Fault::NoSupportedFileFormat,
            },
    {
        match pick_supported(&self.manifest, id, &supported_format) {
            Picked::Found(found) => self.get_manifest_item(found.as_str()),
            Picked::Unknown(unknown) => Err(EpubError::ResourceIdNotExist { id: unknown }),
            Picked::Exhausted => Err(EpubError::NoSupportedFileFormat),
        }
    }

    /// Fetches the resource of the spine entry at `index`; a failure shows
    /// as nothing. The cursor stays where it is.
    fn fetch_spine_entry(&mut self, index: usize) -> (r: Option<(Vec<u8>, String)>)
        requires
            index < old(self).spine.len(),
        ensures
            final(self)@ == old(self)@,
            held(final(self).archive) == held(old(self).archive),
            fetched_if_any(
                old(self)@,
                old(self).archive,
                old(self)@.spine[index as int].idref,
                r,
            ),
    {
        let manifest_id = self.spine[index].idref.clone();
        match self.get_manifest_item(manifest_id.as_str()) {
            Ok(pair) => Some(pair),
            Err(_) => None,
        }
    }

    /// Jumps to the spine entry at `index`, linear or not, and fetches its
    /// resource. An index behind the spine leaves the cursor where it is
    /// and gives nothing.
    pub fn navigate_by_spine_index(&mut self, index: usize) -> (r: Option<(Vec<u8>, String)>)
        ensures
            held(final(self).archive) == held(old(self).archive),
            index >= old(self)@.spine.len() ==> r is None && final(self)@ == old(self)@,
            index < old(self)@.spine.len() ==> final(self)@ == (EpubDocView {
                current_spine_index: index,
                ..old(self)@
            }) && fetched_if_any(
                final(self)@,
                old(self).archive,
                old(self)@.spine[index as int].idref,
                r,
            ),
    {
        if index >= self.spine.len() {
            return None;
        }
        self.current_spine_index = index;
        self.fetch_spine_entry(index)
    }

    /// Goes back to the nearest linear entry before the current one and
    /// fetches its resource. Where the current entry is not linear, or no
    /// linear entry lies before it, the cursor stays and nothing is given.
    pub fn spine_prev(&mut self) -> (r: Option<(Vec<u8>, String)>)
        ensures
            held(final(self).archive) == held(old(self).archive),
            match prev_of(old(self)@.spine, old(self)@.current_spine_index as int) {
                None => r is None && final(self)@ == old(self)@,
                Some(to) => final(self)@ == (EpubDocView {
                    current_spine_index: to as usize,
                    ..old(self)@
                }) && fetched_if_any(
                    final(self)@,
                    old(self).archive,
                    old(self)@.spine[to].idref,
                    r,
                ),
            },
    {
        match prev_spine_index(&self.spine, self.current_spine_index) {
            None => None,
            Some(to) => {
                self.current_spine_index = to;
                self.fetch_spine_entry(to)
            },
        }
    }

    /// Goes on to the nearest linear entry behind the current one and
    /// fetches its resource. Where the current entry is not linear, or no
    /// linear entry lies behind it, the cursor stays and nothing is given.
    pub fn spine_next(&mut self) -> (r: Option<(Vec<u8>, String)>)
        ensures
            held(final(self).archive) == held(old(self).archive),
            match next_of(old(self)@.spine, old(self)@.current_spine_index as int) {
                None => r is None && final(self)@ == old(self)@,
                Some(to) => final(self)@ == (EpubDocView {
                    current_spine_index: to as usize,
                    ..old(self)@
                }) && fetched_if_any(
                    final(self)@,
                    old(self).archive,
                    old(self)@.spine[to].idref,
                    r,
                ),
            },
    {
        match next_spine_index(&self.spine, self.current_spine_index) {
            None => None,
            Some(to) => {
                self.current_spine_index = to;
                self.fetch_spine_entry(to)
            },
        }
    }

    /// Fetches the resource of the current spine entry, without moving the
    /// cursor. An empty spine gives nothing.
    pub fn spine_current(&mut self) -> (r: Option<(Vec<u8>, String)>)
        ensures
            final(self)@ == old(self)@,
            held(final(self).archive) == held(old(self).archive),
            old(self)@.current_spine_index >= old(self)@.spine.len() ==> r is None,
            old(self)@.current_spine_index < old(self)@.spine.len() ==> fetched_if_any(
                old(self)@,
                old(self).archive,
                old(self)@.spine[old(self)@.current_spine_index as int].idref,
                r,
            ),
    {
        if self.current_spine_index >= self.spine.len() {
            return None;
        }
        self.fetch_spine_entry(self.current_spine_index)
    }
}

impl EpubDoc {
    /// Reads the resource that the archive holds at `path`, and takes its
    /// obfuscation off where an encryption record names the path.
    pub fn read_resource(&mut self, path: &str) -> (r: Result<Vec<u8>, EpubError>)
        ensures
            final(self)@ == old(self)@,
            held(final(self).archive) == held(old(self).archive),
            gives_bytes(r, resource_at(old(self)@, held(old(self).archive), path@)),
    {
        let data = match get_file_in_zip_archive(&mut self.archive, path) {
            Ok(data) => data,
            Err(e) => {
                return Err(e);
            },
        };
        self.reveal_resource(path, data)
    }
}

} // verus!
