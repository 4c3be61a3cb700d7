//! The ZIP container of a publication, read and written in memory through
//! the `zip` crate.

use vstd::prelude::*;

verus! {

/// The standard in-memory cursor; opaque to the verifier.
#[verifier::external_type_specification]
#[verifier::external_body]
#[verifier::reject_recursive_types(T)]
pub struct ExCursor<T>(std::io::Cursor<T>);

/// An archive opened for reading; opaque to the verifier.
#[verifier::external_type_specification]
#[verifier::external_body]
#[verifier::reject_recursive_types(R)]
pub struct ExZipArchive<R>(zip::ZipArchive<R>);

/// An archive that is being written in memory: a `zip::ZipWriter` over a
/// cursor, opaque to the verifier.
#[verifier::external_body]
pub struct ArchiveWriter {
    inner: zip::ZipWriter<std::io::Cursor<Vec<u8>>>,
}

/// The names of an archive that was opened for reading: those that
/// `ZipArchive::index_for_name` finds.
pub uninterp spec fn archive_names(archive: zip::ZipArchive<std::io::Cursor<Vec<u8>>>) -> Set<
    Seq<char>,
>;

/// The names of an archive that was opened for reading whose entry
/// `ZipArchive::by_name` hands out.
pub uninterp spec fn archive_opened(archive: zip::ZipArchive<std::io::Cursor<Vec<u8>>>) -> Set<
    Seq<char>,
>;

/// The readable entries of an archive that was opened for reading: for
/// each name whose entry `ZipArchive::by_name` hands out and reading gives
/// to its end, the bytes that reading gives. The archive lies in memory, so
/// reading an entry gives the same whenever it is done.
pub uninterp spec fn archive_files(archive: zip::ZipArchive<std::io::Cursor<Vec<u8>>>) -> Map<
    Seq<char>,
    Seq<u8>,
>;

/// The entries that were written to an archive so far: name, content, and
/// whether the entry is deflated.
pub uninterp spec fn written_entries(writer: ArchiveWriter) -> Seq<
    (Seq<char>, Seq<u8>, bool),
>;

/// The bytes of the archive that holds `entries`, as `ZipWriter::finish`
/// leaves them; `None` where it cannot finish the archive.
pub uninterp spec fn archive_bytes(entries: Seq<(Seq<char>, Seq<u8>, bool)>) -> Option<Seq<u8>>;

/// How adding an entry to an archive ends.
pub ghost enum AddOutcome {
    /// The archive has the entry.
    Added,
    /// The archive refuses the entry.
    Refused,
    /// The content of the entry cannot be written.
    Unwritten,
}

/// How adding the entry named `name` with the content `data` ends for an
/// archive that holds `entries`: whether `ZipWriter::start_file` takes the
/// name and writing takes the content.
pub uninterp spec fn add_outcome(
    entries: Seq<(Seq<char>, Seq<u8>, bool)>,
    name: Seq<char>,
    data: Seq<u8>,
    deflated: bool,
) -> AddOutcome;

/// How an entry of an archive is compressed.
#[derive(Clone, Copy, Debug, PartialEq, Eq, Structural)]
pub enum Compression {
    /// Not at all.
    Stored,
    /// With deflate.
    Deflated,
    /// In any other way.
    Other,
}

/// The name of an entry and its compression, as a value.
pub ghost struct EntryInfoView {
    pub file: Seq<char>,
    pub compression: Compression,
    pub method: Seq<char>,
}

/// The entries of an archive that was opened for reading, by index: what
/// `ZipArchive::by_index` tells of each entry that it hands out, and
/// `None` for an entry that it does not hand out.
pub uninterp spec fn archive_entries(archive: zip::ZipArchive<std::io::Cursor<Vec<u8>>>) -> Seq<
    Option<EntryInfoView>,
>;

/// What an archive holds, as a value.
pub ghost struct ArchiveView {
    /// The names that are found.
    pub names: Set<Seq<char>>,
    /// The names whose entry is handed out.
    pub opened: Set<Seq<char>>,
    /// The readable entries: name and content.
    pub files: Map<Seq<char>, Seq<u8>>,
    /// The entries by index.
    pub entries: Seq<Option<EntryInfoView>>,
}

/// What `archive` holds.
pub open spec fn held(archive: zip::ZipArchive<std::io::Cursor<Vec<u8>>>) -> ArchiveView {
    ArchiveView {
        names: archive_names(archive),
        opened: archive_opened(archive),
        files: archive_files(archive),
        entries: archive_entries(archive),
    }
}

/// What the archive holds that `ZipArchive::new` makes of `bytes`; `None`
/// where it makes none of them.
pub uninterp spec fn archive_of(bytes: Seq<u8>) -> Option<ArchiveView>;

/// The name of an entry and its compression.
#[derive(Debug)]
pub struct EntryInfo {
    /// The name of the entry.
    pub file: String,
    /// How the entry is compressed.
    pub compression: Compression,
    /// The name of the compression method.
    pub method: String,
}

impl DeepView for EntryInfo {
    type V = EntryInfoView;

    open spec fn deep_view(&self) -> EntryInfoView {
        EntryInfoView { file: self.file@, compression: self.compression, method: self.method@ }
    }
}

/// Calls `ZipArchive::new` on a cursor over `bytes`. The bytes alone
/// decide whether an archive is made of them and what it holds.
#[verifier::external_body]
pub(crate) fn archive_open(bytes: Vec<u8>) -> (r: Result<
    zip::ZipArchive<std::io::Cursor<Vec<u8>>>,
    zip::result::ZipError,
>)
    ensures
        r is Ok <==> archive_of(bytes@) is Some,
        r matches Ok(archive) ==> archive_of(bytes@) == Some(held(archive)),
{
    zip::ZipArchive::new(std::io::Cursor::new(bytes))
}

/// Calls `ZipArchive::len`: the number of entries.
#[verifier::external_body]
pub(crate) fn archive_len(archive: &zip::ZipArchive<std::io::Cursor<Vec<u8>>>) -> (n: usize)
    ensures
        n == archive_entries(*archive).len(),
{
    archive.len()
}

/// Calls `ZipArchive::by_index`, then `ZipFile::name` and
/// `ZipFile::compression`. The entry at `index` is handed out where the
/// archive has one that can be handed out. The archive keeps its entries.
#[verifier::external_body]
pub(crate) fn archive_entry(archive: &mut zip::ZipArchive<std::io::Cursor<Vec<u8>>>, index: usize) -> (r:
    Result<EntryInfo, zip::result::ZipError>)
    ensures
        held(*final(archive)) == held(*old(archive)),
        r is Ok <==> index < archive_entries(*old(archive)).len() && archive_entries(
            *old(archive),
        )[index as int] is Some,
        r matches Ok(entry) ==> archive_entries(*old(archive))[index as int] == Some(
            entry.deep_view(),
        ),
{
    let file = archive.by_index(index)?;
    let compression = match file.compression() {
        zip::CompressionMethod::Stored => Compression::Stored,
        zip::CompressionMethod::Deflated => Compression::Deflated,
        _ => Compression::Other,
    };
    Ok(EntryInfo { file: file.name()?.into_owned(), compression, method: file.compression().to_string() })
}

/// Calls `ZipArchive::index_for_name`: whether the archive has an entry
/// named `name`.
#[verifier::external_body]
pub(crate) fn archive_has(archive: &zip::ZipArchive<std::io::Cursor<Vec<u8>>>, name: &str) -> (r: bool)
    ensures
        r == archive_names(*archive).contains(name@),
{
    archive.index_for_name(name).is_some()
}

/// Calls `ZipArchive::by_name` and reads the entry to its end. The entry
/// is handed out exactly for the names of such entries; reading succeeds
/// exactly for the readable entries, and what is read is the content of
/// the entry named `name`; the archive keeps its entries. The outer error
/// is that of the archive, the inner one that of reading.
#[verifier::external_body]
pub(crate) fn archive_read(archive: &mut zip::ZipArchive<std::io::Cursor<Vec<u8>>>, name: &str) -> (r:
    Result<Result<Vec<u8>, std::io::Error>, zip::result::ZipError>)
    ensures
        held(*final(archive)) == held(*old(archive)),
        r is Ok <==> archive_opened(*old(archive)).contains(name@),
        r matches Ok(Ok(_)) <==> archive_files(*old(archive)).contains_key(name@),
        r matches Ok(Ok(data)) ==> data@ == archive_files(*old(archive))[name@],
{
    let mut file = archive.by_name(name)?;
    let mut data = Vec::new();
    Ok(std::io::Read::read_to_end(&mut file, &mut data).map(|_| data))
}

/// Calls `ZipWriter::new` on an empty cursor: an archive without entries.
#[verifier::external_body]
pub(crate) fn writer_open() -> (writer: ArchiveWriter)
    ensures
        written_entries(writer) == Seq::<(Seq<char>, Seq<u8>, bool)>::empty(),
{
    ArchiveWriter { inner: zip::ZipWriter::new(std::io::Cursor::new(Vec::new())) }
}

/// Calls `ZipWriter::start_file` with the compression method chosen by
/// `deflated`, then writes `data`. What the archive holds and the entry
/// decide how this ends; where both calls succeed the archive has one more
/// entry. The outer error is that of the archive, the inner one that of
/// writing.
#[verifier::external_body]
pub(crate) fn writer_add(
    writer: &mut ArchiveWriter,
    name: &str,
    data: &[u8],
    deflated: bool,
) -> (r: Result<Result<(), std::io::Error>, zip::result::ZipError>)
    ensures
        match add_outcome(written_entries(*old(writer)), name@, data@, deflated) {
            AddOutcome::Added => r matches Ok(Ok(())) && written_entries(*final(writer))
                == written_entries(*old(writer)).push((name@, data@, deflated)),
            AddOutcome::Refused => r is Err,
            AddOutcome::Unwritten => r matches Ok(Err(_)),
        },
{
    let method = if deflated {
        zip::CompressionMethod::Deflated
    } else {
        zip::CompressionMethod::Stored
    };
    let options = zip::write::SimpleFileOptions::default().compression_method(method);
    writer.inner.start_file(name, options)?;
    Ok(std::io::Write::write_all(&mut writer.inner, data))
}

/// Calls `ZipWriter::finish` and takes the bytes out of the cursor. The
/// entries decide whether the archive can be finished, and its bytes.
#[verifier::external_body]
pub(crate) fn writer_finish(writer: ArchiveWriter) -> (r: Result<
    Vec<u8>,
    zip::result::ZipError,
>)
    ensures
        r is Ok <==> archive_bytes(written_entries(writer)) is Some,
        r matches Ok(bytes) ==> archive_bytes(written_entries(writer)) == Some(bytes@),
{
    writer.inner.finish().map(|cursor| cursor.into_inner())
}

} // verus!
