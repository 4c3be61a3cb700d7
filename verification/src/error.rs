//! The failures that reading or building a publication can end in.

use crate::text::{concat2, concat3, format_decimal};
use vstd::prelude::*;
use vstd::std_specs::cmp::PartialEqSpec;
use vstd::std_specs::cmp::PartialEqSpecImpl;
use vstd::std_specs::convert::FromSpecImpl;

verus! {

/// The archive codec's error type; opaque to the verifier.
#[verifier::external_type_specification]
#[verifier::external_body]
pub struct ExZipError(zip::result::ZipError);

/// The XML tokenizer's error type; opaque to the verifier.
#[verifier::external_type_specification]
#[verifier::external_body]
pub struct ExXmlError(quick_xml::Error);

/// The standard I/O error type; opaque to the verifier.
#[verifier::external_type_specification]
#[verifier::external_body]
pub struct ExIoError(std::io::Error);

/// The standard UTF-8 decoding error; opaque to the verifier.
#[verifier::external_type_specification]
#[verifier::external_body]
pub struct ExFromUtf8Error(std::string::FromUtf8Error);

/// The standard UTF-16 decoding error; opaque to the verifier.
#[verifier::external_type_specification]
#[verifier::external_body]
pub struct ExFromUtf16Error(std::string::FromUtf16Error);

/// The directory walker's error type; opaque to the verifier.
#[verifier::external_type_specification]
#[verifier::external_body]
pub struct ExWalkDirError(walkdir::Error);

/// The text that `walkdir::Error` displays. Nothing is claimed of it.
#[verifier::external_body]
fn walkdir_error_text(source: &walkdir::Error) -> (text: String) {
    format!("{}", source)
}

/// The text that `zip::result::ZipError` displays. Nothing is claimed of it.
#[verifier::external_body]
fn archive_error_text(source: &zip::result::ZipError) -> (text: String) {
    format!("{}", source)
}

/// The text that `quick_xml::Error` displays. Nothing is claimed of it.
#[verifier::external_body]
pub(crate) fn xml_error_text(source: &quick_xml::Error) -> (text: String) {
    format!("{}", source)
}

/// The text that `std::io::Error` displays. Nothing is claimed of it.
#[verifier::external_body]
fn io_error_text(source: &std::io::Error) -> (text: String) {
    format!("{}", source)
}

/// The text that `std::string::FromUtf8Error` displays. Nothing is claimed of it.
#[verifier::external_body]
fn utf8_error_text(source: &std::string::FromUtf8Error) -> (text: String) {
    format!("{}", source)
}

/// The text that `std::string::FromUtf16Error` displays. Nothing is claimed of it.
#[verifier::external_body]
fn utf16_error_text(source: &std::string::FromUtf16Error) -> (text: String) {
    format!("{}", source)
}

/// What can go wrong while a publication is being built.
#[derive(Debug)]
pub enum EpubBuilderError {
    /// The path of a manifest entry begins with `../`.
    IllegalManifestPath { manifest_id: String },
    /// A rootfile path is absolute or begins with `../`.
    IllegalRootfilePath,
    /// The MathML source of a block is not well-formed.
    InvalidMathMLFormat { error: String },
    /// A footnote points before the first or behind the last character.
    InvalidFootnoteLocate { max_locate: usize },
    /// A content document was given a target without a parent directory.
    InvalidTargetPath { target_path: String },
    /// The fallbacks of the manifest form a cycle.
    ManifestCircularReference { fallback_chain: String },
    /// A fallback names an id that the manifest does not hold.
    ManifestNotFound { manifest_id: String },
    /// A block lacks data that its kind requires.
    MissingNecessaryBlockData { block_type: String, missing_data: String },
    /// Title, language, or the identifier with id `pub-id` is missing.
    MissingNecessaryMetadata,
    /// The table of contents is empty.
    NavigationInfoUninitalized,
    /// No rootfile was added.
    MissingRootfile,
    /// A media file is of another kind than its block accepts.
    NotExpectedFileFormat,
    /// The source of a resource is not a file.
    TargetIsNotFile { target_path: String },
    /// The manifest does not hold exactly one entry with the `nav` property.
    TooManyNavFlags,
    /// The kind of a file could not be told from its content.
    UnknownFileFormat { file_path: String },
}

impl EpubBuilderError {
    /// The message of this error.
    pub open spec fn message(self) -> Seq<char> {
        match self {
            EpubBuilderError::IllegalManifestPath { manifest_id } => "A manifest with id '"@
                + manifest_id@ + "' should not use a relative path starting with '../'."@,
            EpubBuilderError::IllegalRootfilePath =>
                "A rootfile path should be a relative path and not start with '../'."@,
            EpubBuilderError::InvalidMathMLFormat { error } => "Invalid MathML format: "@ + error@
                + "."@,
            EpubBuilderError::InvalidFootnoteLocate { max_locate } =>
                "The footnote locate must be in the range of [1, "@ + crate::text::decimal(
                    max_locate as nat,
                ) + "]."@,
            EpubBuilderError::InvalidTargetPath { target_path } => "The target path '"@
                + target_path@ + "' is invalid."@,
            EpubBuilderError::ManifestCircularReference { fallback_chain } =>
                "Circular reference detected in fallback chain for '"@ + fallback_chain@ + "'."@,
            EpubBuilderError::ManifestNotFound { manifest_id } => "Fallback resource '"@
                + manifest_id@ + "' does not exist in manifest."@,
            EpubBuilderError::MissingNecessaryBlockData { block_type, missing_data } => "The block '"@
                + block_type@ + "' is missing necessary data: "@ + missing_data@,
            EpubBuilderError::MissingNecessaryMetadata =>
                "Requires at least one 'title', 'language', and 'identifier' with id 'pub-id'."@,
            EpubBuilderError::NavigationInfoUninitalized => "Navigation information is not set."@,
            EpubBuilderError::MissingRootfile => "Need at least one rootfile."@,
            EpubBuilderError::NotExpectedFileFormat => "The file format is not current block expected."@,
            EpubBuilderError::TargetIsNotFile { target_path } => "Expect a file, but '"@
                + target_path@ + "' is not a file."@,
            EpubBuilderError::TooManyNavFlags =>
                "There are too many items with 'nav' property in the manifest."@,
            EpubBuilderError::UnknownFileFormat { file_path } => "Unable to analyze the file '"@
                + file_path@ + "' type."@,
        }
    }

    /// The message of this error, as text.
    pub fn to_string(&self) -> (text: String)
        ensures
            text@ == self.message(),
    {
        match self {
            EpubBuilderError::IllegalManifestPath { manifest_id } => concat3(
                "A manifest with id '",
                manifest_id.as_str(),
                "' should not use a relative path starting with '../'.",
            ),
            EpubBuilderError::IllegalRootfilePath => crate::text::owned(
                "A rootfile path should be a relative path and not start with '../'.",
            ),
            EpubBuilderError::InvalidMathMLFormat { error } => concat3(
                "Invalid MathML format: ",
                error.as_str(),
                ".",
            ),
            EpubBuilderError::InvalidFootnoteLocate { max_locate } => {
                let number = format_decimal(*max_locate);
                concat3("The footnote locate must be in the range of [1, ", number.as_str(), "].")
            },
            EpubBuilderError::InvalidTargetPath { target_path } => concat3(
                "The target path '",
                target_path.as_str(),
                "' is invalid.",
            ),
            EpubBuilderError::ManifestCircularReference { fallback_chain } => concat3(
                "Circular reference detected in fallback chain for '",
                fallback_chain.as_str(),
                "'.",
            ),
            EpubBuilderError::ManifestNotFound { manifest_id } => concat3(
                "Fallback resource '",
                manifest_id.as_str(),
                "' does not exist in manifest.",
            ),
            EpubBuilderError::MissingNecessaryBlockData { block_type, missing_data } => {
                let head = concat3("The block '", block_type.as_str(), "' is missing necessary data: ");
                concat2(head.as_str(), missing_data.as_str())
            },
            EpubBuilderError::MissingNecessaryMetadata => crate::text::owned(
                "Requires at least one 'title', 'language', and 'identifier' with id 'pub-id'.",
            ),
            EpubBuilderError::NavigationInfoUninitalized => crate::text::owned(
                "Navigation information is not set.",
            ),
            EpubBuilderError::MissingRootfile => crate::text::owned("Need at least one rootfile."),
            EpubBuilderError::NotExpectedFileFormat => crate::text::owned(
                "The file format is not current block expected.",
            ),
            EpubBuilderError::TargetIsNotFile { target_path } => concat3(
                "Expect a file, but '",
                target_path.as_str(),
                "' is not a file.",
            ),
            EpubBuilderError::TooManyNavFlags => crate::text::owned(
                "There are too many items with 'nav' property in the manifest.",
            ),
            EpubBuilderError::UnknownFileFormat { file_path } => concat3(
                "Unable to analyze the file '",
                file_path.as_str(),
                "' type.",
            ),
        }
    }
}

impl PartialEq for EpubBuilderError {
    fn eq(&self, other: &Self) -> (r: bool) {
        match (self, other) {
            (
                EpubBuilderError::IllegalManifestPath { manifest_id: a },
                EpubBuilderError::IllegalManifestPath { manifest_id: b },
            ) => *a == *b,
            (EpubBuilderError::IllegalRootfilePath, EpubBuilderError::IllegalRootfilePath) => true,
            (
                EpubBuilderError::InvalidMathMLFormat { error: a },
                EpubBuilderError::InvalidMathMLFormat { error: b },
            ) => *a == *b,
            (
                EpubBuilderError::InvalidFootnoteLocate { max_locate: a },
                EpubBuilderError::InvalidFootnoteLocate { max_locate: b },
            ) => *a == *b,
            (
                EpubBuilderError::InvalidTargetPath { target_path: a },
                EpubBuilderError::InvalidTargetPath { target_path: b },
            ) => *a == *b,
            (
                EpubBuilderError::ManifestCircularReference { fallback_chain: a },
                EpubBuilderError::ManifestCircularReference { fallback_chain: b },
            ) => *a == *b,
            (
                EpubBuilderError::ManifestNotFound { manifest_id: a },
                EpubBuilderError::ManifestNotFound { manifest_id: b },
            ) => *a == *b,
            (
                EpubBuilderError::MissingNecessaryBlockData { block_type: a, missing_data: c },
                EpubBuilderError::MissingNecessaryBlockData { block_type: b, missing_data: d },
            ) => *a == *b && *c == *d,
            (
                EpubBuilderError::MissingNecessaryMetadata,
                EpubBuilderError::MissingNecessaryMetadata,
            ) => true,
            (
                EpubBuilderError::NavigationInfoUninitalized,
                EpubBuilderError::NavigationInfoUninitalized,
            ) => true,
            (EpubBuilderError::MissingRootfile, EpubBuilderError::MissingRootfile) => true,
            (EpubBuilderError::NotExpectedFileFormat, EpubBuilderError::NotExpectedFileFormat) => true,
            (
                EpubBuilderError::TargetIsNotFile { target_path: a },
                EpubBuilderError::TargetIsNotFile { target_path: b },
            ) => *a == *b,
            (EpubBuilderError::TooManyNavFlags, EpubBuilderError::TooManyNavFlags) => true,
            (
                EpubBuilderError::UnknownFileFormat { file_path: a },
                EpubBuilderError::UnknownFileFormat { file_path: b },
            ) => *a == *b,
            _ => false,
        }
    }
}

impl PartialEqSpecImpl for EpubBuilderError {
    open spec fn obeys_eq_spec() -> bool {
        true
    }

    open spec fn eq_spec(&self, other: &Self) -> bool {
        match (self, other) {
            (
                EpubBuilderError::IllegalManifestPath { manifest_id: a },
                EpubBuilderError::IllegalManifestPath { manifest_id: b },
            ) => a@ == b@,
            (EpubBuilderError::IllegalRootfilePath, EpubBuilderError::IllegalRootfilePath) => true,
            (
                EpubBuilderError::InvalidMathMLFormat { error: a },
                EpubBuilderError::InvalidMathMLFormat { error: b },
            ) => a@ == b@,
            (
                EpubBuilderError::InvalidFootnoteLocate { max_locate: a },
                EpubBuilderError::InvalidFootnoteLocate { max_locate: b },
            ) => *a == *b,
            (
                EpubBuilderError::InvalidTargetPath { target_path: a },
                EpubBuilderError::InvalidTargetPath { target_path: b },
            ) => a@ == b@,
            (
                EpubBuilderError::ManifestCircularReference { fallback_chain: a },
                EpubBuilderError::ManifestCircularReference { fallback_chain: b },
            ) => a@ == b@,
            (
                EpubBuilderError::ManifestNotFound { manifest_id: a },
                EpubBuilderError::ManifestNotFound { manifest_id: b },
            ) => a@ == b@,
            (
                EpubBuilderError::MissingNecessaryBlockData { block_type: a, missing_data: c },
                EpubBuilderError::MissingNecessaryBlockData { block_type: b, missing_data: d },
            ) => a@ == b@ && c@ == d@,
            (
                EpubBuilderError::MissingNecessaryMetadata,
                EpubBuilderError::MissingNecessaryMetadata,
            ) => true,
            (
                EpubBuilderError::NavigationInfoUninitalized,
                EpubBuilderError::NavigationInfoUninitalized,
            ) => true,
            (EpubBuilderError::MissingRootfile, EpubBuilderError::MissingRootfile) => true,
            (EpubBuilderError::NotExpectedFileFormat, EpubBuilderError::NotExpectedFileFormat) => true,
            (
                EpubBuilderError::TargetIsNotFile { target_path: a },
                EpubBuilderError::TargetIsNotFile { target_path: b },
            ) => a@ == b@,
            (EpubBuilderError::TooManyNavFlags, EpubBuilderError::TooManyNavFlags) => true,
            (
                EpubBuilderError::UnknownFileFormat { file_path: a },
                EpubBuilderError::UnknownFileFormat { file_path: b },
            ) => a@ == b@,
            _ => false,
        }
    }
}

/// What can go wrong while a publication is read or built.
#[derive(Debug)]
#[allow(inconsistent_fields)]
pub enum EpubError {
    /// The archive codec failed.
    ArchiveError { source: zip::result::ZipError },
    /// There were fewer than four bytes to decode.
    EmptyDataError,
    /// The builder refused its input.
    EpubBuilderError { source: EpubBuilderError },
    /// The XML tokenizer ended without a root element.
    FailedParsingXml,
    /// Reading bytes failed.
    IOError { source: std::io::Error },
    /// An element lacks an attribute that it must have.
    MissingRequiredAttribute { tag: String, attribute: String },
    /// A lock was poisoned.
    MutexError,
    /// The container lacks a file that it must have.
    NonCanonicalEpub { expected_file: String },
    /// A document lacks an element that it must have.
    NonCanonicalFile { tag: String },
    /// No entry of a fallback chain has an accepted media type.
    NoSupportedFileFormat,
    /// A relative reference leaves the container.
    RealtiveLinkLeakage { path: String },
    /// The manifest holds no entry with this id.
    ResourceIdNotExist { id: String },
    /// The container holds no resource at this path.
    ResourceNotFound { resource: String },
    /// Neither the version attribute nor the package's shape tells the version.
    UnrecognizedEpubVersion,
    /// A resource is encrypted with a method other than the two font obfuscations.
    UnsupportedEncryptedMethod { method: String },
    /// An archive entry is neither stored nor deflated.
    UnusableCompressionMethod { file: String, method: String },
    /// The bytes are not UTF-8.
    Utf8DecodeError { source: std::string::FromUtf8Error },
    /// The bytes are not UTF-16.
    Utf16DecodeError { source: std::string::FromUtf16Error },
    /// Walking a directory failed.
    WalkDirError { source: walkdir::Error },
    /// The XML tokenizer failed.
    QuickXmlError { source: quick_xml::Error },
}

impl EpubError {
    /// Whether `text` is a message of this error. Where the error wraps one
    /// of another library, only the words in front of that library's own
    /// text are fixed.
    pub open spec fn describes(self, text: Seq<char>) -> bool {
        match self {
            EpubError::ArchiveError { .. } => "Archive error: "@.is_prefix_of(text),
            EpubError::EmptyDataError => text == "Decode error: The data is empty."@,
            EpubError::EpubBuilderError { source } => text == "Epub builder error: "@
                + source.message(),
            EpubError::FailedParsingXml => text
                == "Failed parsing XML error: Unknown problems occurred during XML parsing, causing parsing failure."@,
            EpubError::IOError { .. } => "IO error: "@.is_prefix_of(text),
            EpubError::MissingRequiredAttribute { tag, attribute } => text
                == "Missing required attribute: The \""@ + attribute@
                + "\" attribute is a must attribute for the \""@ + tag@ + "\" element."@,
            EpubError::MutexError => text == "Mutex error: Mutex was poisoned."@,
            EpubError::NonCanonicalEpub { expected_file } => text == "Non-canonical epub: The \""@
                + expected_file@ + "\" file was not found."@,
            EpubError::NonCanonicalFile { tag } => text == "Non-canonical file: The \""@ + tag@
                + "\" elements was not found."@,
            EpubError::NoSupportedFileFormat => text
                == "No supported file format: The fallback resource does not contain the file format you support."@,
            EpubError::RealtiveLinkLeakage { path } => text == "Relative link leakage: Path \""@
                + path@ + "\" is out of container range."@,
            EpubError::ResourceIdNotExist { id } => text
                == "Resource Id Not Exist: There is no resource item with id \""@ + id@ + "\"."@,
            EpubError::ResourceNotFound { resource } => text
                == "Resource not found: Unable to find resource from \""@ + resource@ + "\"."@,
            EpubError::UnrecognizedEpubVersion => text
                == "Unrecognized EPUB version: Unable to identify version number and version characteristics from epub file"@,
            EpubError::UnsupportedEncryptedMethod { method } => text
                == "Unsupported encryption method: The \""@ + method@
                + "\" encryption method is not supported."@,
            EpubError::UnusableCompressionMethod { file, method } => text
                == "Unusable compression method: The \""@ + file@
                + "\" file uses the unsupported \""@ + method@ + "\" compression method."@,
            EpubError::Utf8DecodeError { .. } => "Decode error: "@.is_prefix_of(text),
            EpubError::Utf16DecodeError { .. } => "Decode error: "@.is_prefix_of(text),
            EpubError::WalkDirError { .. } => "WalkDir error: "@.is_prefix_of(text),
            EpubError::QuickXmlError { .. } => "QuickXml error: "@.is_prefix_of(text),
        }
    }

    /// The message of this error, as text.
    pub fn to_string(&self) -> (text: String)
        ensures
            self.describes(text@),
    {
        match self {
            EpubError::ArchiveError { source } => {
                let tail = archive_error_text(source);
                concat2("Archive error: ", tail.as_str())
            },
            EpubError::EmptyDataError => crate::text::owned("Decode error: The data is empty."),
            EpubError::EpubBuilderError { source } => {
                let tail = source.to_string();
                concat2("Epub builder error: ", tail.as_str())
            },
            EpubError::FailedParsingXml => crate::text::owned(
                "Failed parsing XML error: Unknown problems occurred during XML parsing, causing parsing failure.",
            ),
            EpubError::IOError { source } => {
                let tail = io_error_text(source);
                concat2("IO error: ", tail.as_str())
            },
            EpubError::MissingRequiredAttribute { tag, attribute } => {
                let head = concat3(
                    "Missing required attribute: The \"",
                    attribute.as_str(),
                    "\" attribute is a must attribute for the \"",
                );
                concat3(head.as_str(), tag.as_str(), "\" element.")
            },
            EpubError::MutexError => crate::text::owned("Mutex error: Mutex was poisoned."),
            EpubError::NonCanonicalEpub { expected_file } => concat3(
                "Non-canonical epub: The \"",
                expected_file.as_str(),
                "\" file was not found.",
            ),
            EpubError::NonCanonicalFile { tag } => concat3(
                "Non-canonical file: The \"",
                tag.as_str(),
                "\" elements was not found.",
            ),
            EpubError::NoSupportedFileFormat => crate::text::owned(
                "No supported file format: The fallback resource does not contain the file format you support.",
            ),
            EpubError::RealtiveLinkLeakage { path } => concat3(
                "Relative link leakage: Path \"",
                path.as_str(),
                "\" is out of container range.",
            ),
            EpubError::ResourceIdNotExist { id } => concat3(
                "Resource Id Not Exist: There is no resource item with id \"",
                id.as_str(),
                "\".",
            ),
            EpubError::ResourceNotFound { resource } => concat3(
                "Resource not found: Unable to find resource from \"",
                resource.as_str(),
                "\".",
            ),
            EpubError::UnrecognizedEpubVersion => crate::text::owned(
                "Unrecognized EPUB version: Unable to identify version number and version characteristics from epub file",
            ),
            EpubError::UnsupportedEncryptedMethod { method } => concat3(
                "Unsupported encryption method: The \"",
                method.as_str(),
                "\" encryption method is not supported.",
            ),
            EpubError::UnusableCompressionMethod { file, method } => {
                let head = concat3(
                    "Unusable compression method: The \"",
                    file.as_str(),
                    "\" file uses the unsupported \"",
                );
                concat3(head.as_str(), method.as_str(), "\" compression method.")
            },
            EpubError::Utf8DecodeError { source } => {
                let tail = utf8_error_text(source);
                concat2("Decode error: ", tail.as_str())
            },
            EpubError::Utf16DecodeError { source } => {
                let tail = utf16_error_text(source);
                concat2("Decode error: ", tail.as_str())
            },
            EpubError::WalkDirError { source } => {
                let tail = walkdir_error_text(source);
                concat2("WalkDir error: ", tail.as_str())
            },
            EpubError::QuickXmlError { source } => {
                let tail = xml_error_text(source);
                concat2("QuickXml error: ", tail.as_str())
            },
        }
    }
}

impl PartialEq for EpubError {
    fn eq(&self, other: &Self) -> (r: bool) {
        match (self, other) {
            (EpubError::MissingRequiredAttribute { tag: l_tag, attribute: l_attribute }, EpubError::MissingRequiredAttribute { tag: r_tag, attribute: r_attribute }) => *l_tag == *r_tag && *l_attribute == *r_attribute,
            (EpubError::NonCanonicalEpub { expected_file: l_expected_file }, EpubError::NonCanonicalEpub { expected_file: r_expected_file }) => *l_expected_file == *r_expected_file,
            (EpubError::NonCanonicalFile { tag: l_tag }, EpubError::NonCanonicalFile { tag: r_tag }) => *l_tag == *r_tag,
            (EpubError::RealtiveLinkLeakage { path: l_path }, EpubError::RealtiveLinkLeakage { path: r_path }) => *l_path == *r_path,
            (EpubError::ResourceIdNotExist { id: l_id }, EpubError::ResourceIdNotExist { id: r_id }) => *l_id == *r_id,
            (EpubError::ResourceNotFound { resource: l_resource }, EpubError::ResourceNotFound { resource: r_resource }) => *l_resource == *r_resource,
            (EpubError::UnsupportedEncryptedMethod { method: l_method }, EpubError::UnsupportedEncryptedMethod { method: r_method }) => *l_method == *r_method,
            (EpubError::UnusableCompressionMethod { file: l_file, method: l_method }, EpubError::UnusableCompressionMethod { file: r_file, method: r_method }) => *l_file == *r_file && *l_method == *r_method,
            (EpubError::EpubBuilderError { source: l }, EpubError::EpubBuilderError { source: r }) => l.eq(r),
            (EpubError::EmptyDataError, EpubError::EmptyDataError) => true,
            (EpubError::FailedParsingXml, EpubError::FailedParsingXml) => true,
            (EpubError::MutexError, EpubError::MutexError) => true,
            (EpubError::NoSupportedFileFormat, EpubError::NoSupportedFileFormat) => true,
            (EpubError::UnrecognizedEpubVersion, EpubError::UnrecognizedEpubVersion) => true,
            (EpubError::ArchiveError { .. }, EpubError::ArchiveError { .. }) => true,
            (EpubError::IOError { .. }, EpubError::IOError { .. }) => true,
            (EpubError::Utf8DecodeError { .. }, EpubError::Utf8DecodeError { .. }) => true,
            (EpubError::Utf16DecodeError { .. }, EpubError::Utf16DecodeError { .. }) => true,
            (EpubError::WalkDirError { .. }, EpubError::WalkDirError { .. }) => true,
            (EpubError::QuickXmlError { .. }, EpubError::QuickXmlError { .. }) => true,
            _ => false,
        }
    }
}

impl PartialEqSpecImpl for EpubError {
    open spec fn obeys_eq_spec() -> bool {
        true
    }

    open spec fn eq_spec(&self, other: &Self) -> bool {
        match (self, other) {
            (EpubError::MissingRequiredAttribute { tag: l_tag, attribute: l_attribute }, EpubError::MissingRequiredAttribute { tag: r_tag, attribute: r_attribute }) => l_tag@ == r_tag@ && l_attribute@ == r_attribute@,
            (EpubError::NonCanonicalEpub { expected_file: l_expected_file }, EpubError::NonCanonicalEpub { expected_file: r_expected_file }) => l_expected_file@ == r_expected_file@,
            (EpubError::NonCanonicalFile { tag: l_tag }, EpubError::NonCanonicalFile { tag: r_tag }) => l_tag@ == r_tag@,
            (EpubError::RealtiveLinkLeakage { path: l_path }, EpubError::RealtiveLinkLeakage { path: r_path }) => l_path@ == r_path@,
            (EpubError::ResourceIdNotExist { id: l_id }, EpubError::ResourceIdNotExist { id: r_id }) => l_id@ == r_id@,
            (EpubError::ResourceNotFound { resource: l_resource }, EpubError::ResourceNotFound { resource: r_resource }) => l_resource@ == r_resource@,
            (EpubError::UnsupportedEncryptedMethod { method: l_method }, EpubError::UnsupportedEncryptedMethod { method: r_method }) => l_method@ == r_method@,
            (EpubError::UnusableCompressionMethod { file: l_file, method: l_method }, EpubError::UnusableCompressionMethod { file: r_file, method: r_method }) => l_file@ == r_file@ && l_method@ == r_method@,
            (EpubError::EpubBuilderError { source: l }, EpubError::EpubBuilderError { source: r }) => PartialEqSpec::eq_spec(l, r),
            (EpubError::EmptyDataError, EpubError::EmptyDataError) => true,
            (EpubError::FailedParsingXml, EpubError::FailedParsingXml) => true,
            (EpubError::MutexError, EpubError::MutexError) => true,
            (EpubError::NoSupportedFileFormat, EpubError::NoSupportedFileFormat) => true,
            (EpubError::UnrecognizedEpubVersion, EpubError::UnrecognizedEpubVersion) => true,
            (EpubError::ArchiveError { .. }, EpubError::ArchiveError { .. }) => true,
            (EpubError::IOError { .. }, EpubError::IOError { .. }) => true,
            (EpubError::Utf8DecodeError { .. }, EpubError::Utf8DecodeError { .. }) => true,
            (EpubError::Utf16DecodeError { .. }, EpubError::Utf16DecodeError { .. }) => true,
            (EpubError::WalkDirError { .. }, EpubError::WalkDirError { .. }) => true,
            (EpubError::QuickXmlError { .. }, EpubError::QuickXmlError { .. }) => true,
            _ => false,
        }
    }
}

impl From<EpubBuilderError> for EpubError {
    fn from(value: EpubBuilderError) -> (r: Self) {
        EpubError::EpubBuilderError { source: value }
    }
}

impl FromSpecImpl<EpubBuilderError> for EpubError {
    open spec fn obeys_from_spec() -> bool {
        true
    }

    open spec fn from_spec(value: EpubBuilderError) -> Self {
        EpubError::EpubBuilderError { source: value }
    }
}

/// A builder error, as a value.
pub ghost enum BuilderFault {
    IllegalManifestPath { manifest_id: Seq<char> },
    InvalidMathMLFormat { error: Seq<char> },
    InvalidTargetPath { target_path: Seq<char> },
    ManifestCircularReference { fallback_chain: Seq<char> },
    ManifestNotFound { manifest_id: Seq<char> },
    MissingNecessaryBlockData { block_type: Seq<char>, missing_data: Seq<char> },
    TargetIsNotFile { target_path: Seq<char> },
    UnknownFileFormat { file_path: Seq<char> },
    InvalidFootnoteLocate { max_locate: usize },
    IllegalRootfilePath,
    MissingNecessaryMetadata,
    NavigationInfoUninitalized,
    MissingRootfile,
    NotExpectedFileFormat,
    TooManyNavFlags,
}

impl View for EpubBuilderError {
    type V = BuilderFault;

    open spec fn view(&self) -> BuilderFault {
        match self {
            EpubBuilderError::IllegalManifestPath { manifest_id } => BuilderFault::IllegalManifestPath { manifest_id: manifest_id@ },
            EpubBuilderError::InvalidMathMLFormat { error } => BuilderFault::InvalidMathMLFormat { error: error@ },
            EpubBuilderError::InvalidTargetPath { target_path } => BuilderFault::InvalidTargetPath { target_path: target_path@ },
            EpubBuilderError::ManifestCircularReference { fallback_chain } => BuilderFault::ManifestCircularReference { fallback_chain: fallback_chain@ },
            EpubBuilderError::ManifestNotFound { manifest_id } => BuilderFault::ManifestNotFound { manifest_id: manifest_id@ },
            EpubBuilderError::MissingNecessaryBlockData { block_type, missing_data } => BuilderFault::MissingNecessaryBlockData { block_type: block_type@, missing_data: missing_data@ },
            EpubBuilderError::TargetIsNotFile { target_path } => BuilderFault::TargetIsNotFile { target_path: target_path@ },
            EpubBuilderError::UnknownFileFormat { file_path } => BuilderFault::UnknownFileFormat { file_path: file_path@ },
            EpubBuilderError::InvalidFootnoteLocate { max_locate } => BuilderFault::InvalidFootnoteLocate { max_locate: *max_locate },
            EpubBuilderError::IllegalRootfilePath => BuilderFault::IllegalRootfilePath,
            EpubBuilderError::MissingNecessaryMetadata => BuilderFault::MissingNecessaryMetadata,
            EpubBuilderError::NavigationInfoUninitalized => BuilderFault::NavigationInfoUninitalized,
            EpubBuilderError::MissingRootfile => BuilderFault::MissingRootfile,
            EpubBuilderError::NotExpectedFileFormat => BuilderFault::NotExpectedFileFormat,
            EpubBuilderError::TooManyNavFlags => BuilderFault::TooManyNavFlags,
        }
    }
}

/// An error, as a value. Of an error of another library only the kind is
/// kept: nothing is known of what it holds.
pub ghost enum Fault {
    MissingRequiredAttribute { tag: Seq<char>, attribute: Seq<char> },
    NonCanonicalEpub { expected_file: Seq<char> },
    NonCanonicalFile { tag: Seq<char> },
    RealtiveLinkLeakage { path: Seq<char> },
    ResourceIdNotExist { id: Seq<char> },
    ResourceNotFound { resource: Seq<char> },
    UnsupportedEncryptedMethod { method: Seq<char> },
    UnusableCompressionMethod { file: Seq<char>, method: Seq<char> },
    EpubBuilderError { source: BuilderFault },
    EmptyDataError,
    FailedParsingXml,
    MutexError,
    NoSupportedFileFormat,
    UnrecognizedEpubVersion,
    ArchiveError,
    IOError,
    Utf8DecodeError,
    Utf16DecodeError,
    WalkDirError,
    QuickXmlError,
}

impl View for EpubError {
    type V = Fault;

    open spec fn view(&self) -> Fault {
        match self {
            EpubError::MissingRequiredAttribute { tag, attribute } => Fault::MissingRequiredAttribute { tag: tag@, attribute: attribute@ },
            EpubError::NonCanonicalEpub { expected_file } => Fault::NonCanonicalEpub { expected_file: expected_file@ },
            EpubError::NonCanonicalFile { tag } => Fault::NonCanonicalFile { tag: tag@ },
            EpubError::RealtiveLinkLeakage { path } => Fault::RealtiveLinkLeakage { path: path@ },
            EpubError::ResourceIdNotExist { id } => Fault::ResourceIdNotExist { id: id@ },
            EpubError::ResourceNotFound { resource } => Fault::ResourceNotFound { resource: resource@ },
            EpubError::UnsupportedEncryptedMethod { method } => Fault::UnsupportedEncryptedMethod { method: method@ },
            EpubError::UnusableCompressionMethod { file, method } => Fault::UnusableCompressionMethod { file: file@, method: method@ },
            EpubError::EpubBuilderError { source } => Fault::EpubBuilderError { source: source@ },
            EpubError::EmptyDataError => Fault::EmptyDataError,
            EpubError::FailedParsingXml => Fault::FailedParsingXml,
            EpubError::MutexError => Fault::MutexError,
            EpubError::NoSupportedFileFormat => Fault::NoSupportedFileFormat,
            EpubError::UnrecognizedEpubVersion => Fault::UnrecognizedEpubVersion,
            EpubError::ArchiveError { .. } => Fault::ArchiveError,
            EpubError::IOError { .. } => Fault::IOError,
            EpubError::Utf8DecodeError { .. } => Fault::Utf8DecodeError,
            EpubError::Utf16DecodeError { .. } => Fault::Utf16DecodeError,
            EpubError::WalkDirError { .. } => Fault::WalkDirError,
            EpubError::QuickXmlError { .. } => Fault::QuickXmlError,
        }
    }
}

/// The error that a missing attribute gives.
pub fn missing_attribute(tag: String, attribute: &str) -> (e: EpubError)
    ensures
        e@ == (Fault::MissingRequiredAttribute { tag: tag@, attribute: attribute@ }),
{
    EpubError::MissingRequiredAttribute { tag, attribute: crate::text::owned(attribute) }
}

/// The error that a missing element gives.
pub fn missing_element(tag: &str) -> (e: EpubError)
    ensures
        e@ == (Fault::NonCanonicalFile { tag: tag@ }),
{
    EpubError::NonCanonicalFile { tag: crate::text::owned(tag) }
}

} // verus!
