//! Reading and writing EPUB publications.
//!
//! An EPUB publication is a ZIP container that holds a package document,
//! a table of contents, and the resources that the package document lists.
//! This crate holds the model of such a publication and the rules that
//! connect its parts:
//!
//! - [`paths`] resolves references to paths below the root of the
//!   container and refuses references that leave it;
//! - [`fallback`] walks the fallback chains of the manifest;
//! - [`package`], [`metadata`] and [`navigation`] read the package
//!   document and the table of contents from element trees;
//! - [`obfuscation`] puts on and takes off the two font obfuscations;
//! - [`epub`] opens a publication and fetches its resources;
//! - [`builder`] gathers a publication, checks it, and packs it.
//!
//! The ZIP codec, the XML tokenizer and writer, the hash functions and the
//! content sniffer are those of other crates. Each call into them is a
//! small function of [`archive`], [`xml_reader`], [`xml_writer`],
//! [`obfuscation`] or [`builder`] whose contract is assumed; everything
//! else is proved.

pub mod archive;
pub mod builder;
pub mod decode;
pub mod epub;
pub mod error;
pub mod fallback;
pub mod folds;
pub mod manifest;
pub mod metadata;
pub mod navigation;
pub mod obfuscation;
pub mod order;
pub mod package;
pub mod paths;
pub mod spine;
pub mod text;
pub mod types;
pub mod xml;
pub mod xml_reader;
pub mod xml_writer;

pub use decode::DecodeBytes;
