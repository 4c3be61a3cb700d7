use lib_epub::builder::{EpubBuilder, EpubVersion3};
use lib_epub::epub::EpubDoc;
use lib_epub::error::{EpubBuilderError, EpubError};
use lib_epub::types::{EpubVersion, ManifestItem, MetadataItem, NavPoint, SpineItem};

const CHAPTER: &[u8] = b"<html><body><p>Hello</p></body></html>";
const PICTURE: &[u8] = &[0x89, 0x50, 0x4E, 0x47, 0x0D, 0x0A, 0x1A, 0x0A, 0, 0, 0, 0];

fn minimal_builder() -> EpubBuilder<EpubVersion3> {
    let mut builder = EpubBuilder::<EpubVersion3>::new().unwrap();
    builder
        .add_rootfile("OEBPS/content.opf")
        .add_metadata(MetadataItem::new("title", "Test Book"))
        .add_metadata(MetadataItem::new("language", "en"))
        .add_metadata(
            MetadataItem::new("identifier", "urn:isbn:1234567890")
                .with_id("pub-id")
                .build(),
        );
    builder
        .add_manifest(
            "chapter1.xhtml",
            CHAPTER.to_vec(),
            ManifestItem::new("ch1", "text/chapter1.xhtml").unwrap(),
        )
        .unwrap();
    builder.add_spine(SpineItem::new("ch1"));
    builder.set_catalog_title("Contents");
    builder.add_catalog_item(
        NavPoint::new("Chapter 1")
            .with_content("text/chapter1.xhtml")
            .build(),
    );
    builder
}

#[test]
fn round_trip_recovers_the_model() {
    let bytes = minimal_builder().make().unwrap();
    let mut doc = EpubDoc::from_reader(bytes).unwrap();

    assert_eq!(doc.version, EpubVersion::Version3_0);
    assert_eq!(doc.package_path, "OEBPS/content.opf");
    assert_eq!(doc.base_path, "OEBPS");
    assert_eq!(doc.get_title().unwrap(), vec!["Test Book".to_string()]);
    assert_eq!(doc.get_language().unwrap(), vec!["en".to_string()]);
    assert_eq!(
        doc.get_identifier().unwrap(),
        vec!["urn:isbn:1234567890".to_string()]
    );
    assert_eq!(doc.unique_identifier, "urn:isbn:1234567890");

    // one resource and the navigation document that making adds
    assert_eq!(doc.manifest.len(), 2);
    assert_eq!(
        doc.manifest.get("ch1").unwrap().path,
        "OEBPS/text/chapter1.xhtml"
    );
    assert_eq!(doc.manifest.get("nav").unwrap().path, "OEBPS/nav.xhtml");

    assert_eq!(doc.spine.len(), 1);
    assert_eq!(doc.spine[0].idref, "ch1");
    assert!(doc.spine[0].linear);

    assert_eq!(doc.catalog_title, "Contents");
    assert_eq!(doc.catalog.len(), 1);
    assert_eq!(doc.catalog[0].label, "Chapter 1");
    assert_eq!(
        doc.catalog[0].content,
        Some("text/chapter1.xhtml".to_string())
    );
    assert!(doc.warnings.is_empty());
    assert!(!doc.has_encryption());

    let (data, mime) = doc.get_manifest_item("ch1").unwrap();
    assert_eq!(data, CHAPTER.to_vec());
    assert_eq!(mime, "text/html");

    let (data, _) = doc
        .get_manifest_item_by_path("OEBPS/text/chapter1.xhtml")
        .unwrap();
    assert_eq!(data, CHAPTER.to_vec());

    // the metadata of the reopened publication holds the time of modification
    let modified = doc.get_metadata("dcterms:modified").unwrap();
    assert_eq!(modified.len(), 1);
}

#[test]
fn build_opens_what_was_made() {
    let doc = minimal_builder().build().unwrap();
    assert_eq!(doc.current_spine_index, 0);
    assert_eq!(doc.manifest.len(), 2);
}

#[test]
fn rebuilding_from_a_document_keeps_the_model() {
    let mut doc = minimal_builder().build().unwrap();
    let builder = EpubBuilder::<EpubVersion3>::from(&mut doc).unwrap();

    assert_eq!(builder.rootfiles, vec!["OEBPS/content.opf".to_string()]);
    assert_eq!(builder.metadata.len(), doc.metadata.len());
    // the navigation document is left out: making writes a new one
    assert_eq!(builder.manifest.len(), 1);
    assert!(builder.manifest.contains_key("ch1"));
    assert!(!builder.manifest.contains_key("nav"));
    assert_eq!(builder.spine.len(), 1);
    assert_eq!(builder.catalog.len(), 1);
    assert_eq!(builder.catalog_title, "Contents");

    let mut again = builder.build().unwrap();
    assert_eq!(again.get_title().unwrap(), vec!["Test Book".to_string()]);
    assert_eq!(again.manifest.len(), 2);
    // one more time of modification than the first publication had
    assert_eq!(
        again.get_metadata("dcterms:modified").unwrap().len(),
        doc.get_metadata("dcterms:modified").unwrap().len() + 1
    );
    let (data, _) = again.get_manifest_item("ch1").unwrap();
    assert_eq!(data, CHAPTER.to_vec());
}

#[test]
fn make_needs_a_rootfile() {
    let builder = EpubBuilder::<EpubVersion3>::new().unwrap();
    let err = builder.make().unwrap_err();
    assert_eq!(
        err,
        EpubError::from(EpubBuilderError::MissingRootfile)
    );
    assert_eq!(
        err.to_string(),
        "Epub builder error: Need at least one rootfile."
    );
}

#[test]
fn make_refuses_a_rootfile_that_leaves_the_container() {
    let mut builder = minimal_builder();
    builder.add_rootfile("../outside.opf");
    let err = builder.make().unwrap_err();
    assert_eq!(err, EpubError::from(EpubBuilderError::IllegalRootfilePath));
}

#[test]
fn make_needs_a_table_of_contents() {
    let mut builder = minimal_builder();
    builder.clear_catalog();
    let err = builder.make().unwrap_err();
    assert_eq!(
        err,
        EpubError::from(EpubBuilderError::NavigationInfoUninitalized)
    );
}

#[test]
fn make_needs_the_identifier_with_id_pub_id() {
    let mut builder = EpubBuilder::<EpubVersion3>::new().unwrap();
    builder
        .add_rootfile("content.opf")
        .add_metadata(MetadataItem::new("title", "Test Book"))
        .add_metadata(MetadataItem::new("language", "en"))
        .add_metadata(MetadataItem::new("identifier", "urn:isbn:1"))
        .add_catalog_item(NavPoint::new("Chapter"));
    let err = builder.make().unwrap_err();
    assert_eq!(
        err.to_string(),
        "Epub builder error: Requires at least one 'title', 'language', and 'identifier' with id 'pub-id'."
    );

    let mut builder = EpubBuilder::<EpubVersion3>::new().unwrap();
    builder
        .add_rootfile("content.opf")
        .add_metadata(MetadataItem::new("title", "Test Book"))
        .add_metadata(MetadataItem::new("language", "en"))
        .add_metadata(
            MetadataItem::new("identifier", "urn:isbn:1")
                .with_id("pub-id")
                .build(),
        )
        .add_catalog_item(NavPoint::new("Chapter"));
    assert!(builder.make().is_ok());
}

#[test]
fn make_refuses_a_second_navigation_entry() {
    let mut builder = minimal_builder();
    builder.manifest.insert(
        ManifestItem::new("toc", "toc.xhtml")
            .unwrap()
            .append_property("nav")
            .build(),
    );
    let err = builder.make().unwrap_err();
    assert_eq!(err, EpubError::from(EpubBuilderError::TooManyNavFlags));
}

#[test]
fn make_refuses_a_fallback_cycle() {
    let mut builder = minimal_builder();
    builder.manifest.insert(
        ManifestItem::new("a", "a.bin")
            .unwrap()
            .with_fallback("b")
            .build(),
    );
    builder.manifest.insert(
        ManifestItem::new("b", "b.bin")
            .unwrap()
            .with_fallback("a")
            .build(),
    );
    let err = builder.make().unwrap_err();
    assert!(err.to_string().contains("a->b->a"));

    let mut builder = minimal_builder();
    builder.manifest.insert(
        ManifestItem::new("a", "a.bin")
            .unwrap()
            .with_fallback("b")
            .build(),
    );
    builder.manifest.insert(
        ManifestItem::new("b", "b.bin")
            .unwrap()
            .with_fallback("c")
            .build(),
    );
    builder
        .manifest
        .insert(ManifestItem::new("c", "c.bin").unwrap());
    assert!(builder.validate_manifest_fallback_chains().is_ok());
}

#[test]
fn add_manifest_needs_a_rootfile() {
    let mut builder = EpubBuilder::<EpubVersion3>::new().unwrap();
    let err = builder
        .add_manifest(
            "a.xhtml",
            CHAPTER.to_vec(),
            ManifestItem::new("a", "a.xhtml").unwrap(),
        )
        .unwrap_err();
    assert_eq!(err, EpubError::from(EpubBuilderError::MissingRootfile));
}

#[test]
fn add_manifest_refuses_content_of_unknown_kind() {
    let mut builder = EpubBuilder::<EpubVersion3>::new().unwrap();
    builder.add_rootfile("content.opf");
    let err = builder
        .add_manifest(
            "mystery.bin",
            vec![0u8, 1, 2, 3],
            ManifestItem::new("a", "a.bin").unwrap(),
        )
        .unwrap_err();
    assert_eq!(
        err.to_string(),
        "Epub builder error: Unable to analyze the file 'mystery.bin' type."
    );
}

#[test]
fn add_manifest_refines_the_media_type_by_the_extension() {
    let mut builder = EpubBuilder::<EpubVersion3>::new().unwrap();
    builder.add_rootfile("content.opf");
    builder
        .add_manifest(
            "Chapter.XHTML",
            b"<?xml version=\"1.0\"?><html xmlns=\"http://www.w3.org/1999/xhtml\"></html>".to_vec(),
            ManifestItem::new("a", "a.xhtml").unwrap(),
        )
        .unwrap();
    assert_eq!(
        builder.manifest.get("a").unwrap().mime,
        "application/xhtml+xml"
    );
    assert!(builder.staged.iter().any(|file| file.path == "a.xhtml"));
}

#[test]
fn from_reader_refuses_what_is_no_archive() {
    let err = match EpubDoc::from_reader(b"this is no archive".to_vec()) {
        Ok(_) => panic!("opened what is no archive"),
        Err(err) => err,
    };
    assert!(matches!(err, EpubError::ArchiveError { .. }));
    assert!(err.to_string().starts_with("Archive error: "));
}

#[test]
fn spine_traversal_skips_what_is_not_linear() {
    let mut builder = EpubBuilder::<EpubVersion3>::new().unwrap();
    builder
        .add_rootfile("content.opf")
        .add_metadata(MetadataItem::new("title", "Test Book"))
        .add_metadata(MetadataItem::new("language", "en"))
        .add_metadata(
            MetadataItem::new("identifier", "urn:isbn:1")
                .with_id("pub-id")
                .build(),
        )
        .add_catalog_item(NavPoint::new("Chapter"));
    for (id, body) in [("a", "A"), ("b", "B"), ("c", "C"), ("d", "D")] {
        let content = format!("<html><body>{}</body></html>", body).into_bytes();
        let path = format!("{}.xhtml", id);
        builder
            .add_manifest(&path, content, ManifestItem::new(id, &path).unwrap())
            .unwrap();
    }
    builder
        .add_spine(SpineItem::new("a"))
        .add_spine(SpineItem::new("b"))
        .add_spine(SpineItem::new("c").set_linear(false).build())
        .add_spine(SpineItem::new("d"));

    let mut doc = builder.build().unwrap();
    assert_eq!(doc.current_spine_index, 0);
    assert!(!doc.spine[2].linear);

    let (data, _) = doc.spine_current().unwrap();
    assert_eq!(data, b"<html><body>A</body></html>".to_vec());

    let (data, _) = doc.spine_next().unwrap();
    assert_eq!(data, b"<html><body>B</body></html>".to_vec());
    assert_eq!(doc.current_spine_index, 1);

    let (data, _) = doc.spine_next().unwrap();
    assert_eq!(data, b"<html><body>D</body></html>".to_vec());
    assert_eq!(doc.current_spine_index, 3);

    assert!(doc.spine_next().is_none());
    assert_eq!(doc.current_spine_index, 3);

    let (data, _) = doc.navigate_by_spine_index(2).unwrap();
    assert_eq!(data, b"<html><body>C</body></html>".to_vec());
    assert!(doc.spine_next().is_none());
    assert!(doc.spine_prev().is_none());
    assert_eq!(doc.current_spine_index, 2);

    assert!(doc.navigate_by_spine_index(4).is_none());
    assert_eq!(doc.current_spine_index, 2);

    doc.navigate_by_spine_index(3).unwrap();
    let (data, _) = doc.spine_prev().unwrap();
    assert_eq!(data, b"<html><body>B</body></html>".to_vec());
    let (data, _) = doc.spine_prev().unwrap();
    assert_eq!(data, b"<html><body>A</body></html>".to_vec());
    assert!(doc.spine_prev().is_none());
}

#[test]
fn fetching_follows_the_fallback_chain() {
    let mut builder = minimal_builder();
    builder
        .add_manifest(
            "picture.png",
            PICTURE.to_vec(),
            ManifestItem::new("data", "picture.png")
                .unwrap()
                .with_fallback("ch1")
                .build(),
        )
        .unwrap();
    let mut doc = builder.build().unwrap();

    let (data, mime) = doc
        .get_manifest_item_with_fallback("data", vec!["text/html"])
        .unwrap();
    assert_eq!(data, CHAPTER.to_vec());
    assert_eq!(mime, "text/html");

    let (data, mime) = doc
        .get_manifest_item_with_fallback("data", vec!["image/png", "text/html"])
        .unwrap();
    assert_eq!(data, PICTURE.to_vec());
    assert_eq!(mime, "image/png");

    let err = doc
        .get_manifest_item_with_fallback("data", vec!["audio/mpeg"])
        .unwrap_err();
    assert_eq!(err, EpubError::NoSupportedFileFormat);

    let err = doc
        .get_manifest_item_with_fallback("nothing", vec!["text/html"])
        .unwrap_err();
    assert_eq!(
        err,
        EpubError::ResourceIdNotExist {
            id: "nothing".to_string()
        }
    );

    let err = doc.get_manifest_item("nothing").unwrap_err();
    assert_eq!(
        err.to_string(),
        "Resource Id Not Exist: There is no resource item with id \"nothing\"."
    );
    let err = doc.get_manifest_item_by_path("nowhere.xhtml").unwrap_err();
    assert_eq!(
        err,
        EpubError::ResourceNotFound {
            resource: "nowhere.xhtml".to_string()
        }
    );
}

fn staged(path: &str, data: &[u8]) -> lib_epub::builder::StagedFile {
    lib_epub::builder::StagedFile {
        path: path.to_string(),
        data: data.to_vec(),
    }
}

#[test]
fn obfuscated_fonts_are_restored_on_fetch() {
    let uid = "urn:isbn:1234567890";
    let font: Vec<u8> = (0..3000u32).map(|i| (i % 253) as u8).collect();

    let mut builder = minimal_builder();
    for (id, path) in [("f1", "fonts/a.otf"), ("f2", "fonts/b.otf"), ("f3", "fonts/c.otf")] {
        builder
            .manifest
            .insert(ManifestItem::new(id, path).unwrap().set_mime("font/otf"));
    }
    builder.staged.push(staged(
        "OEBPS/fonts/a.otf",
        &lib_epub::obfuscation::idpf_font_encryption(&font, uid),
    ));
    builder.staged.push(staged(
        "OEBPS/fonts/b.otf",
        &lib_epub::obfuscation::adobe_font_encryption(&font, uid),
    ));
    builder.staged.push(staged("OEBPS/fonts/c.otf", &font));
    builder.staged.push(staged(
        "META-INF/encryption.xml",
        br#"<?xml version="1.0"?>
<encryption xmlns="urn:oasis:names:tc:opendocument:xmlns:container" xmlns:enc="http://www.w3.org/2001/04/xmlenc#">
  <enc:EncryptedData>
    <enc:EncryptionMethod Algorithm="http://www.idpf.org/2008/embedding"/>
    <enc:CipherData><enc:CipherReference URI="OEBPS/fonts/a.otf"/></enc:CipherData>
  </enc:EncryptedData>
  <enc:EncryptedData>
    <enc:EncryptionMethod Algorithm="http://ns.adobe.com/pdf/enc#RC"/>
    <enc:CipherData><enc:CipherReference URI="OEBPS/fonts/b.otf"/></enc:CipherData>
  </enc:EncryptedData>
  <enc:EncryptedData>
    <enc:EncryptionMethod Algorithm="http://www.w3.org/2001/04/xmlenc#aes256-cbc"/>
    <enc:CipherData><enc:CipherReference URI="OEBPS/fonts/c.otf"/></enc:CipherData>
  </enc:EncryptedData>
</encryption>"#,
    ));

    let mut doc = builder.build().unwrap();
    assert!(doc.has_encryption());
    assert_eq!(doc.encryption.as_ref().unwrap().len(), 3);
    assert_eq!(
        doc.is_encryption_file("OEBPS/fonts/b.otf"),
        Some("http://ns.adobe.com/pdf/enc#RC".to_string())
    );
    assert_eq!(doc.is_encryption_file("OEBPS/text/chapter1.xhtml"), None);

    let (data, mime) = doc.get_manifest_item("f1").unwrap();
    assert_eq!(data, font);
    assert_eq!(mime, "font/otf");
    let (data, _) = doc.get_manifest_item("f2").unwrap();
    assert_eq!(data, font);
    let err = doc.get_manifest_item("f3").unwrap_err();
    assert_eq!(
        err,
        EpubError::UnsupportedEncryptedMethod {
            method: "http://www.w3.org/2001/04/xmlenc#aes256-cbc".to_string()
        }
    );
    // what is not encrypted comes as it is
    let (data, _) = doc.get_manifest_item("ch1").unwrap();
    assert_eq!(data, CHAPTER.to_vec());
}

fn legacy_archive(opf: &str) -> Vec<u8> {
    let files = vec![
        staged(
            "META-INF/container.xml",
            br#"<?xml version="1.0"?><container version="1.0" xmlns="urn:oasis:names:tc:opendocument:xmlns:container"><rootfiles><rootfile full-path="content.opf" media-type="application/oebps-package+xml"/></rootfiles></container>"#,
        ),
        staged("content.opf", opf.as_bytes()),
        staged(
            "toc.ncx",
            br#"<?xml version="1.0"?><ncx xmlns="http://www.daisy.org/z3986/2005/ncx/"><navMap><navPoint id="p2" playOrder="2"><navLabel><text>Two</text></navLabel><content src="b.html"/></navPoint><navPoint id="p1" playOrder="1"><navLabel><text>One</text></navLabel><content src="a.html"/></navPoint></navMap></ncx>"#,
        ),
        staged("a.html", CHAPTER),
    ];
    lib_epub::builder::pack(&files).unwrap()
}

#[test]
fn a_legacy_publication_is_read_with_its_ncx() {
    let opf = r#"<?xml version="1.0"?>
<package xmlns="http://www.idpf.org/2007/opf" xmlns:dc="http://purl.org/dc/elements/1.1/" unique-identifier="bookid">
  <metadata>
    <dc:title>Old Book</dc:title>
    <dc:language>en</dc:language>
    <dc:identifier id="bookid">id-1</dc:identifier>
  </metadata>
  <manifest>
    <item id="ncx" href="toc.ncx" media-type="application/x-dtbncx+xml"/>
    <item id="a" href="a.html" media-type="text/html" fallback="b"/>
    <item id="b" href="b.html" media-type="text/html" fallback="a"/>
    <item id="c" href="c.html" media-type="text/html" fallback="nothing"/>
  </manifest>
  <spine toc="ncx"><itemref idref="a"/></spine>
</package>"#;
    let mut doc = EpubDoc::from_reader(legacy_archive(opf)).unwrap();
    assert_eq!(doc.version, EpubVersion::Version2_0);
    assert_eq!(doc.base_path, "");
    assert_eq!(doc.unique_identifier, "id-1");
    assert_eq!(doc.catalog_title, "");
    let labels: Vec<&str> = doc.catalog.iter().map(|p| p.label.as_str()).collect();
    assert_eq!(labels, vec!["One", "Two"]);
    assert_eq!(
        doc.warnings,
        vec![
            "Invalid fallback chain for item a: Circular reference detected in fallback chain for a->b->a",
            "Invalid fallback chain for item b: Circular reference detected in fallback chain for b->a->b",
            "Invalid fallback chain for item c: Fallback resource nothing does not exist in manifest",
            "Expecting to get docTitle information from the ncx file, but it's missing.",
        ]
    );
    // the resource of an entry is there or it is not
    assert!(doc.get_manifest_item("a").is_ok());
    assert_eq!(
        doc.get_manifest_item("b").unwrap_err(),
        EpubError::ResourceNotFound {
            resource: "b.html".to_string()
        }
    );
    assert!(doc.spine_current().is_some());
    assert!(doc.spine_next().is_none());
}

#[test]
fn opening_fails_on_a_package_that_lacks_what_it_must_have() {
    let no_version = r#"<package xmlns="http://www.idpf.org/2007/opf"><metadata></metadata><manifest></manifest><spine></spine></package>"#;
    let err = match EpubDoc::from_reader(legacy_archive(no_version)) {
        Ok(_) => panic!("opened a package without version"),
        Err(err) => err,
    };
    assert_eq!(err, EpubError::UnrecognizedEpubVersion);

    let no_identifier = r#"<package xmlns="http://www.idpf.org/2007/opf" version="2.0"><metadata></metadata><manifest><item id="ncx" href="toc.ncx" media-type="application/x-dtbncx+xml"/></manifest><spine toc="ncx"></spine></package>"#;
    let err = match EpubDoc::from_reader(legacy_archive(no_identifier)) {
        Ok(_) => panic!("opened a package without identifier"),
        Err(err) => err,
    };
    assert_eq!(
        err,
        EpubError::NonCanonicalFile {
            tag: "dc:identifier".to_string()
        }
    );

    let no_toc = r#"<package xmlns="http://www.idpf.org/2007/opf" version="2.0"><metadata></metadata><manifest></manifest><spine toc="ncx"></spine></package>"#;
    let err = match EpubDoc::from_reader(legacy_archive(no_toc)) {
        Ok(_) => panic!("opened a package without table of contents"),
        Err(err) => err,
    };
    assert_eq!(
        err,
        EpubError::ResourceIdNotExist {
            id: "ncx".to_string()
        }
    );

    let no_nav = r#"<package xmlns="http://www.idpf.org/2007/opf" version="3.0"><metadata></metadata><manifest></manifest><spine></spine></package>"#;
    let err = match EpubDoc::from_reader(legacy_archive(no_nav)) {
        Ok(_) => panic!("opened a package without navigation document"),
        Err(err) => err,
    };
    assert_eq!(
        err,
        EpubError::NonCanonicalEpub {
            expected_file: "Navigation Document".to_string()
        }
    );

    let files = vec![staged("mimetype", b"application/epub+zip")];
    let err = match EpubDoc::from_reader(lib_epub::builder::pack(&files).unwrap()) {
        Ok(_) => panic!("opened an archive without container document"),
        Err(err) => err,
    };
    assert!(matches!(err, EpubError::ArchiveError { .. }));
}

#[test]
fn the_archive_begins_with_the_stored_mimetype() {
    let bytes = minimal_builder().make().unwrap();
    // local file header: signature, then at offset 8 the compression method,
    // at offset 26 the length of the name, at offset 30 the name
    assert_eq!(&bytes[0..4], b"PK\x03\x04");
    assert_eq!(&bytes[8..10], &[0, 0]);
    assert_eq!(&bytes[30..38], b"mimetype");
    let at = 30 + 8 + u16::from_le_bytes([bytes[28], bytes[29]]) as usize;
    assert_eq!(&bytes[at..at + 20], b"application/epub+zip");
}

#[test]
fn what_was_added_can_be_taken_away() {
    let mut builder = minimal_builder();
    builder
        .add_manifest(
            "picture.png",
            PICTURE.to_vec(),
            ManifestItem::new("pic", "images/p.png").unwrap(),
        )
        .unwrap();
    assert!(builder
        .staged
        .iter()
        .any(|file| file.path == "OEBPS/images/p.png"));

    builder.remove_manifest("pic").remove_manifest("nothing");
    assert!(!builder.manifest.contains_key("pic"));
    assert!(builder.manifest.contains_key("ch1"));
    assert!(!builder
        .staged
        .iter()
        .any(|file| file.path == "OEBPS/images/p.png"));
    assert!(builder
        .staged
        .iter()
        .any(|file| file.path == "OEBPS/text/chapter1.xhtml"));

    builder.clear_manifest();
    assert!(builder.manifest.is_empty());
    assert_eq!(builder.staged.len(), 1);
    assert_eq!(builder.staged[0].path, "mimetype");
    assert_eq!(builder.staged[0].data, b"application/epub+zip".to_vec());

    builder
        .add_rootfile("second.opf")
        .remove_last_rootfile()
        .remove_last_metadata()
        .remove_last_spine()
        .remove_last_catalog_item();
    assert_eq!(builder.rootfiles, vec!["OEBPS/content.opf".to_string()]);
    assert_eq!(builder.metadata.len(), 2);
    assert!(builder.spine.is_empty());
    assert!(builder.catalog.is_empty());
    assert_eq!(builder.catalog_title, "Contents");

    builder
        .clear_rootfiles()
        .clear_metadata()
        .clear_spine()
        .clear_catalog()
        .remove_last_rootfile()
        .remove_last_catalog_item();
    assert!(builder.rootfiles.is_empty());
    assert!(builder.metadata.is_empty());
    assert_eq!(builder.catalog_title, "");
}
