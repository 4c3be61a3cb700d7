use lib_epub::archive::{Compression, EntryInfo};
use lib_epub::decode::decode_bytes;
use lib_epub::epub::check_entry;
use lib_epub::error::{EpubBuilderError, EpubError};
use lib_epub::fallback::{check_fallback_chain, pick_supported, ChainFault, Picked};
use lib_epub::manifest::Manifest;
use lib_epub::metadata::parse_metadata;
use lib_epub::navigation::{parse_nav_document, parse_ncx};
use lib_epub::obfuscation::{
    adobe_font_dencryption, adobe_font_encryption, apply_mask, idpf_font_dencryption,
    idpf_font_encryption, xml_decryption_aes128_cbc, xml_encryption_aes128_cbc,
    xml_encryption_aes192_cbc, xml_encryption_aes256_cbc,
};
use lib_epub::order::sort_by_play_order;
use lib_epub::package::{
    determine_epub_version, parse_container, parse_encryption, parse_manifest, parse_spine,
    resolve_unique_identifier,
};
use lib_epub::paths::{
    check_realtive_link_leakage, normalize_manifest_path, parent_dir, remove_leading_slash,
};
use lib_epub::spine::{next_spine_index, prev_spine_index};
use lib_epub::text::{
    contains_text, format_decimal, join, normalize_space, parse_usize, split, split_words,
    starts_with, trim, Delim,
};
use lib_epub::types::{EpubVersion, ManifestItem, NavPoint, SpineItem};
use lib_epub::xml::XmlElement;
use lib_epub::xml_reader::{TreeBuilder, XmlReader, XmlTag, XmlToken};
use lib_epub::xml_writer::{decl, empty_with, end, render, start_with, text};

fn parse(content: &str) -> XmlElement {
    XmlReader::parse(content).unwrap()
}

// ---- text ----

#[test]
fn split_keeps_empty_pieces() {
    assert_eq!(split("a//b", &Delim::Char('/')), vec!["a", "", "b"]);
    assert_eq!(split("", &Delim::Char('/')), vec![""]);
    assert_eq!(split("/", &Delim::Char('/')), vec!["", ""]);
    assert_eq!(split_words("/a//b/", &Delim::Char('/')), vec!["a", "b"]);
    assert!(split_words("", &Delim::Char('/')).is_empty());
}

#[test]
fn join_puts_the_separator_between_parts() {
    let parts = vec!["a".to_string(), "b".to_string(), "c".to_string()];
    assert_eq!(join(&parts, "->"), "a->b->c");
    assert_eq!(join(&vec!["a".to_string()], "->"), "a");
    assert_eq!(join(&Vec::new(), "->"), "");
}

#[test]
fn white_space_is_trimmed_and_normalized() {
    assert_eq!(trim("  \t hello world \n"), "hello world");
    assert_eq!(trim(" \u{3000} "), "");
    assert_eq!(trim(""), "");
    assert_eq!(normalize_space("  Hello,\tWorld!\n\nRust  "), "Hello, World! Rust");
    assert_eq!(normalize_space("\u{a0}a\u{2003}b"), "a b");
    assert_eq!(normalize_space("   "), "");
}

#[test]
fn prefixes_and_occurrences_are_found() {
    assert!(starts_with("../x", "../"));
    assert!(!starts_with("..", "../"));
    assert!(starts_with("abc", ""));
    assert!(contains_text("xmlns:dc", "xmlns"));
    assert!(contains_text("my-xmlns", "xmlns"));
    assert!(!contains_text("xmln", "xmlns"));
    assert!(contains_text("", ""));
}

#[test]
fn numbers_are_written_and_read_in_decimal() {
    assert_eq!(format_decimal(0), "0");
    assert_eq!(format_decimal(7), "7");
    assert_eq!(format_decimal(1040), "1040");
    assert_eq!(format_decimal(usize::MAX), usize::MAX.to_string());
    assert_eq!(parse_usize("0"), Some(0));
    assert_eq!(parse_usize("+12"), Some(12));
    assert_eq!(parse_usize("007"), Some(7));
    assert_eq!(parse_usize(""), None);
    assert_eq!(parse_usize("+"), None);
    assert_eq!(parse_usize("-1"), None);
    assert_eq!(parse_usize("1a"), None);
    assert_eq!(parse_usize(" 1"), None);
    assert_eq!(parse_usize(&usize::MAX.to_string()), Some(usize::MAX));
    assert_eq!(parse_usize("18446744073709551616"), None);
    assert_eq!(parse_usize("99999999999999999999999"), None);
}

// ---- paths ----

#[test]
fn two_steps_up_from_one_level_leave_the_container() {
    assert_eq!(check_realtive_link_leakage("OEBPS", "../../x"), None);
    let err = normalize_manifest_path("OEBPS", "../../x").unwrap_err();
    assert_eq!(
        err,
        EpubError::RealtiveLinkLeakage {
            path: "../../x".to_string()
        }
    );
    assert_eq!(
        err.to_string(),
        "Relative link leakage: Path \"../../x\" is out of container range."
    );
}

#[test]
fn one_step_up_from_two_levels_stays_inside() {
    assert_eq!(
        check_realtive_link_leakage("OEBPS/text", "../x"),
        Some("OEBPS/x".to_string())
    );
    assert_eq!(
        normalize_manifest_path("OEBPS/text", "../images/a.png").unwrap(),
        "OEBPS/images/a.png"
    );
    assert_eq!(
        normalize_manifest_path("OEBPS", "../a.png").unwrap(),
        "a.png"
    );
    assert_eq!(
        normalize_manifest_path("a/b/c", "../../x").unwrap(),
        "a/x"
    );
    assert!(normalize_manifest_path("", "../x").is_err());
}

#[test]
fn references_are_resolved_from_the_base_or_the_root() {
    assert_eq!(
        normalize_manifest_path("OEBPS", "text/a.xhtml").unwrap(),
        "OEBPS/text/a.xhtml"
    );
    assert_eq!(normalize_manifest_path("", "a.xhtml").unwrap(), "a.xhtml");
    assert_eq!(
        normalize_manifest_path("OEBPS", "/fonts/a.otf").unwrap(),
        "fonts/a.otf"
    );
    assert_eq!(parent_dir("OEBPS/content.opf"), "OEBPS");
    assert_eq!(parent_dir("a/b/content.opf"), "a/b");
    assert_eq!(parent_dir("content.opf"), "");
    assert_eq!(parent_dir(""), "");
    assert_eq!(remove_leading_slash("/a/b"), "a/b");
    assert_eq!(remove_leading_slash("a/b"), "a/b");
    assert_eq!(remove_leading_slash(""), "");
}

// ---- obfuscation ----

fn sha1_of(text: &str) -> Vec<u8> {
    <sha1::Sha1 as sha1::Digest>::digest(text.as_bytes()).to_vec()
}

fn sha256_of(text: &str) -> Vec<u8> {
    <sha2::Sha256 as sha2::Digest>::digest(text.as_bytes()).to_vec()
}

#[test]
fn idpf_obfuscation_masks_the_first_1040_bytes_with_the_digest() {
    let key = "urn:uuid:12345678";
    let digest = sha1_of(key);
    assert_eq!(digest.len(), 20);
    let data: Vec<u8> = (0..2000u32).map(|i| (i % 251) as u8).collect();
    let masked = idpf_font_encryption(&data, key);
    assert_eq!(masked.len(), data.len());
    assert_ne!(masked, data);
    for i in 0..data.len() {
        if i < 1040 {
            assert_eq!(masked[i], data[i] ^ digest[i % 20]);
        } else {
            assert_eq!(masked[i], data[i]);
        }
    }
    assert_eq!(idpf_font_dencryption(&masked, key), data);
}

#[test]
fn adobe_obfuscation_masks_the_first_1024_bytes_with_the_identifier() {
    let key = "abcdefghijklmnopqrstuvwxyz";
    let data: Vec<u8> = (0..1500u32).map(|i| (i % 7) as u8).collect();
    let masked = adobe_font_encryption(&data, key);
    for i in 0..data.len() {
        if i < 1024 {
            assert_eq!(masked[i], data[i] ^ key.as_bytes()[i % 16]);
        } else {
            assert_eq!(masked[i], data[i]);
        }
    }
    assert_eq!(adobe_font_dencryption(&masked, key), data);

    // a short identifier is repeated
    let masked = adobe_font_encryption(&[0u8; 16], "abc");
    assert_eq!(masked, b"abcabcabcabcabca".to_vec());
    // without identifier nothing is masked
    assert_eq!(adobe_font_encryption(&[1, 2, 3], ""), vec![1, 2, 3]);
}

#[test]
fn obfuscating_twice_gives_the_data_back() {
    for len in [0usize, 1, 15, 16, 17, 1023, 1024, 1025, 1039, 1040, 1041, 3000] {
        let data: Vec<u8> = (0..len).map(|i| (i * 31 % 256) as u8).collect();
        let key = "urn:isbn:9780000000000";
        assert_eq!(
            idpf_font_encryption(&idpf_font_encryption(&data, key), key),
            data
        );
        assert_eq!(
            adobe_font_encryption(&adobe_font_encryption(&data, key), key),
            data
        );
    }
    assert!(idpf_font_encryption(&[], "key").is_empty());
    assert!(adobe_font_encryption(&[], "key").is_empty());
}

#[test]
fn the_mask_repeats_with_its_period() {
    assert_eq!(
        apply_mask(&[0, 0, 0, 0, 0, 0], &[1, 2, 3], 2, 5),
        vec![1, 2, 1, 2, 1, 0]
    );
    assert_eq!(apply_mask(&[9, 9], &[], 16, 2), vec![9, 9]);
    assert_eq!(apply_mask(&[9, 9], &[1], 0, 2), vec![9, 9]);
}

#[test]
fn xml_masks_use_the_sha256_digest() {
    let key = "secret";
    let digest = sha256_of(key);
    let data: Vec<u8> = (0..100u32).map(|i| i as u8).collect();
    let masked = xml_encryption_aes128_cbc(&data, key);
    for i in 0..data.len() {
        assert_eq!(masked[i], data[i] ^ digest[i % 16]);
    }
    assert_eq!(xml_decryption_aes128_cbc(&masked, key), data);
    let masked = xml_encryption_aes192_cbc(&data, key);
    assert_eq!(masked[30], data[30] ^ digest[30 % 24]);
    let masked = xml_encryption_aes256_cbc(&data, key);
    assert_eq!(masked[40], data[40] ^ digest[40 % 32]);
}

// ---- decoding ----

#[test]
fn decoding_falls_back_step_by_step() {
    // a UTF-8 mark that is followed by invalid UTF-8
    let err = decode_bytes(&[0xEF, 0xBB, 0xBF, 0xFF, 0xFF]).unwrap_err();
    assert!(matches!(err, EpubError::Utf8DecodeError { .. }));
    assert!(err.to_string().starts_with("Decode error: "));
    // a UTF-16 mark that is followed by a lone surrogate
    let err = decode_bytes(&[0xFE, 0xFF, 0xD8, 0x00]).unwrap_err();
    assert!(matches!(err, EpubError::Utf16DecodeError { .. }));
    // without mark: not UTF-8, but UTF-16 in big-endian order
    assert_eq!(decode_bytes(&[0x00, 0x48, 0x00, 0xE9]).unwrap(), "H\u{e9}");
    // without mark, of odd length, not UTF-8: replacement characters
    assert_eq!(
        decode_bytes(&[b'a', 0xFF, b'b', b'c', b'd']).unwrap(),
        "a\u{fffd}bcd"
    );
    assert_eq!(decode_bytes(&[1, 2, 3]).unwrap_err(), EpubError::EmptyDataError);
}

// ---- XML ----

#[test]
fn the_tree_of_a_document_is_built() {
    let root = parse(
        r#"<?xml version="1.0"?>
        <!-- a comment -->
        <package xmlns="http://www.idpf.org/2007/opf" xmlns:dc="http://purl.org/dc/elements/1.1/" version="3.0">
          <metadata>
            <dc:title id="t">  A   Title </dc:title>
            <meta property="x">y</meta>
          </metadata>
          <manifest><item id="a" href="a.xhtml"/></manifest>
        </package>"#,
    );
    assert_eq!(root.name, "package");
    assert_eq!(root.prefix, None);
    assert_eq!(root.namespace, Some("http://www.idpf.org/2007/opf".to_string()));
    assert_eq!(root.get_attr("version"), Some("3.0".to_string()));
    assert_eq!(root.get_attr("xmlns"), None);
    assert_eq!(root.children.len(), 2);

    let titles = root.find_elements_by_name("title");
    assert_eq!(titles.len(), 1);
    assert_eq!(titles[0].tag_name(), "dc:title");
    assert_eq!(
        titles[0].namespace,
        Some("http://purl.org/dc/elements/1.1/".to_string())
    );
    assert_eq!(titles[0].text(), "A   Title");
    assert_eq!(titles[0].get_attr("id"), Some("t".to_string()));

    let metadata = &root.children[0];
    assert_eq!(metadata.find_children_by_name("meta").len(), 1);
    assert_eq!(metadata.find_children_by_names(&["title", "meta"]).len(), 2);
    assert_eq!(metadata.children().len(), 2);
    assert_eq!(metadata.text(), "A   Titley");

    let items = root.find_elements_by_name("item");
    assert_eq!(items.len(), 1);
    assert_eq!(items[0].get_attr("href"), Some("a.xhtml".to_string()));
    assert!(root.find_elements_by_name("nothing").is_empty());
}

#[test]
fn parsing_fails_on_what_is_no_document() {
    assert_eq!(XmlReader::parse("").unwrap_err(), EpubError::EmptyDataError);
    assert_eq!(
        XmlReader::parse("<!-- only a comment -->").unwrap_err(),
        EpubError::EmptyDataError
    );
    let err = XmlReader::parse("<a><b></a>").unwrap_err();
    assert!(matches!(err, EpubError::QuickXmlError { .. }));
    assert!(err.to_string().starts_with("QuickXml error: "));
    assert_eq!(
        XmlReader::parse_bytes(vec![b'<', b'a']).unwrap_err(),
        EpubError::EmptyDataError
    );
    let root = XmlReader::parse_bytes(b"<a><b/></a>".to_vec()).unwrap();
    assert_eq!(root.children.len(), 1);
}

#[test]
fn the_tree_builder_follows_its_tokens() {
    let tag = |name: &str, attributes: Vec<(&str, &str)>| XmlTag {
        name: name.to_string(),
        prefix: None,
        attributes: attributes
            .into_iter()
            .map(|(k, v)| (k.to_string(), v.to_string()))
            .collect(),
    };
    let mut builder = TreeBuilder::new();
    builder.feed(XmlToken::Text("before the root".to_string()));
    builder.feed(XmlToken::Start(tag(
        "root",
        vec![("xmlns", "urn:x"), ("a", "1"), ("a", "2"), ("xmlns:p", "urn:p")],
    )));
    builder.feed(XmlToken::Text("   ".to_string()));
    builder.feed(XmlToken::Text("first".to_string()));
    builder.feed(XmlToken::Text("second".to_string()));
    builder.feed(XmlToken::Empty(XmlTag {
        name: "leaf".to_string(),
        prefix: Some("p".to_string()),
        attributes: vec![],
    }));
    builder.feed(XmlToken::Start(tag("child", vec![])));
    builder.feed(XmlToken::CData("raw".to_string()));
    builder.feed(XmlToken::Other);
    builder.feed(XmlToken::End);
    assert_eq!(builder.open.len(), 1);
    assert!(builder.root.is_none());
    builder.feed(XmlToken::End);
    builder.feed(XmlToken::End);
    let root = builder.finish().unwrap();

    assert_eq!(root.name, "root");
    assert_eq!(root.namespace, Some("urn:x".to_string()));
    assert_eq!(root.attributes, vec![("a".to_string(), "2".to_string())]);
    assert_eq!(root.text, Some("second".to_string()));
    assert_eq!(root.children.len(), 2);
    assert_eq!(root.children[0].name, "leaf");
    assert_eq!(root.children[0].namespace, Some("urn:p".to_string()));
    assert_eq!(root.children[1].name, "child");
    assert_eq!(root.children[1].cdata, Some("raw".to_string()));
    assert_eq!(root.children[1].namespace, Some("urn:x".to_string()));

    assert_eq!(
        TreeBuilder::new().finish().unwrap_err(),
        EpubError::EmptyDataError
    );
}

#[test]
fn documents_are_written_piece_by_piece() {
    let pieces = vec![
        decl(),
        start_with(
            "a",
            vec![("k".to_string(), "x<y".to_string())],
        ),
        text("1 & 2"),
        empty_with("b", vec![]),
        end("a"),
    ];
    let bytes = render(&pieces).unwrap();
    let written = String::from_utf8(bytes).unwrap();
    assert_eq!(
        written,
        "<?xml version=\"1.0\" encoding=\"UTF-8\"?><a k=\"x&lt;y\">1 &amp; 2<b/></a>"
    );
    assert_eq!(render(&Vec::new()).unwrap(), Vec::<u8>::new());
}

// ---- package ----

#[test]
fn the_container_names_the_package_document() {
    let container = parse(
        r#"<container><rootfiles><rootfile full-path="OEBPS/content.opf"/><rootfile full-path="other.opf"/></rootfiles></container>"#,
    );
    assert_eq!(parse_container(&container).unwrap(), "OEBPS/content.opf");

    let err = parse_container(&parse("<container><rootfiles/></container>")).unwrap_err();
    assert_eq!(
        err,
        EpubError::NonCanonicalFile {
            tag: "rootfile".to_string()
        }
    );
    assert_eq!(
        err.to_string(),
        "Non-canonical file: The \"rootfile\" elements was not found."
    );
    let err = parse_container(&parse("<container><rootfile/></container>")).unwrap_err();
    assert_eq!(
        err,
        EpubError::MissingRequiredAttribute {
            tag: "rootfile".to_string(),
            attribute: "full-path".to_string()
        }
    );
    assert_eq!(
        err.to_string(),
        "Missing required attribute: The \"full-path\" attribute is a must attribute for the \"rootfile\" element."
    );
}

#[test]
fn the_version_is_told_from_the_attribute_or_the_shape() {
    let explicit = parse(r#"<package version="3.0"><spine toc="ncx"/></package>"#);
    assert_eq!(
        determine_epub_version(&explicit).unwrap(),
        EpubVersion::Version3_0
    );
    let explicit = parse(r#"<package version="2.0"><manifest><item id="nav"/></manifest></package>"#);
    assert_eq!(
        determine_epub_version(&explicit).unwrap(),
        EpubVersion::Version2_0
    );
    let legacy = parse(r#"<package><manifest><item id="nav"/></manifest><spine toc="ncx"/></package>"#);
    assert_eq!(
        determine_epub_version(&legacy).unwrap(),
        EpubVersion::Version2_0
    );
    let modern = parse(r#"<package><manifest><item id="a"/><item id="nav"/></manifest><spine/></package>"#);
    assert_eq!(
        determine_epub_version(&modern).unwrap(),
        EpubVersion::Version3_0
    );
    let unknown = parse(r#"<package version="4.0"><manifest><item id="a"/></manifest><spine/></package>"#);
    let err = determine_epub_version(&unknown).unwrap_err();
    assert_eq!(err, EpubError::UnrecognizedEpubVersion);
    assert_eq!(
        err.to_string(),
        "Unrecognized EPUB version: Unable to identify version number and version characteristics from epub file"
    );
    let err = determine_epub_version(&parse("<package><manifest/></package>")).unwrap_err();
    assert_eq!(
        err,
        EpubError::NonCanonicalFile {
            tag: "spine".to_string()
        }
    );
    let err = determine_epub_version(&parse("<package><spine/></package>")).unwrap_err();
    assert_eq!(
        err,
        EpubError::NonCanonicalFile {
            tag: "manifest".to_string()
        }
    );
}

#[test]
fn the_spine_is_read_in_order() {
    let spine = parse(
        r#"<spine><itemref idref="a"/><itemref idref="b" linear="no" id="x" properties="p q"/><itemref idref="c" linear="yes"/><itemref idref="d" linear="maybe"/></spine>"#,
    );
    let items = parse_spine(&spine).unwrap();
    assert_eq!(items.len(), 4);
    assert_eq!(items[0].idref, "a");
    assert!(items[0].linear);
    assert_eq!(items[0].id, None);
    assert!(!items[1].linear);
    assert_eq!(items[1].id, Some("x".to_string()));
    assert_eq!(items[1].properties, Some("p q".to_string()));
    assert!(items[2].linear);
    assert!(items[3].linear);

    let err = parse_spine(&parse(r#"<spine><itemref idref="a"/><itemref/></spine>"#)).unwrap_err();
    assert_eq!(
        err,
        EpubError::MissingRequiredAttribute {
            tag: "itemref".to_string(),
            attribute: "idref".to_string()
        }
    );
}

#[test]
fn the_manifest_is_read_with_resolved_paths() {
    let manifest = parse(
        r#"<manifest>
            <item id="a" href="text/a.xhtml" media-type="application/xhtml+xml"/>
            <item id="b" href="../b.css" media-type="text/css" fallback="a"/>
            <item id="c" href="/c.png" media-type="image/png" properties="cover-image"/>
            <item id="a" href="again.xhtml" media-type="text/html"/>
        </manifest>"#,
    );
    let items = parse_manifest(&manifest, "OEBPS").unwrap();
    assert_eq!(items.len(), 3);
    assert_eq!(items.items[0].id, "a");
    assert_eq!(items.items[0].path, "OEBPS/again.xhtml");
    assert_eq!(items.items[0].mime, "text/html");
    assert_eq!(items.get("b").unwrap().path, "b.css");
    assert_eq!(items.get("b").unwrap().fallback, Some("a".to_string()));
    assert_eq!(items.get("c").unwrap().path, "c.png");
    assert_eq!(
        items.get("c").unwrap().properties,
        Some("cover-image".to_string())
    );
    assert!(items.get("d").is_none());

    let leaking = parse(r#"<manifest><item id="a" href="../../a" media-type="x/y"/></manifest>"#);
    assert_eq!(
        parse_manifest(&leaking, "OEBPS").unwrap_err(),
        EpubError::RealtiveLinkLeakage {
            path: "../../a".to_string()
        }
    );
    for (document, attribute) in [
        (r#"<manifest><item href="a" media-type="x/y"/></manifest>"#, "id"),
        (r#"<manifest><item id="a" media-type="x/y"/></manifest>"#, "href"),
        (r#"<manifest><item id="a" href="a"/></manifest>"#, "media-type"),
    ] {
        assert_eq!(
            parse_manifest(&parse(document), "").unwrap_err(),
            EpubError::MissingRequiredAttribute {
                tag: "item".to_string(),
                attribute: attribute.to_string()
            }
        );
    }
}

#[test]
fn modern_metadata_is_read_with_its_refinements() {
    let package = parse(
        r##"<package xmlns="http://www.idpf.org/2007/opf" xmlns:dc="http://purl.org/dc/elements/1.1/" unique-identifier="uid">
          <metadata>
            <dc:identifier id="other">one</dc:identifier>
            <dc:identifier id="uid">two</dc:identifier>
            <dc:creator id="c1" lang="en">  Jane
               Doe </dc:creator>
            <meta refines="#c1" property="role" scheme="marc:relators">aut</meta>
            <meta refines="c1" property="file-as">Doe, Jane</meta>
            <meta property="dcterms:modified">2024-01-01T00:00:00Z</meta>
            <link href="record.xml" rel="record" media-type="application/xml"/>
            <other>ignored</other>
          </metadata>
        </package>"##,
    );
    let metadata_element = package.find_elements_by_name("metadata")[0];
    let (items, links) = parse_metadata(metadata_element, EpubVersion::Version3_0).unwrap();
    assert_eq!(items.len(), 4);
    assert_eq!(items[2].property, "creator");
    assert_eq!(items[2].value, "Jane Doe");
    assert_eq!(items[2].lang, Some("en".to_string()));
    assert_eq!(items[2].refined.len(), 2);
    assert_eq!(items[2].refined[0].refines, "c1");
    assert_eq!(items[2].refined[0].property, "role");
    assert_eq!(items[2].refined[0].value, "aut");
    assert_eq!(
        items[2].refined[0].scheme,
        Some("marc:relators".to_string())
    );
    assert_eq!(items[2].refined[1].value, "Doe, Jane");
    assert_eq!(items[3].property, "dcterms:modified");
    assert!(items[3].refined.is_empty());
    assert_eq!(links.len(), 1);
    assert_eq!(links[0].href, "record.xml");
    assert_eq!(links[0].rel, "record");
    assert_eq!(links[0].mime, Some("application/xml".to_string()));
    assert_eq!(links[0].refines, None);

    assert_eq!(resolve_unique_identifier(&package, &items).unwrap(), "two");
    let unnamed = parse("<package></package>");
    assert_eq!(resolve_unique_identifier(&unnamed, &items).unwrap(), "one");
    assert_eq!(
        resolve_unique_identifier(&unnamed, &Vec::new()).unwrap_err(),
        EpubError::NonCanonicalFile {
            tag: "dc:identifier".to_string()
        }
    );
}

#[test]
fn legacy_metadata_is_read_with_attributes_as_refinements() {
    let package = parse(
        r#"<package xmlns="http://www.idpf.org/2007/opf" xmlns:dc="http://purl.org/dc/elements/1.1/" xmlns:opf="http://www.idpf.org/2007/opf">
          <metadata>
            <dc:creator id="c1" opf:role="aut">Jane Doe</dc:creator>
            <dc:title>No id</dc:title>
            <meta name="cover" content=" cover-image "/>
          </metadata>
        </package>"#,
    );
    let metadata_element = package.find_elements_by_name("metadata")[0];
    let (items, _) = parse_metadata(metadata_element, EpubVersion::Version2_0).unwrap();
    assert_eq!(items.len(), 3);
    assert_eq!(items[0].refined.len(), 2);
    assert_eq!(items[0].refined[0].property, "id");
    assert_eq!(items[0].refined[1].property, "opf:role");
    assert_eq!(items[0].refined[1].value, "aut");
    assert_eq!(items[0].refined[1].refines, "c1");
    assert!(items[1].refined.is_empty());
    assert_eq!(items[2].property, "cover");
    assert_eq!(items[2].value, "cover-image");

    let broken = parse(
        r#"<package xmlns="http://www.idpf.org/2007/opf"><metadata><meta name="cover"/></metadata></package>"#,
    );
    assert_eq!(
        parse_metadata(&broken.children[0], EpubVersion::Version2_0).unwrap_err(),
        EpubError::MissingRequiredAttribute {
            tag: "meta".to_string(),
            attribute: "content".to_string()
        }
    );
    assert_eq!(
        parse_metadata(&broken.children[0], EpubVersion::Version3_0).unwrap_err(),
        EpubError::MissingRequiredAttribute {
            tag: "meta".to_string(),
            attribute: "property".to_string()
        }
    );
    let broken = parse(
        r#"<package xmlns="http://www.idpf.org/2007/opf"><metadata><meta content="x"/><link rel="r"/></metadata></package>"#,
    );
    assert_eq!(
        parse_metadata(&broken.children[0], EpubVersion::Version2_0).unwrap_err(),
        EpubError::NonCanonicalFile {
            tag: "meta".to_string()
        }
    );
}

#[test]
fn encryption_records_are_read() {
    let document = parse(
        r#"<encryption xmlns="urn:oasis:names:tc:opendocument:xmlns:container" xmlns:enc="http://www.w3.org/2001/04/xmlenc#">
          <enc:EncryptedData>
            <enc:EncryptionMethod Algorithm="http://www.idpf.org/2008/embedding"/>
            <enc:CipherData><enc:CipherReference URI="OEBPS/fonts/a.otf"/></enc:CipherData>
          </enc:EncryptedData>
          <enc:Other/>
        </encryption>"#,
    );
    let records = parse_encryption(&document).unwrap().unwrap();
    assert_eq!(records.len(), 1);
    assert_eq!(records[0].method, "http://www.idpf.org/2008/embedding");
    assert_eq!(records[0].data, "OEBPS/fonts/a.otf");

    assert!(parse_encryption(&parse("<encryption></encryption>"))
        .unwrap()
        .is_none());
    // an element that closes itself is never the root of a tree
    assert_eq!(
        XmlReader::parse("<encryption/>").unwrap_err(),
        EpubError::EmptyDataError
    );
    assert_eq!(
        parse_encryption(&parse(
            "<encryption><EncryptedData><CipherReference URI=\"a\"/></EncryptedData></encryption>"
        ))
        .unwrap_err(),
        EpubError::NonCanonicalFile {
            tag: "EncryptionMethod".to_string()
        }
    );
    assert_eq!(
        parse_encryption(&parse(
            "<encryption><EncryptedData><EncryptionMethod Algorithm=\"m\"/><CipherReference/></EncryptedData></encryption>"
        ))
        .unwrap_err(),
        EpubError::MissingRequiredAttribute {
            tag: "CipherReference".to_string(),
            attribute: "URI".to_string()
        }
    );
}

// ---- navigation ----

#[test]
fn the_navigation_document_is_read() {
    let document = parse(
        r#"<html xmlns="http://www.w3.org/1999/xhtml" xmlns:epub="http://www.idpf.org/2007/ops">
          <body>
            <nav epub:type="landmarks"><ol><li><a href="x">X</a></li></ol></nav>
            <nav epub:type="toc">
              <h2>Contents</h2>
              <ol>
                <li><a href="a.xhtml">One</a>
                  <ol><li><span>One.One</span></li></ol>
                </li>
                <li><span>Two</span></li>
              </ol>
            </nav>
          </body>
        </html>"#,
    );
    let catalog = parse_nav_document(&document).unwrap();
    assert_eq!(catalog.title, Some("Contents".to_string()));
    assert_eq!(catalog.points.len(), 2);
    assert_eq!(catalog.points[0].label, "One");
    assert_eq!(catalog.points[0].content, Some("a.xhtml".to_string()));
    assert_eq!(catalog.points[0].children.len(), 1);
    assert_eq!(catalog.points[0].children[0].label, "One.One");
    assert_eq!(catalog.points[0].children[0].content, None);
    assert_eq!(catalog.points[1].label, "Two");
    assert_eq!(catalog.points[1].play_order, None);

    let err = parse_nav_document(&parse("<html><nav><ol/></nav></html>")).unwrap_err();
    assert_eq!(
        err,
        EpubError::NonCanonicalFile {
            tag: "nav".to_string()
        }
    );
    let err = parse_nav_document(&parse(r#"<html><nav epub:type="toc"><h1>T</h1></nav></html>"#))
        .unwrap_err();
    assert_eq!(
        err,
        EpubError::NonCanonicalFile {
            tag: "ol".to_string()
        }
    );
    let err = parse_nav_document(&parse(
        r#"<html><nav epub:type="toc"><ol><div/></ol></nav></html>"#,
    ))
    .unwrap_err();
    assert_eq!(
        err,
        EpubError::NonCanonicalFile {
            tag: "li".to_string()
        }
    );
    let err = parse_nav_document(&parse(
        r#"<html><nav epub:type="toc"><ol><li><p>x</p></li></ol></nav></html>"#,
    ))
    .unwrap_err();
    assert_eq!(
        err,
        EpubError::NonCanonicalFile {
            tag: "span/a".to_string()
        }
    );
}

#[test]
fn the_ncx_document_is_read_in_play_order() {
    let document = parse(
        r#"<ncx>
          <docTitle><text>The Title</text></docTitle>
          <navMap>
            <navPoint playOrder="2"><navLabel><text>Second</text></navLabel><content src="b.html"/></navPoint>
            <navPoint><navLabel><text>Unplaced</text></navLabel></navPoint>
            <navPoint playOrder="1"><navLabel><text>First</text></navLabel><content src="a.html"/>
              <navPoint playOrder="4"><navLabel><text>Later</text></navLabel></navPoint>
              <navPoint playOrder="3"><navLabel><text>Sooner</text></navLabel></navPoint>
            </navPoint>
            <navPoint playOrder="1"><navLabel><text>Also first</text></navLabel></navPoint>
          </navMap>
        </ncx>"#,
    );
    let catalog = parse_ncx(&document).unwrap();
    assert_eq!(catalog.title, Some("The Title".to_string()));
    let labels: Vec<&str> = catalog.points.iter().map(|p| p.label.as_str()).collect();
    assert_eq!(labels, vec!["Unplaced", "First", "Also first", "Second"]);
    assert_eq!(catalog.points[1].play_order, Some(1));
    assert_eq!(catalog.points[0].content, None);
    assert_eq!(catalog.points[1].content, Some("".to_string()));
    let below: Vec<&str> = catalog.points[1]
        .children
        .iter()
        .map(|p| p.label.as_str())
        .collect();
    assert_eq!(below, vec!["Sooner", "Later"]);

    let untitled = parse_ncx(&parse("<ncx><navMap/></ncx>")).unwrap();
    assert_eq!(untitled.title, None);
    assert!(untitled.points.is_empty());
    assert_eq!(
        parse_ncx(&parse("<ncx><docTitle/></ncx>")).unwrap_err(),
        EpubError::NonCanonicalFile {
            tag: "navMap".to_string()
        }
    );
}

#[test]
fn sorting_by_play_order_is_stable() {
    let point = |label: &str, order: Option<usize>| NavPoint {
        label: label.to_string(),
        content: None,
        children: vec![],
        play_order: order,
    };
    let sorted = sort_by_play_order(vec![
        point("c", Some(3)),
        point("a1", Some(1)),
        point("n1", None),
        point("a2", Some(1)),
        point("n2", None),
        point("b", Some(2)),
    ]);
    let labels: Vec<&str> = sorted.iter().map(|p| p.label.as_str()).collect();
    assert_eq!(labels, vec!["n1", "n2", "a1", "a2", "b", "c"]);
    assert!(sort_by_play_order(vec![]).is_empty());
}

// ---- fallback chains ----

fn manifest_of(entries: &[(&str, Option<&str>, &str)]) -> Manifest {
    let mut manifest = Manifest::new();
    for (id, fallback, mime) in entries {
        let mut item = ManifestItem::new(id, id).unwrap().set_mime(mime);
        if let Some(fallback) = fallback {
            item.with_fallback(fallback);
        }
        manifest.insert(item);
    }
    manifest
}

#[test]
fn a_chain_that_comes_back_is_circular() {
    let manifest = manifest_of(&[("a", Some("b"), "x/a"), ("b", Some("a"), "x/b")]);
    let mut chain = Vec::new();
    let fault = check_fallback_chain(&manifest, "a", &mut chain).unwrap_err();
    assert!(matches!(fault, ChainFault::Circular));
    assert_eq!(chain, vec!["a", "b", "a"]);

    let manifest = manifest_of(&[("a", Some("a"), "x/a")]);
    let mut chain = Vec::new();
    assert!(check_fallback_chain(&manifest, "a", &mut chain).is_err());
    assert_eq!(chain, vec!["a", "a"]);
}

#[test]
fn a_chain_that_ends_is_valid() {
    let manifest = manifest_of(&[
        ("a", Some("b"), "x/a"),
        ("b", Some("c"), "x/b"),
        ("c", None, "x/c"),
    ]);
    let mut chain = Vec::new();
    assert!(check_fallback_chain(&manifest, "a", &mut chain).is_ok());
    assert_eq!(chain, vec!["a", "b"]);
}

#[test]
fn a_chain_that_leads_nowhere_is_missing_its_target() {
    let manifest = manifest_of(&[("a", Some("b"), "x/a"), ("b", Some("z"), "x/b")]);
    let mut chain = Vec::new();
    match check_fallback_chain(&manifest, "a", &mut chain).unwrap_err() {
        ChainFault::Missing(id) => assert_eq!(id, "z"),
        ChainFault::Circular => panic!("the chain is not circular"),
    }
    let mut chain = Vec::new();
    match check_fallback_chain(&manifest, "q", &mut chain).unwrap_err() {
        ChainFault::Missing(id) => assert_eq!(id, "q"),
        ChainFault::Circular => panic!("the chain is not circular"),
    }
}

#[test]
fn the_first_supported_entry_of_a_chain_is_picked() {
    let manifest = manifest_of(&[
        ("a", Some("b"), "x/a"),
        ("b", Some("c"), "x/b"),
        ("c", Some("a"), "x/c"),
        ("d", Some("z"), "x/d"),
    ]);
    assert!(matches!(pick_supported(&manifest, "a", &vec!["x/c", "x/b"]), Picked::Found(id) if id == "b"));
    assert!(matches!(pick_supported(&manifest, "a", &vec!["x/a"]), Picked::Found(id) if id == "a"));
    assert!(matches!(pick_supported(&manifest, "a", &vec!["x/q"]), Picked::Exhausted));
    assert!(matches!(pick_supported(&manifest, "d", &vec!["x/q"]), Picked::Unknown(id) if id == "z"));
    assert!(matches!(pick_supported(&manifest, "q", &vec!["x/q"]), Picked::Unknown(id) if id == "q"));
}

// ---- spine ----

#[test]
fn the_next_and_the_previous_linear_entry_are_found() {
    let spine = vec![
        SpineItem::new("a"),
        SpineItem::new("b"),
        SpineItem::new("c").set_linear(false).build(),
        SpineItem::new("d"),
    ];
    assert_eq!(next_spine_index(&spine, 0), Some(1));
    assert_eq!(next_spine_index(&spine, 1), Some(3));
    assert_eq!(next_spine_index(&spine, 3), None);
    assert_eq!(next_spine_index(&spine, 2), None);
    assert_eq!(next_spine_index(&spine, 9), None);
    assert_eq!(prev_spine_index(&spine, 3), Some(1));
    assert_eq!(prev_spine_index(&spine, 1), Some(0));
    assert_eq!(prev_spine_index(&spine, 0), None);
    assert_eq!(prev_spine_index(&spine, 2), None);
    assert_eq!(next_spine_index(&Vec::new(), 0), None);
}

// ---- errors ----

#[test]
fn every_error_has_its_message() {
    let cases: Vec<(EpubError, &str)> = vec![
        (EpubError::EmptyDataError, "Decode error: The data is empty."),
        (
            EpubError::FailedParsingXml,
            "Failed parsing XML error: Unknown problems occurred during XML parsing, causing parsing failure.",
        ),
        (EpubError::MutexError, "Mutex error: Mutex was poisoned."),
        (
            EpubError::NonCanonicalEpub { expected_file: "f".to_string() },
            "Non-canonical epub: The \"f\" file was not found.",
        ),
        (
            EpubError::NoSupportedFileFormat,
            "No supported file format: The fallback resource does not contain the file format you support.",
        ),
        (
            EpubError::ResourceNotFound { resource: "r".to_string() },
            "Resource not found: Unable to find resource from \"r\".",
        ),
        (
            EpubError::UnsupportedEncryptedMethod { method: "m".to_string() },
            "Unsupported encryption method: The \"m\" encryption method is not supported.",
        ),
        (
            EpubError::UnusableCompressionMethod { file: "f".to_string(), method: "m".to_string() },
            "Unusable compression method: The \"f\" file uses the unsupported \"m\" compression method.",
        ),
    ];
    for (error, message) in cases {
        assert_eq!(error.to_string(), message);
    }
    let cases: Vec<(EpubBuilderError, &str)> = vec![
        (
            EpubBuilderError::IllegalRootfilePath,
            "A rootfile path should be a relative path and not start with '../'.",
        ),
        (
            EpubBuilderError::ManifestCircularReference { fallback_chain: "a->b->a".to_string() },
            "Circular reference detected in fallback chain for 'a->b->a'.",
        ),
        (EpubBuilderError::NavigationInfoUninitalized, "Navigation information is not set."),
        (
            EpubBuilderError::TargetIsNotFile { target_path: "p".to_string() },
            "Expect a file, but 'p' is not a file.",
        ),
        (
            EpubBuilderError::InvalidFootnoteLocate { max_locate: 12 },
            "The footnote locate must be in the range of [1, 12].",
        ),
    ];
    for (error, message) in cases {
        assert_eq!(error.to_string(), message);
    }
    assert_ne!(
        EpubError::ResourceNotFound { resource: "a".to_string() },
        EpubError::ResourceNotFound { resource: "b".to_string() }
    );
    assert_ne!(
        EpubError::EmptyDataError,
        EpubError::FailedParsingXml
    );
}

#[test]
fn an_entry_that_is_neither_stored_nor_deflated_is_refused() {
    let entry = |compression: Compression| EntryInfo {
        file: "a.bin".to_string(),
        compression,
        method: "Bzip2".to_string(),
    };
    assert!(check_entry(entry(Compression::Stored)).is_ok());
    assert!(check_entry(entry(Compression::Deflated)).is_ok());
    let err = check_entry(entry(Compression::Other)).unwrap_err();
    assert_eq!(
        err,
        EpubError::UnusableCompressionMethod {
            file: "a.bin".to_string(),
            method: "Bzip2".to_string()
        }
    );
    assert_eq!(
        EpubBuilderError::InvalidTargetPath { target_path: "/".to_string() }.to_string(),
        "The target path '/' is invalid."
    );
    assert_eq!(
        EpubBuilderError::NotExpectedFileFormat.to_string(),
        "The file format is not current block expected."
    );
}

#[test]
fn a_reference_from_the_root_that_climbs_is_refused() {
    let err = normalize_manifest_path("OEBPS", "/../x").unwrap_err();
    assert!(matches!(err, EpubError::RealtiveLinkLeakage { ref path } if path == "/../x"));
    assert_eq!(normalize_manifest_path("OEBPS", "/x/../y").unwrap(), "x/../y");
    assert_eq!(normalize_manifest_path("OEBPS", "/..x").unwrap(), "..x");
}

#[test]
fn a_directory_outside_the_container_is_refused() {
    let err = normalize_manifest_path("../OEBPS", "x").unwrap_err();
    assert!(matches!(err, EpubError::RealtiveLinkLeakage { ref path } if path == "x"));
}

#[test]
fn a_failure_of_walking_shows_its_kind() {
    let source = walkdir::WalkDir::new("/no/such/directory/anywhere")
        .into_iter()
        .next()
        .unwrap()
        .unwrap_err();
    let err = EpubError::WalkDirError { source };
    assert!(err.to_string().starts_with("WalkDir error: "));
    assert!(err.to_string().len() > "WalkDir error: ".len());
}
