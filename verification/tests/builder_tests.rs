use lib_epub::builder::{refine_mime_type, EpubBuilder, EpubVersion3};
use lib_epub::types::{ManifestItem, MetadataItem, NavPoint, SpineItem};

#[test]
fn test_epub_builder_new() {
    let builder = EpubBuilder::<EpubVersion3>::new();
    assert!(builder.is_ok());

    let builder = builder.unwrap();
    assert!(builder.staged.iter().any(|file| file.path == "mimetype"));
    assert!(builder.rootfiles.is_empty());
    assert!(builder.metadata.is_empty());
    assert!(builder.manifest.is_empty());
    assert!(builder.spine.is_empty());
    assert!(builder.catalog_title.is_empty());
    assert!(builder.catalog.is_empty());
}

#[test]
fn test_add_rootfile() {
    let mut builder = EpubBuilder::<EpubVersion3>::new().unwrap();
    builder.add_rootfile("content.opf");

    assert_eq!(builder.rootfiles.len(), 1);
    assert_eq!(builder.rootfiles[0], "content.opf");

    // Test chaining
    builder
        .add_rootfile("another.opf")
        .add_rootfile("third.opf");
    assert_eq!(builder.rootfiles.len(), 3);
    assert_eq!(
        builder.rootfiles,
        vec!["content.opf", "another.opf", "third.opf"]
    );
}

#[test]
fn test_add_metadata() {
    let mut builder = EpubBuilder::<EpubVersion3>::new().unwrap();
    let metadata_item = MetadataItem::new("title", "Test Book");

    builder.add_metadata(metadata_item);

    assert_eq!(builder.metadata.len(), 1);
    assert_eq!(builder.metadata[0].property, "title");
    assert_eq!(builder.metadata[0].value, "Test Book");
}

#[test]
fn test_add_manifest_success() {
    let mut builder = EpubBuilder::<EpubVersion3>::new().unwrap();
    builder.add_rootfile("content.opf");

    let content = b"<html><body>Hello World</body></html>".to_vec();

    let manifest_item = ManifestItem::new("test", "test.xhtml").unwrap();
    let result = builder.add_manifest("test.xhtml", content, manifest_item);

    assert!(result.is_ok());
    assert_eq!(builder.manifest.len(), 1);
    assert!(builder.manifest.contains_key("test"));
}

#[test]
fn test_add_spine() {
    let mut builder = EpubBuilder::<EpubVersion3>::new().unwrap();
    let spine_item = SpineItem::new("test_item");

    builder.add_spine(spine_item.clone());

    assert_eq!(builder.spine.len(), 1);
    assert_eq!(builder.spine[0].idref, "test_item");
}

#[test]
fn test_set_catalog_title() {
    let mut builder = EpubBuilder::<EpubVersion3>::new().unwrap();
    let title = "Test Catalog Title";

    builder.set_catalog_title(title);

    assert_eq!(builder.catalog_title, title);
}

#[test]
fn test_add_catalog_item() {
    let mut builder = EpubBuilder::<EpubVersion3>::new().unwrap();
    let nav_point = NavPoint::new("Chapter 1");

    builder.add_catalog_item(nav_point.clone());

    assert_eq!(builder.catalog.len(), 1);
    assert_eq!(builder.catalog[0].label, "Chapter 1");
}

#[test]
fn test_set_catalog() {
    let mut builder = EpubBuilder::<EpubVersion3>::new().unwrap();
    let nav_points = vec![NavPoint::new("Chapter 1"), NavPoint::new("Chapter 2")];

    builder.set_catalog(nav_points.clone());

    assert_eq!(builder.catalog.len(), 2);
    assert_eq!(builder.catalog[0].label, "Chapter 1");
    assert_eq!(builder.catalog[1].label, "Chapter 2");
}

#[test]
fn test_validate_metadata_success() {
    let mut builder = EpubBuilder::<EpubVersion3>::new().unwrap();

    builder.add_metadata(MetadataItem::new("title", "Test Book"));
    builder.add_metadata(MetadataItem::new("language", "en"));
    builder.add_metadata(
        MetadataItem::new("identifier", "urn:isbn:1234567890")
            .with_id("pub-id")
            .build(),
    );

    assert!(builder.validate_metadata());
}

#[test]
fn test_validate_metadata_missing_required() {
    let mut builder = EpubBuilder::<EpubVersion3>::new().unwrap();

    builder.add_metadata(MetadataItem::new("title", "Test Book"));
    builder.add_metadata(MetadataItem::new("language", "en"));

    assert!(!builder.validate_metadata());
}

#[test]
fn test_validate_fallback_chain_valid() {
    let mut builder = EpubBuilder::<EpubVersion3>::new().unwrap();

    let item3 = ManifestItem::new("item3", "path3");
    assert!(item3.is_ok());

    let item3 = item3.unwrap();
    let item2 = ManifestItem::new("item2", "path2")
        .unwrap()
        .with_fallback("item3")
        .build();
    let item1 = ManifestItem::new("item1", "path1")
        .unwrap()
        .with_fallback("item2")
        .build();

    builder.manifest.insert(item3);
    builder.manifest.insert(item2);
    builder.manifest.insert(item1);

    let result = builder.validate_manifest_fallback_chains();
    assert!(result.is_ok());
}

#[test]
fn test_validate_fallback_chain_circular_reference() {
    let mut builder = EpubBuilder::<EpubVersion3>::new().unwrap();

    let item2 = ManifestItem::new("item2", "path2")
        .unwrap()
        .with_fallback("item1")
        .build();
    let item1 = ManifestItem::new("item1", "path1")
        .unwrap()
        .with_fallback("item2")
        .build();

    builder.manifest.insert(item1);
    builder.manifest.insert(item2);

    let result = builder.validate_manifest_fallback_chains();
    assert!(result.is_err());
    assert!(
        result.unwrap_err().to_string().starts_with(
            "Epub builder error: Circular reference detected in fallback chain for"
        ),
    );
}

#[test]
fn test_validate_fallback_chain_not_found() {
    let mut builder = EpubBuilder::<EpubVersion3>::new().unwrap();

    let item1 = ManifestItem::new("item1", "path1")
        .unwrap()
        .with_fallback("nonexistent")
        .build();

    builder.manifest.insert(item1);

    let result = builder.validate_manifest_fallback_chains();
    assert!(result.is_err());
    assert_eq!(
        result.unwrap_err().to_string(),
        "Epub builder error: Fallback resource 'nonexistent' does not exist in manifest."
    );
}

#[test]
fn test_validate_manifest_nav_single() {
    let mut builder = EpubBuilder::<EpubVersion3>::new().unwrap();

    let nav_item = ManifestItem::new("nav", "nav.xhtml")
        .unwrap()
        .append_property("nav")
        .build();
    builder.manifest.insert(nav_item);

    let result = builder.validate_manifest_nav();
    assert!(result.is_ok());
}

#[test]
fn test_validate_manifest_nav_multiple() {
    let mut builder = EpubBuilder::<EpubVersion3>::new().unwrap();

    let nav_item1 = ManifestItem::new("nav1", "nav1.xhtml")
        .unwrap()
        .append_property("nav")
        .build();
    let nav_item2 = ManifestItem::new("nav2", "nav2.xhtml")
        .unwrap()
        .append_property("nav")
        .build();

    builder.manifest.insert(nav_item1);
    builder.manifest.insert(nav_item2);

    let result = builder.validate_manifest_nav();
    assert!(result.is_err());
    assert_eq!(
        result.unwrap_err().to_string(),
        "Epub builder error: There are too many items with 'nav' property in the manifest."
    );
}

#[test]
fn test_make_opf_file_success() {
    let mut builder = EpubBuilder::<EpubVersion3>::new().unwrap();

    builder.add_rootfile("content.opf");
    builder.add_metadata(MetadataItem::new("title", "Test Book"));
    builder.add_metadata(MetadataItem::new("language", "en"));
    builder.add_metadata(
        MetadataItem::new("identifier", "urn:isbn:1234567890")
            .with_id("pub-id")
            .build(),
    );

    let manifest_result = builder.add_manifest(
        "test.xhtml",
        b"<html></html>".to_vec(),
        ManifestItem::new("test", "test.xhtml").unwrap(),
    );
    assert!(manifest_result.is_ok());

    builder.add_catalog_item(NavPoint::new("Chapter"));
    builder.add_spine(SpineItem::new("test"));

    let result = builder.make_navigation_document();
    assert!(result.is_ok());

    let result = builder.make_opf_file("2024-01-01T00:00:00Z");
    assert!(result.is_ok());

    assert!(builder.staged.iter().any(|file| file.path == "content.opf"));
}

#[test]
fn test_make_opf_file_missing_metadata() {
    let mut builder = EpubBuilder::<EpubVersion3>::new().unwrap();
    builder.add_rootfile("content.opf");

    let result = builder.make_opf_file("2024-01-01T00:00:00Z");
    assert!(result.is_err());
    assert_eq!(
        result.unwrap_err().to_string(),
        "Epub builder error: Requires at least one 'title', 'language', and 'identifier' with id 'pub-id'."
    );
}

#[test]
fn test_refine_mime_type() {
    assert_eq!(
        refine_mime_type("text/xml", "xhtml"),
        "application/xhtml+xml"
    );
    assert_eq!(
        refine_mime_type("application/xml", "opf"),
        "application/oebps-package+xml"
    );
    assert_eq!(refine_mime_type("text/plain", "css"), "text/css");
    assert_eq!(refine_mime_type("text/plain", "unknown"), "text/plain");
}

#[test]
fn a_refused_walk_leaves_the_ids_that_it_passed() {
    let mut builder = EpubBuilder::<EpubVersion3>::new().unwrap();
    builder
        .manifest
        .insert(ManifestItem::new("a", "pa").unwrap().with_fallback("b").build());
    builder
        .manifest
        .insert(ManifestItem::new("b", "pb").unwrap().with_fallback("a").build());

    let mut chain: Vec<String> = Vec::new();
    let err = builder.validate_fallback_chain("a", &mut chain).unwrap_err();
    assert!(err.to_string().contains("a->b->a"));
    assert_eq!(chain, vec!["a".to_string(), "b".to_string(), "a".to_string()]);
    assert_eq!(builder.manifest.items.len(), 2);
}

#[test]
fn a_walk_to_a_missing_id_leaves_the_ids_that_it_passed() {
    let mut builder = EpubBuilder::<EpubVersion3>::new().unwrap();
    builder
        .manifest
        .insert(ManifestItem::new("a", "pa").unwrap().with_fallback("b").build());
    builder
        .manifest
        .insert(ManifestItem::new("b", "pb").unwrap().with_fallback("gone").build());

    let mut chain: Vec<String> = Vec::new();
    assert!(builder.validate_fallback_chain("a", &mut chain).is_err());
    assert_eq!(chain, vec!["a".to_string()]);
}
