use lib_epub::error::EpubError;
use lib_epub::text::NormalizeWhitespace;
use lib_epub::DecodeBytes;

#[test]
fn test_decode_empty_data() {
    let data: Vec<u8> = vec![];
    let result = data.decode();
    assert!(result.is_err());
    assert_eq!(result.unwrap_err(), EpubError::EmptyDataError);
}

#[test]
fn test_decode_short_data() {
    let data: Vec<u8> = vec![0xEF, 0xBB];
    let result = data.decode();
    assert!(result.is_err());
    assert_eq!(result.unwrap_err(), EpubError::EmptyDataError);
}

#[test]
fn test_decode_utf8_with_bom() {
    let data: Vec<u8> = vec![0xEF, 0xBB, 0xBF, b'H', b'e', b'l', b'l', b'o'];
    let result = data.decode();
    assert!(result.is_ok());
    assert_eq!(result.unwrap(), "Hello");
}

#[test]
fn test_decode_utf16_be_with_bom() {
    let data: Vec<u8> = vec![
        0xFE, 0xFF, // BOM
        0x00, b'H', // H
        0x00, b'e', // e
        0x00, b'l', // l
        0x00, b'l', // l
        0x00, b'o', // o
    ];
    let result = data.decode();
    assert!(result.is_ok());
    assert_eq!(result.unwrap(), "Hello");
}

#[test]
fn test_decode_utf16_le_with_bom() {
    let data: Vec<u8> = vec![
        0xFF, 0xFE, // BOM
        b'H', 0x00, // H
        b'e', 0x00, // e
        b'l', 0x00, // l
        b'l', 0x00, // l
        b'o', 0x00, // o
    ];
    let result = data.decode();
    assert!(result.is_ok());
    assert_eq!(result.unwrap(), "Hello");
}

#[test]
fn test_decode_plain_utf8() {
    let data = b"Hello, World!".to_vec();
    let result = data.decode();
    assert!(result.is_ok());
    assert_eq!(result.unwrap(), "Hello, World!");
}

#[test]
fn test_normalize_whitespace_trait() {
    // Test for &str
    let text = "  Hello,\tWorld!\n\nRust  ";
    let normalized = text.normalize_whitespace();
    assert_eq!(normalized, "Hello, World! Rust");

    // Test for String
    let text_string = String::from("  Hello,\tWorld!\n\nRust  ");
    let normalized = text_string.normalize_whitespace();
    assert_eq!(normalized, "Hello, World! Rust");
}

