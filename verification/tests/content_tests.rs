use lib_epub::builder::content::{Block, BlockBuilder, ContentBuilder};
use lib_epub::error::EpubBuilderError;
use lib_epub::types::{BlockType, Footnote};

#[test]
fn test_create_text_block() {
    let mut builder = BlockBuilder::new(BlockType::Text);
    builder.set_content("Hello, World!");

    let block = builder.build();
    assert!(block.is_ok());

    let block = block.unwrap();
    match block {
        Block::Text { content, footnotes } => {
            assert_eq!(content, "Hello, World!");
            assert!(footnotes.is_empty());
        }
        _ => unreachable!(),
    }
}

#[test]
fn test_create_text_block_missing_content() {
    let builder = BlockBuilder::new(BlockType::Text);

    let block = builder.build();
    assert!(block.is_err());

    let result = block.unwrap_err();
    assert_eq!(
        result,
        EpubBuilderError::MissingNecessaryBlockData {
            block_type: "Text".to_string(),
            missing_data: "'content'".to_string()
        }
        .into()
    )
}

#[test]
fn test_create_quote_block() {
    let mut builder = BlockBuilder::new(BlockType::Quote);
    builder.set_content("To be or not to be");

    let block = builder.build();
    assert!(block.is_ok());

    let block = block.unwrap();
    match block {
        Block::Quote { content, footnotes } => {
            assert_eq!(content, "To be or not to be");
            assert!(footnotes.is_empty());
        }
        _ => unreachable!(),
    }
}

#[test]
fn test_create_title_block() {
    let mut builder = BlockBuilder::new(BlockType::Title);
    builder.set_content("Chapter 1").set_title_level(2);

    let block = builder.build();
    assert!(block.is_ok());

    let block = block.unwrap();
    match block {
        Block::Title { content, level, footnotes } => {
            assert_eq!(content, "Chapter 1");
            assert_eq!(level, 2);
            assert!(footnotes.is_empty());
        }
        _ => unreachable!(),
    }
}

#[test]
fn test_create_title_block_invalid_level() {
    let mut builder = BlockBuilder::new(BlockType::Title);
    builder.set_content("Chapter 1").set_title_level(10);

    let result = builder.build();
    assert!(result.is_err());

    let result = result.unwrap_err();
    assert_eq!(
        result,
        EpubBuilderError::MissingNecessaryBlockData {
            block_type: "Title".to_string(),
            missing_data: "'content' or 'level'".to_string(),
        }
        .into()
    );
}

#[test]
fn test_create_image_block_missing_url() {
    let builder = BlockBuilder::new(BlockType::Image);

    let block = builder.build();
    assert!(block.is_err());

    let result = block.unwrap_err();
    assert_eq!(
        result,
        EpubBuilderError::MissingNecessaryBlockData {
            block_type: "Image".to_string(),
            missing_data: "'url'".to_string(),
        }
        .into()
    );
}

#[test]
fn test_create_mathml_block() {
    let mathml_content = r#"<math xmlns="http://www.w3.org/1998/Math/MathML"><mrow><mi>x</mi><mo>=</mo><mn>1</mn></mrow></math>"#;
    let mut builder = BlockBuilder::new(BlockType::MathML);
    builder
        .set_mathml_element(mathml_content)
        .set_caption("Simple equation");

    let block = builder.build();
    assert!(block.is_ok());

    let block = block.unwrap();
    match block {
        Block::MathML {
            element_str,
            fallback_image,
            caption,
            footnotes,
        } => {
            assert_eq!(element_str, mathml_content);
            assert!(fallback_image.is_none());
            assert_eq!(caption, Some("Simple equation".to_string()));
            assert!(footnotes.is_empty());
        }
        _ => unreachable!(),
    }
}

#[test]
fn test_footnote_management() {
    let mut builder = BlockBuilder::new(BlockType::Text);
    builder.set_content("This is a test");

    let note1 = Footnote {
        locate: 5,
        content: "First footnote".to_string(),
    };
    let note2 = Footnote {
        locate: 10,
        content: "Second footnote".to_string(),
    };

    builder.add_footnote(note1).add_footnote(note2);

    let block = builder.build();
    assert!(block.is_ok());

    let block = block.unwrap();
    match block {
        Block::Text { footnotes, .. } => {
            assert_eq!(footnotes.len(), 2);
        }
        _ => unreachable!(),
    }
}

#[test]
fn test_remove_last_footnote() {
    let mut builder = BlockBuilder::new(BlockType::Text);
    builder.set_content("This is a test");

    builder.add_footnote(Footnote { locate: 5, content: "Note 1".to_string() });
    builder.add_footnote(Footnote {
        locate: 10,
        content: "Note 2".to_string(),
    });
    builder.remove_last_footnote();

    let block = builder.build();
    assert!(block.is_ok());

    let block = block.unwrap();
    match block {
        Block::Text { footnotes, .. } => {
            assert_eq!(footnotes.len(), 1);
            assert!(footnotes[0].content == "Note 1");
        }
        _ => unreachable!(),
    }
}

#[test]
fn test_clear_footnotes() {
    let mut builder = BlockBuilder::new(BlockType::Text);
    builder.set_content("This is a test");

    builder.add_footnote(Footnote { locate: 5, content: "Note".to_string() });

    builder.clear_footnotes();

    let block = builder.build();
    assert!(block.is_ok());

    let block = block.unwrap();
    match block {
        Block::Text { footnotes, .. } => {
            assert!(footnotes.is_empty());
        }
        _ => unreachable!(),
    }
}

#[test]
fn test_invalid_footnote_locate() {
    let mut builder = BlockBuilder::new(BlockType::Text);
    builder.set_content("Hello");

    // Footnote locate exceeds content length
    builder.add_footnote(Footnote {
        locate: 100,
        content: "Invalid footnote".to_string(),
    });

    let result = builder.build();
    assert!(result.is_err());

    let result = result.unwrap_err();
    assert_eq!(
        result,
        EpubBuilderError::InvalidFootnoteLocate { max_locate: 5 }.into()
    );
}

#[test]
fn test_create_content_builder() {
    let builder = ContentBuilder::new("chapter1", "en");
    assert!(builder.is_ok());

    let builder = builder.unwrap();
    assert_eq!(builder.id, "chapter1");
}

#[test]
fn test_set_title() {
    let builder = ContentBuilder::new("chapter1", "en");
    assert!(builder.is_ok());

    let mut builder = builder.unwrap();
    builder.set_title("My Chapter").set_title("Another Title");

    assert_eq!(builder.title, "Another Title");
}

#[test]
fn test_add_text_block() {
    let builder = ContentBuilder::new("chapter1", "en");
    assert!(builder.is_ok());

    let mut builder = builder.unwrap();
    let result = builder.add_text_block("This is a paragraph", vec![]);
    assert!(result.is_ok());
}

#[test]
fn test_add_quote_block() {
    let builder = ContentBuilder::new("chapter1", "en");
    assert!(builder.is_ok());

    let mut builder = builder.unwrap();
    let result = builder.add_quote_block("A quoted text", vec![]);
    assert!(result.is_ok());
}

#[test]
fn test_add_title_block() {
    let builder = ContentBuilder::new("chapter1", "en");
    assert!(builder.is_ok());

    let mut builder = builder.unwrap();
    let result = builder.add_title_block("Section Title", 2, vec![]);
    assert!(result.is_ok());
}

#[test]
fn test_add_mathml_block() {
    let mathml = r#"<math xmlns="http://www.w3.org/1998/Math/MathML"><mrow><mi>x</mi></mrow></math>"#;
    let builder = ContentBuilder::new("chapter1", "en");
    assert!(builder.is_ok());

    let mut builder = builder.unwrap();
    let result = builder.add_mathml_block(
        mathml.to_string(),
        None,
        Some("Equation 1".to_string()),
        vec![],
    );

    assert!(result.is_ok());
}

#[test]
fn test_remove_last_block() {
    let mut builder = ContentBuilder::new("chapter1", "en").unwrap();

    builder.add_text_block("First block", vec![]).unwrap();
    builder.add_text_block("Second block", vec![]).unwrap();
    assert_eq!(builder.blocks.len(), 2);

    builder.remove_last_block();
    assert_eq!(builder.blocks.len(), 1);
}

#[test]
fn test_take_last_block() {
    let mut builder = ContentBuilder::new("chapter1", "en").unwrap();

    builder.add_text_block("Block content", vec![]).unwrap();

    let block = builder.take_last_block();
    assert!(block.is_some());

    let block = block.unwrap();
    match block {
        Block::Text { content, .. } => {
            assert_eq!(content, "Block content");
        }
        _ => unreachable!(),
    }

    let block2 = builder.take_last_block();
    assert!(block2.is_none());
}

#[test]
fn test_clear_blocks() {
    let mut builder = ContentBuilder::new("chapter1", "en").unwrap();

    builder.add_text_block("Block 1", vec![]).unwrap();
    builder.add_text_block("Block 2", vec![]).unwrap();
    assert_eq!(builder.blocks.len(), 2);

    builder.clear_blocks();

    let block = builder.take_last_block();
    assert!(block.is_none());
}

#[test]
fn test_take_footnotes_from_text_block() {
    let footnotes = vec![Footnote { locate: 5, content: "Note".to_string() }];

    let block = Block::Text {
        content: "Hello world".to_string(),
        footnotes: footnotes.clone(),
    };

    let taken = block.take_footnotes();
    assert_eq!(taken.len(), 1);
    assert_eq!(taken[0].content, "Note");
}

#[test]
fn test_take_footnotes_from_quote_block() {
    let footnotes = vec![
        Footnote { locate: 3, content: "First".to_string() },
        Footnote { locate: 8, content: "Second".to_string() },
    ];

    let block = Block::Quote {
        content: "Test quote".to_string(),
        footnotes: footnotes.clone(),
    };

    let taken = block.take_footnotes();
    assert_eq!(taken.len(), 2);
}

#[test]
fn test_take_footnotes_from_image_block() {
    let img_path = String::from("test.png");
    let footnotes = vec![Footnote {
        locate: 2,
        content: "Image note".to_string(),
    }];

    let block = Block::Image {
        url: img_path,
        alt: None,
        caption: Some("A caption".to_string()),
        footnotes: footnotes.clone(),
    };

    let taken = block.take_footnotes();
    assert_eq!(taken.len(), 1);
}

#[test]
fn test_block_with_empty_footnotes() {
    let block = Block::Text {
        content: "No footnotes here".to_string(),
        footnotes: vec![],
    };

    let taken = block.take_footnotes();
    assert!(taken.is_empty());
}

#[test]
fn test_split_content_by_index_empty() {
    let result = Block::split_content_by_index("Hello", &[]);
    assert_eq!(result, vec!["Hello"]);
}

#[test]
fn test_split_content_by_single_index() {
    let result = Block::split_content_by_index("Hello World", &[5]);
    assert_eq!(result.len(), 2);
    assert_eq!(result[0], "Hello");
    assert_eq!(result[1], " World");
}

#[test]
fn test_split_content_by_multiple_indices() {
    let result = Block::split_content_by_index("One Two Three", &[3, 7]);
    assert_eq!(result.len(), 3);
    assert_eq!(result[0], "One");
    assert_eq!(result[1], " Two");
    assert_eq!(result[2], " Three");
}

#[test]
fn test_split_content_unicode() {
    let content = "\u{4f60}\u{597d}\u{4e16}\u{754c}";
    let result = Block::split_content_by_index(content, &[2]);
    assert_eq!(result.len(), 2);
    assert_eq!(result[0], "\u{4f60}\u{597d}");
    assert_eq!(result[1], "\u{4e16}\u{754c}");
}

const JPEG: &[u8] = &[0xFF, 0xD8, 0xFF, 0xE0, 0x00, 0x10, b'J', b'F', b'I', b'F', 0, 1];
const MP3: &[u8] = &[b'I', b'D', b'3', 3, 0, 0, 0, 0, 0, 0, 0, 0];
const MP4: &[u8] = &[
    0, 0, 0, 0x18, b'f', b't', b'y', b'p', b'i', b's', b'o', b'm', 0, 0, 0, 0, b'i', b's', b'o',
    b'm', b'm', b'p', b'4', b'2',
];
const XHTML: &[u8] = b"<html><body></body></html>";

#[test]
fn test_create_image_block() {
    let mut builder = BlockBuilder::new(BlockType::Image);
    builder.set_url("./test_case/image.jpg", JPEG).unwrap();
    builder.set_alt("Test Image").set_caption("A test image");

    let block = builder.build();
    assert!(block.is_ok());

    let block = block.unwrap();
    match block {
        Block::Image { url, alt, caption, footnotes } => {
            assert!(url.ends_with("image.jpg"));
            assert_eq!(alt, Some("Test Image".to_string()));
            assert_eq!(caption, Some("A test image".to_string()));
            assert!(footnotes.is_empty());
        }
        _ => unreachable!(),
    }
}

#[test]
fn test_create_audio_block() {
    let mut builder = BlockBuilder::new(BlockType::Audio);
    builder.set_url("./test_case/audio.mp3", MP3).unwrap();
    builder
        .set_fallback("Audio not supported")
        .set_caption("Background music");

    let block = builder.build();
    assert!(block.is_ok());

    let block = block.unwrap();
    match block {
        Block::Audio { url, fallback, caption, footnotes } => {
            assert!(url.ends_with("audio.mp3"));
            assert_eq!(fallback, "Audio not supported");
            assert_eq!(caption, Some("Background music".to_string()));
            assert!(footnotes.is_empty());
        }
        _ => unreachable!(),
    }
}

#[test]
fn test_set_url_invalid_file_type() {
    let mut builder = BlockBuilder::new(BlockType::Image);
    let result = builder.set_url("./test_case/Overview.xhtml", XHTML);
    assert!(result.is_err());

    let err = result.unwrap_err();
    assert_eq!(err, EpubBuilderError::NotExpectedFileFormat.into());
}

#[test]
fn test_set_fallback_image_invalid_type() {
    let mut builder = BlockBuilder::new(BlockType::MathML);
    builder.set_mathml_element("<math/>");
    let result = builder.set_fallback_image("./test_case/audio.mp3", MP3);
    assert!(result.is_err());

    let err = result.unwrap_err();
    assert_eq!(err, EpubBuilderError::NotExpectedFileFormat.into());
}

#[test]
fn test_create_video_block() {
    let mut builder = BlockBuilder::new(BlockType::Video);
    builder.set_url("./test_case/video.mp4", MP4).unwrap();
    builder
        .set_fallback("Video not supported")
        .set_caption("Demo video");

    let block = builder.build();
    assert!(block.is_ok());

    let block = block.unwrap();
    match block {
        Block::Video { url, fallback, caption, footnotes } => {
            assert!(url.ends_with("video.mp4"));
            assert_eq!(fallback, "Video not supported");
            assert_eq!(caption, Some("Demo video".to_string()));
            assert!(footnotes.is_empty());
        }
        _ => unreachable!(),
    }
}

#[test]
fn test_create_mathml_block_with_fallback() {
    let mathml_content = r#"<math xmlns="http://www.w3.org/1998/Math/MathML"><mrow><mi>x</mi></mrow></math>"#;

    let mut builder = BlockBuilder::new(BlockType::MathML);
    builder.set_mathml_element(mathml_content);
    builder
        .set_fallback_image("./test_case/image.jpg", JPEG)
        .unwrap();

    let block = builder.build();
    assert!(block.is_ok());

    let block = block.unwrap();
    match block {
        Block::MathML { element_str, fallback_image, .. } => {
            assert_eq!(element_str, mathml_content);
            assert!(fallback_image.is_some());
        }
        _ => unreachable!(),
    }
}

#[test]
fn test_footnote_on_media_without_caption() {
    let mut builder = BlockBuilder::new(BlockType::Image);
    builder.set_url("./test_case/image.jpg", JPEG).unwrap();

    builder.add_footnote(Footnote { locate: 1, content: "Note".to_string() });

    let result = builder.build();
    assert!(result.is_err());

    let result = result.unwrap_err();
    assert_eq!(
        result,
        EpubBuilderError::InvalidFootnoteLocate { max_locate: 0 }.into()
    );
}

#[test]
fn test_add_image_block() {
    let mut builder = ContentBuilder::new("chapter1", "en").unwrap();
    let result = builder.add_image_block(
        "./test_case/image.jpg",
        JPEG,
        Some("Alt text".to_string()),
        Some("Figure 1: An image".to_string()),
        vec![],
    );

    assert!(result.is_ok());
    assert_eq!(builder.resources.len(), 1);
    assert_eq!(builder.resources[0].directory, "img");
    assert_eq!(builder.resources[0].source, "./test_case/image.jpg");
}

#[test]
fn test_add_audio_block() {
    let mut builder = ContentBuilder::new("chapter1", "en").unwrap();
    let result = builder.add_audio_block(
        "./test_case/audio.mp3",
        MP3,
        "Your browser doesn't support audio".to_string(),
        Some("Background music".to_string()),
        vec![],
    );

    assert!(result.is_ok());
    assert_eq!(builder.resources[0].directory, "audio");
}

#[test]
fn test_add_video_block() {
    let mut builder = ContentBuilder::new("chapter1", "en").unwrap();
    let result = builder.add_video_block(
        "./test_case/video.mp4",
        MP4,
        "Your browser doesn't support video".to_string(),
        Some("Tutorial video".to_string()),
        vec![],
    );

    assert!(result.is_ok());
    assert_eq!(builder.resources[0].directory, "video");
}

#[test]
fn test_add_css_file() {
    let mut builder = ContentBuilder::new("chapter1", "en").unwrap();
    builder.add_css_file("./test_case/style.css");
    assert_eq!(builder.css_files.len(), 1);
}

#[test]
fn test_add_multiple_css_files() {
    let mut builder = ContentBuilder::new("chapter1", "en").unwrap();
    builder.add_css_file("style1.css").add_css_file("style2.css");
    assert_eq!(builder.css_files.len(), 2);
}

#[test]
fn test_remove_last_css_file() {
    let mut builder = ContentBuilder::new("chapter1", "en").unwrap();
    builder.add_css_file("./test_case/style.css");
    assert_eq!(builder.css_files.len(), 1);

    builder.remove_last_css_file();
    assert!(builder.css_files.is_empty());

    builder.remove_last_css_file();
    assert!(builder.css_files.is_empty());
}

#[test]
fn test_clear_css_files() {
    let mut builder = ContentBuilder::new("chapter1", "en").unwrap();
    builder.add_css_file("style1.css").add_css_file("style2.css");
    assert_eq!(builder.css_files.len(), 2);

    builder.clear_css_files();
    assert!(builder.css_files.is_empty());
}

#[test]
fn content_of_unknown_kind_is_no_media() {
    let mut builder = BlockBuilder::new(BlockType::Image);
    let err = builder.set_url("mystery.bin", &[0, 1, 2, 3]).unwrap_err();
    assert_eq!(
        err,
        EpubBuilderError::UnknownFileFormat {
            file_path: "mystery.bin".to_string()
        }
        .into()
    );
    assert_eq!(builder.url, None);
}

#[test]
fn a_footnote_must_stand_on_the_text() {
    let note = |locate: usize| Footnote { locate, content: "n".to_string() };
    let mut builder = ContentBuilder::new("c", "en").unwrap();
    assert!(builder.add_text_block("abc", vec![note(1), note(3)]).is_ok());
    assert_eq!(
        builder.add_text_block("abc", vec![note(0)]).unwrap_err(),
        EpubBuilderError::InvalidFootnoteLocate { max_locate: 3 }.into()
    );
    assert_eq!(
        builder.add_text_block("abc", vec![note(4)]).unwrap_err(),
        EpubBuilderError::InvalidFootnoteLocate { max_locate: 3 }.into()
    );
    assert_eq!(builder.blocks.len(), 1);
    assert_eq!(
        builder.add_title_block("abc", 7, vec![]).unwrap_err(),
        EpubBuilderError::MissingNecessaryBlockData {
            block_type: "Title".to_string(),
            missing_data: "'content' or 'level'".to_string()
        }
        .into()
    );
}

#[test]
fn cutting_passes_over_what_lies_behind_the_end_or_behind_the_cursor() {
    assert_eq!(
        Block::split_content_by_index("abcdef", &[2, 2, 1, 4]),
        vec!["ab", "cd", "ef"]
    );
    assert_eq!(Block::split_content_by_index("abc", &[3]), vec!["abc"]);
    assert_eq!(Block::split_content_by_index("abc", &[9, 10]), vec!["abc"]);
    assert_eq!(Block::split_content_by_index("abc", &[0]), vec!["abc"]);
    assert!(Block::split_content_by_index("", &[1]).is_empty());
    assert_eq!(Block::split_content_by_index("", &[]), vec![""]);
}

#[test]
fn a_chapter_is_written_with_marks_and_footnotes() {
    let note = |locate: usize, content: &str| Footnote {
        locate,
        content: content.to_string(),
    };
    let mut builder = ContentBuilder::new("c1", "en").unwrap();
    builder.set_title("T & Co").set_style_sheet("p { margin: 0; }");
    builder
        .add_title_block("Head", 2, vec![note(4, "on the head")])
        .unwrap();
    builder
        .add_text_block(
            "One two.",
            vec![note(8, "z"), note(3, "b"), note(3, "a")],
        )
        .unwrap();
    builder.add_quote_block("Q", vec![]).unwrap();

    let bytes = builder.make_content().unwrap();
    let written = String::from_utf8(bytes).unwrap();
    let expected = [
        "<?xml version=\"1.0\" encoding=\"UTF-8\"?>",
        "<html xmlns=\"http://www.w3.org/1999/xhtml\" xml:lang=\"en\">",
        "<head><title>T &amp; Co</title><style>p { margin: 0; }</style></head>",
        "<body><main>",
        "<h2 class=\"content-block title-block\">Head",
        "<a href=\"#footnote-1\" id=\"ref-1\" class=\"footnote-ref\">[1]</a></h2>",
        "<p class=\"content-block text-block\">One",
        "<a href=\"#footnote-2\" id=\"ref-2\" class=\"footnote-ref\">[2]</a>",
        "<a href=\"#footnote-3\" id=\"ref-3\" class=\"footnote-ref\">[3]</a>",
        " two.",
        "<a href=\"#footnote-4\" id=\"ref-4\" class=\"footnote-ref\">[4]</a></p>",
        "<blockquote class=\"content-block quote-block\" cite=\"SOME ATTR NEED TO BE SET\"><p>Q</p></blockquote>",
        "</main>",
        "<aside><ul class=\"footnote-list\">",
        "<li id=\"footnote-1\" class=\"footnote-item\"><p><a href=\"#ref-1\">[1]</a>on the head</p></li>",
        "<li id=\"footnote-2\" class=\"footnote-item\"><p><a href=\"#ref-2\">[2]</a>a</p></li>",
        "<li id=\"footnote-3\" class=\"footnote-item\"><p><a href=\"#ref-3\">[3]</a>b</p></li>",
        "<li id=\"footnote-4\" class=\"footnote-item\"><p><a href=\"#ref-4\">[4]</a>z</p></li>",
        "</ul></aside></body></html>",
    ].concat();
    assert_eq!(written, expected);

    // the footnotes of the blocks are now in their order
    let notes = builder.blocks[1].take_footnotes();
    let texts: Vec<&str> = notes.iter().map(|n| n.content.as_str()).collect();
    assert_eq!(texts, vec!["a", "b", "z"]);
}

#[test]
fn media_and_formulas_are_written_as_figures() {
    let mut builder = ContentBuilder::new("c1", "en").unwrap();
    builder.add_css_file("styles/main.css");
    builder
        .add_image_block(
            "pictures/cat.jpg",
            JPEG,
            Some("A cat".to_string()),
            Some("Cat".to_string()),
            vec![Footnote { locate: 3, content: "meow".to_string() }],
        )
        .unwrap();
    builder
        .add_audio_block("a/b/song.mp3", MP3, "no sound".to_string(), None, vec![])
        .unwrap();
    builder
        .add_mathml_block(
            "<math><mi>x</mi></math>".to_string(),
            Some(("f/x.jpg".to_string(), JPEG.to_vec())),
            None,
            vec![],
        )
        .unwrap();

    let written = String::from_utf8(builder.make_content().unwrap()).unwrap();
    assert!(written.contains(
        "<link href=\"./css/main.css\" rel=\"stylesheet\" type=\"text/css\"/>"
    ));
    assert!(!written.contains("<style>"));
    assert!(written.contains(&[
        "<figure class=\"content-block image-block\">",
        "<img src=\"./img/cat.jpg\" alt=\"A cat\"/>",
        "<figcaption>Cat<a href=\"#footnote-1\" id=\"ref-1\" class=\"footnote-ref\">[1]</a></figcaption>",
        "</figure>"
    ].concat()));
    assert!(written.contains(&[
        "<figure class=\"content-block audio-block\">",
        "<audio src=\"./audio/song.mp3\" controls=\"controls\"><p>no sound</p></audio>",
        "</figure>"
    ].concat()));
    assert!(written.contains(&[
        "<figure class=\"content-block mathml-block\">",
        "<math><mi>x</mi></math>",
        "<img src=\"./img/x.jpg\" class=\"mathml-fallback\" alt=\"Mathematical formula\"/>",
        "</figure>"
    ].concat()));
    assert_eq!(builder.resources.len(), 3);
}

#[test]
fn a_formula_that_is_no_xml_is_refused() {
    let mut builder = ContentBuilder::new("c1", "en").unwrap();
    builder
        .add_mathml_block("<math><mi>x</math>".to_string(), None, None, vec![])
        .unwrap();
    let err = builder.make_content().unwrap_err();
    assert!(matches!(
        err,
        lib_epub::error::EpubError::EpubBuilderError {
            source: EpubBuilderError::InvalidMathMLFormat { .. }
        }
    ));
    assert!(err.to_string().starts_with("Epub builder error: Invalid MathML format: "));
}

#[test]
fn test_make_content_document() {
    let mut builder = ContentBuilder::new("chapter1", "en").unwrap();
    builder.set_title("My Chapter");
    builder
        .add_text_block("This is the first paragraph.", vec![])
        .unwrap();
    builder
        .add_text_block("This is the second paragraph.", vec![])
        .unwrap();

    let result = builder.make_content();
    assert!(result.is_ok());
    let written = String::from_utf8(result.unwrap()).unwrap();
    assert!(written.contains("<title>My Chapter</title>"));
    assert!(written.contains("This is the first paragraph."));
    assert!(written.contains("This is the second paragraph."));
}

#[test]
fn test_make_content_with_media() {
    let mut builder = ContentBuilder::new("chapter1", "en").unwrap();
    builder.set_title("Chapter with Media");
    builder.add_text_block("See image below:", vec![]).unwrap();
    builder
        .add_image_block(
            "./test_case/image.jpg",
            JPEG,
            Some("Test".to_string()),
            Some("Figure 1".to_string()),
            vec![],
        )
        .unwrap();

    let result = builder.make_content();
    assert!(result.is_ok());
    assert!(builder
        .resources
        .iter()
        .any(|file| file.directory == "img" && file.source == "./test_case/image.jpg"));
}

#[test]
fn test_make_content_with_footnotes() {
    let footnotes = vec![
        Footnote {
            locate: 10,
            content: "This is a footnote".to_string(),
        },
        Footnote {
            locate: 15,
            content: "Another footnote".to_string(),
        },
    ];

    let mut builder = ContentBuilder::new("chapter1", "en").unwrap();
    builder.set_title("Chapter with Notes");
    builder
        .add_text_block("This is a paragraph with notes.", footnotes)
        .unwrap();

    let result = builder.make_content();
    assert!(result.is_ok());
    let written = String::from_utf8(result.unwrap()).unwrap();
    assert!(written.contains("This is a <a href=\"#footnote-1\""));
    assert!(written.contains("This is a footnote</p>"));
    assert!(written.contains("Another footnote</p>"));
}

#[test]
fn a_formula_is_written_behind_what_is_there() {
    let mut out = b"<p/>".to_vec();
    lib_epub::builder::chapter::write_mathml_element(&mut out, "<math><mi>x</mi><mo>=</mo></math>")
        .unwrap();
    assert_eq!(out, b"<p/><math><mi>x</mi><mo>=</mo></math>".to_vec());
}

#[test]
fn an_empty_formula_writes_nothing() {
    let mut out = b"<p/>".to_vec();
    lib_epub::builder::chapter::write_mathml_element(&mut out, "").unwrap();
    assert_eq!(out, b"<p/>".to_vec());
}

#[test]
fn a_refused_formula_leaves_what_was_written_before() {
    let mut out = b"<p/>".to_vec();
    let err = lib_epub::builder::chapter::write_mathml_element(&mut out, "<math><mi>x</math>")
        .unwrap_err();
    assert!(matches!(
        err,
        lib_epub::error::EpubError::EpubBuilderError {
            source: EpubBuilderError::InvalidMathMLFormat { .. }
        }
    ));
    assert_eq!(out, b"<p/><math><mi>x".to_vec());
}

#[test]
fn a_refused_formula_stops_the_chapter_at_its_block() {
    let mut builder = ContentBuilder::new("c1", "en").unwrap();
    builder
        .add_text_block(
            "one two",
            vec![
                Footnote { locate: 7, content: "b".to_string() },
                Footnote { locate: 3, content: "a".to_string() },
            ],
        )
        .unwrap();
    builder
        .add_mathml_block("<math><mi>x</math>".to_string(), None, None, vec![])
        .unwrap();
    builder
        .add_text_block(
            "three four",
            vec![
                Footnote { locate: 9, content: "d".to_string() },
                Footnote { locate: 2, content: "c".to_string() },
            ],
        )
        .unwrap();
    assert!(builder.make_content().is_err());
    assert_eq!(builder.blocks.len(), 3);
    match &builder.blocks[0] {
        Block::Text { footnotes, .. } => assert_eq!(footnotes[0].locate, 3),
        _ => panic!("the first block is text"),
    }
    match &builder.blocks[2] {
        Block::Text { footnotes, .. } => assert_eq!(footnotes[0].locate, 9),
        _ => panic!("the last block is text"),
    }
}
