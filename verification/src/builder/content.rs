//! The blocks that the body of a chapter is made of, and the builders that
//! gather them.

use crate::error::{EpubBuilderError, EpubError, BuilderFault, Fault};
use crate::text::{chars_of, owned, string_of_range};
use vstd::prelude::*;
use vstd::string::*;

verus! {

/// A footnote, as a value.
pub ghost struct FootnoteView {
    pub locate: usize,
    pub content: Seq<char>,
}

/// A note on the text of a block. `locate` counts the characters of the
/// text in front of the mark of the note: it is at least one and at most
/// the number of characters of the text.
#[derive(Debug)]
pub struct Footnote {
    /// How many characters of the text stand in front of the mark.
    pub locate: usize,
    /// The text of the note.
    pub content: String,
}

impl View for Footnote {
    type V = FootnoteView;

    open spec fn view(&self) -> FootnoteView {
        FootnoteView { locate: self.locate, content: self.content@ }
    }
}

impl DeepView for Footnote {
    type V = FootnoteView;

    open spec fn deep_view(&self) -> FootnoteView {
        self@
    }
}

impl Clone for Footnote {
    fn clone(&self) -> (r: Self)
        ensures
            r@ == self@,
    {
        Footnote { locate: self.locate, content: self.content.clone() }
    }
}

/// A copy of each of `footnotes`.
pub fn clone_footnotes(footnotes: &Vec<Footnote>) -> (r: Vec<Footnote>)
    ensures
        r.deep_view() == footnotes.deep_view(),
{
    let r = footnotes.clone();
    assert(r.deep_view() =~= footnotes.deep_view());
    r
}

/// The kinds of blocks.
#[derive(Debug, Clone, Copy, PartialEq, Eq, Structural)]
pub enum BlockType {
    /// A paragraph.
    Text,
    /// A quotation.
    Quote,
    /// A heading.
    Title,
    /// An image.
    Image,
    /// A sound.
    Audio,
    /// A film.
    Video,
    /// A formula.
    MathML,
}

/// A block, as a value.
pub ghost enum BlockView {
    Text { content: Seq<char>, footnotes: Seq<FootnoteView> },
    Quote { content: Seq<char>, footnotes: Seq<FootnoteView> },
    Title { content: Seq<char>, footnotes: Seq<FootnoteView>, level: usize },
    Image {
        url: Seq<char>,
        alt: Option<Seq<char>>,
        caption: Option<Seq<char>>,
        footnotes: Seq<FootnoteView>,
    },
    Audio {
        url: Seq<char>,
        fallback: Seq<char>,
        caption: Option<Seq<char>>,
        footnotes: Seq<FootnoteView>,
    },
    Video {
        url: Seq<char>,
        fallback: Seq<char>,
        caption: Option<Seq<char>>,
        footnotes: Seq<FootnoteView>,
    },
    MathML {
        element_str: Seq<char>,
        fallback_image: Option<Seq<char>>,
        caption: Option<Seq<char>>,
        footnotes: Seq<FootnoteView>,
    },
}

/// One block of the body of a chapter. The footnotes of a block stand on
/// its text, or on its caption where it is a piece of media.
#[derive(Debug)]
pub enum Block {
    /// A paragraph.
    Text { content: String, footnotes: Vec<Footnote> },
    /// A quotation.
    Quote { content: String, footnotes: Vec<Footnote> },
    /// A heading of the level `level`, from one to six.
    Title { content: String, footnotes: Vec<Footnote>, level: usize },
    /// An image, with the text to show in its place and a caption.
    Image { url: String, alt: Option<String>, caption: Option<String>, footnotes: Vec<Footnote> },
    /// A sound, with the text to show where it cannot be played.
    Audio { url: String, fallback: String, caption: Option<String>, footnotes: Vec<Footnote> },
    /// A film, with the text to show where it cannot be played.
    Video { url: String, fallback: String, caption: Option<String>, footnotes: Vec<Footnote> },
    /// A formula in MathML, with an image to show where it cannot be laid
    /// out.
    MathML {
        element_str: String,
        fallback_image: Option<String>,
        caption: Option<String>,
        footnotes: Vec<Footnote>,
    },
}

impl View for Block {
    type V = BlockView;

    open spec fn view(&self) -> BlockView {
        match self {
            Block::Text { content, footnotes } => BlockView::Text {
                content: content@,
                footnotes: footnotes.deep_view(),
            },
            Block::Quote { content, footnotes } => BlockView::Quote {
                content: content@,
                footnotes: footnotes.deep_view(),
            },
            Block::Title { content, footnotes, level } => BlockView::Title {
                content: content@,
                footnotes: footnotes.deep_view(),
                level: *level,
            },
            Block::Image { url, alt, caption, footnotes } => BlockView::Image {
                url: url@,
                alt: alt.deep_view(),
                caption: caption.deep_view(),
                footnotes: footnotes.deep_view(),
            },
            Block::Audio { url, fallback, caption, footnotes } => BlockView::Audio {
                url: url@,
                fallback: fallback@,
                caption: caption.deep_view(),
                footnotes: footnotes.deep_view(),
            },
            Block::Video { url, fallback, caption, footnotes } => BlockView::Video {
                url: url@,
                fallback: fallback@,
                caption: caption.deep_view(),
                footnotes: footnotes.deep_view(),
            },
            Block::MathML { element_str, fallback_image, caption, footnotes } => BlockView::MathML {
                element_str: element_str@,
                fallback_image: fallback_image.deep_view(),
                caption: caption.deep_view(),
                footnotes: footnotes.deep_view(),
            },
        }
    }
}

impl DeepView for Block {
    type V = BlockView;

    open spec fn deep_view(&self) -> BlockView {
        self@
    }
}

impl BlockView {
    /// The footnotes of the block.
    pub open spec fn footnotes(self) -> Seq<FootnoteView> {
        match self {
            BlockView::Text { footnotes, .. } => footnotes,
            BlockView::Quote { footnotes, .. } => footnotes,
            BlockView::Title { footnotes, .. } => footnotes,
            BlockView::Image { footnotes, .. } => footnotes,
            BlockView::Audio { footnotes, .. } => footnotes,
            BlockView::Video { footnotes, .. } => footnotes,
            BlockView::MathML { footnotes, .. } => footnotes,
        }
    }

    /// The text that the footnotes of the block stand on: the content of a
    /// block of text, the caption of a piece of media.
    pub open spec fn noted_text(self) -> Option<Seq<char>> {
        match self {
            BlockView::Text { content, .. } => Some(content),
            BlockView::Quote { content, .. } => Some(content),
            BlockView::Title { content, .. } => Some(content),
            BlockView::Image { caption, .. } => caption,
            BlockView::Audio { caption, .. } => caption,
            BlockView::Video { caption, .. } => caption,
            BlockView::MathML { caption, .. } => caption,
        }
    }

    /// The highest place that a footnote of the block may have.
    pub open spec fn max_locate(self) -> nat {
        match self.noted_text() {
            Some(text) => text.len(),
            None => 0,
        }
    }

    /// Whether every footnote of the block has a place on its text.
    pub open spec fn footnotes_fit(self) -> bool {
        within(self.footnotes(), self.max_locate())
    }
}

/// Whether every one of `footnotes` has a place from one to `max_locate`.
pub open spec fn within(footnotes: Seq<FootnoteView>, max_locate: nat) -> bool {
    forall|i: int| 0 <= i < footnotes.len() ==> 1 <= (#[trigger] footnotes[i]).locate <= max_locate
}

/// Where the cuts at `indexes` have come to in a text of `len`
/// characters: each index moves the place forward to itself, but not
/// behind the end and never backward.
pub open spec fn cut_cursor(len: nat, indexes: Seq<usize>) -> nat
    decreases indexes.len(),
{
    if indexes.len() == 0 {
        0
    } else {
        let before = cut_cursor(len, indexes.drop_last());
        if before < indexes.last() {
            if indexes.last() < len {
                indexes.last() as nat
            } else {
                len
            }
        } else {
            before
        }
    }
}

/// The parts of `content` in front of each of `indexes`, empty parts left
/// out.
pub open spec fn cut_segments(content: Seq<char>, indexes: Seq<usize>) -> Seq<Seq<char>>
    decreases indexes.len(),
{
    if indexes.len() == 0 {
        Seq::empty()
    } else {
        let from = cut_cursor(content.len(), indexes.drop_last());
        let to = cut_cursor(content.len(), indexes);
        if from < to {
            cut_segments(content, indexes.drop_last()).push(content.subrange(from as int, to as int))
        } else {
            cut_segments(content, indexes.drop_last())
        }
    }
}

/// `content` cut at the character counts `indexes`: the parts in front of
/// each index and the rest behind the last, empty parts left out. Without
/// indexes the content is the only part.
pub open spec fn split_at_indexes(content: Seq<char>, indexes: Seq<usize>) -> Seq<Seq<char>> {
    if indexes.len() == 0 {
        seq![content]
    } else {
        let cursor = cut_cursor(content.len(), indexes);
        if cursor < content.len() {
            cut_segments(content, indexes).push(
                content.subrange(cursor as int, content.len() as int),
            )
        } else {
            cut_segments(content, indexes)
        }
    }
}

/// The cursor never leaves the text.
pub proof fn lemma_cut_cursor(len: nat, indexes: Seq<usize>)
    ensures
        cut_cursor(len, indexes) <= len,
    decreases indexes.len(),
{
    if indexes.len() > 0 {
        lemma_cut_cursor(len, indexes.drop_last());
    }
}

impl Block {
    /// A copy of the footnotes of the block.
    pub fn take_footnotes(&self) -> (r: Vec<Footnote>)
        ensures
            r.deep_view() == self@.footnotes(),
    {
        match self {
            Block::Text { footnotes, .. } => clone_footnotes(footnotes),
            Block::Quote { footnotes, .. } => clone_footnotes(footnotes),
            Block::Title { footnotes, .. } => clone_footnotes(footnotes),
            Block::Image { footnotes, .. } => clone_footnotes(footnotes),
            Block::Audio { footnotes, .. } => clone_footnotes(footnotes),
            Block::Video { footnotes, .. } => clone_footnotes(footnotes),
            Block::MathML { footnotes, .. } => clone_footnotes(footnotes),
        }
    }

    /// Cuts `content` at the character counts of `index_list`.
    pub fn split_content_by_index(content: &str, index_list: &[usize]) -> (r: Vec<String>)
        ensures
            r.deep_view() == split_at_indexes(content@, index_list@),
    {
        if index_list.len() == 0 {
            let r = vec![owned(content)];
            assert(r.deep_view() =~= seq![content@]);
            return r;
        }
        let chars = chars_of(content);
        let mut result: Vec<String> = Vec::new();
        let mut cursor: usize = 0;
        let ghost indexes = index_list@;
        proof {
            assert(indexes.take(0) =~= Seq::<usize>::empty());
            assert(result.deep_view() =~= Seq::<Seq<char>>::empty());
        }
        let mut i: usize = 0;
        while i < index_list.len()
            invariant
                i <= index_list.len(),
                indexes == index_list@,
                chars@ == content@,
                cursor <= chars.len(),
                cursor == cut_cursor(chars@.len(), indexes.take(i as int)),
                result.deep_view() == cut_segments(chars@, indexes.take(i as int)),
            decreases index_list.len() - i,
        {
            let target = index_list[i];
            let ghost before = result.deep_view();
            proof {
                assert(indexes.take(i + 1).drop_last() =~= indexes.take(i as int));
                assert(indexes.take(i + 1).last() == target);
            }
            if cursor < target {
                let to = if target < chars.len() {
                    target
                } else {
                    chars.len()
                };
                if cursor < to {
                    let segment = string_of_range(&chars, cursor, to);
                    result.push(segment);
                    assert(result.deep_view() =~= before.push(segment@));
                }
                cursor = to;
            }
            i += 1;
        }
        proof {
            assert(indexes.take(i as int) =~= indexes);
        }
        if cursor < chars.len() {
            let ghost before = result.deep_view();
            let remainder = string_of_range(&chars, cursor, chars.len());
            result.push(remainder);
            assert(result.deep_view() =~= before.push(remainder@));
        }
        result
    }
}

/// The kinds of media that a file may hold.
#[derive(Debug, Clone, Copy, PartialEq, Eq, Structural)]
pub enum MediaKind {
    /// An image.
    Image,
    /// A sound.
    Audio,
    /// A film.
    Video,
    /// Anything else.
    Other,
}

/// What `infer::get` tells from the first bytes `data` of a file: its
/// media type and its kind of media; `None` where it knows none.
pub uninterp spec fn sniffed(data: Seq<u8>) -> Option<(Seq<char>, MediaKind)>;

/// Calls `infer::get`, and takes from what it found the media type and
/// the matcher type, images, sounds and films told apart from all others.
#[verifier::external_body]
pub(crate) fn sniff(data: &[u8]) -> (r: Option<(String, MediaKind)>)
    ensures
        r.deep_view() == sniffed(data@),
{
    infer::get(data).map(|kind| (kind.mime_type().to_string(), match kind.matcher_type() {
        infer::MatcherType::Image => MediaKind::Image,
        infer::MatcherType::Audio => MediaKind::Audio,
        infer::MatcherType::Video => MediaKind::Video,
        _ => MediaKind::Other,
    }))
}

/// The kind of media that the first bytes `header` of a file tell.
pub open spec fn sniffed_kind(header: Seq<u8>) -> Option<MediaKind> {
    match sniffed(header) {
        Some((_, kind)) => Some(kind),
        None => None,
    }
}

/// The media type that the content `data` of a file tells.
pub open spec fn sniffed_mime(data: Seq<u8>) -> Option<Seq<char>> {
    match sniffed(data) {
        Some((mime, _)) => Some(mime),
        None => None,
    }
}

impl DeepView for MediaKind {
    type V = MediaKind;

    open spec fn deep_view(&self) -> MediaKind {
        *self
    }
}

/// Whether a file that begins with `header` may be the media of a block:
/// its kind must be told and be one of the accepted kinds.
pub open spec fn media_check(path: Seq<char>, header: Seq<u8>, images_only: bool) -> Result<
    (),
    Fault,
> {
    match sniffed_kind(header) {
        None => Err(
            Fault::EpubBuilderError { source: BuilderFault::UnknownFileFormat { file_path: path } },
        ),
        Some(kind) => if kind == MediaKind::Image || (!images_only && (kind == MediaKind::Audio
            || kind == MediaKind::Video)) {
            Ok(())
        } else {
            Err(Fault::EpubBuilderError { source: BuilderFault::NotExpectedFileFormat })
        },
    }
}

/// Checks that the file at `path`, which begins with `header`, holds media
/// of an accepted kind: an image, or where `images_only` is not set a sound
/// or a film.
pub fn is_target_type(path: &str, header: &[u8], images_only: bool) -> (r: Result<(), EpubError>)
    ensures
        match media_check(path@, header@, images_only) {
            Ok(()) => r is Ok,
            Err(fault) => r matches Err(e) && e@ == fault,
        },
{
    match sniff(header) {
        None => Err(
            EpubError::EpubBuilderError {
                source: EpubBuilderError::UnknownFileFormat { file_path: owned(path) },
            },
        ),
        Some((_, kind)) => {
            let accepted = match kind {
                MediaKind::Image => true,
                MediaKind::Audio => !images_only,
                MediaKind::Video => !images_only,
                MediaKind::Other => false,
            };
            if accepted {
                Ok(())
            } else {
                Err(
                    EpubError::EpubBuilderError {
                        source: EpubBuilderError::NotExpectedFileFormat,
                    },
                )
            }
        },
    }
}

/// A block builder, as a value.
pub ghost struct BlockBuilderView {
    pub block_type: BlockType,
    pub content: Option<Seq<char>>,
    pub level: Option<usize>,
    pub url: Option<Seq<char>>,
    pub alt: Option<Seq<char>>,
    pub caption: Option<Seq<char>>,
    pub fallback: Option<Seq<char>>,
    pub element_str: Option<Seq<char>>,
    pub fallback_image: Option<Seq<char>>,
    pub footnotes: Seq<FootnoteView>,
}

/// Gathers what a block of one kind is made of.
#[derive(Debug)]
pub struct BlockBuilder {
    /// The kind of block that is built.
    pub block_type: BlockType,
    /// The text of a paragraph, a quotation or a heading.
    pub content: Option<String>,
    /// The level of a heading.
    pub level: Option<usize>,
    /// The path of the media file.
    pub url: Option<String>,
    /// The text to show in place of an image.
    pub alt: Option<String>,
    /// The caption of a piece of media.
    pub caption: Option<String>,
    /// The text to show where a sound or a film cannot be played.
    pub fallback: Option<String>,
    /// The MathML source of a formula.
    pub element_str: Option<String>,
    /// The path of the image to show in place of a formula.
    pub fallback_image: Option<String>,
    /// The footnotes.
    pub footnotes: Vec<Footnote>,
}

impl View for BlockBuilder {
    type V = BlockBuilderView;

    open spec fn view(&self) -> BlockBuilderView {
        BlockBuilderView {
            block_type: self.block_type,
            content: self.content.deep_view(),
            level: self.level,
            url: self.url.deep_view(),
            alt: self.alt.deep_view(),
            caption: self.caption.deep_view(),
            fallback: self.fallback.deep_view(),
            element_str: self.element_str.deep_view(),
            fallback_image: self.fallback_image.deep_view(),
            footnotes: self.footnotes.deep_view(),
        }
    }
}

/// The error that a block of the kind `block_type` lacks `missing_data`.
pub open spec fn missing_data(block_type: Seq<char>, missing_data: Seq<char>) -> Fault {
    Fault::EpubBuilderError {
        source: BuilderFault::MissingNecessaryBlockData { block_type, missing_data },
    }
}

/// The block that `builder` holds, before its footnotes are checked; or
/// the error that names what its kind lacks.
pub open spec fn assembled(builder: BlockBuilderView) -> Result<BlockView, Fault> {
    match builder.block_type {
        BlockType::Text => match builder.content {
            Some(content) => Ok(BlockView::Text { content, footnotes: builder.footnotes }),
            None => Err(missing_data("Text"@, "'content'"@)),
        },
        BlockType::Quote => match builder.content {
            Some(content) => Ok(BlockView::Quote { content, footnotes: builder.footnotes }),
            None => Err(missing_data("Quote"@, "'content'"@)),
        },
        BlockType::Title => match (builder.content, builder.level) {
            (Some(content), Some(level)) => Ok(
                BlockView::Title { content, footnotes: builder.footnotes, level },
            ),
            _ => Err(missing_data("Title"@, "'content' or 'level'"@)),
        },
        BlockType::Image => match builder.url {
            Some(url) => Ok(
                BlockView::Image {
                    url,
                    alt: builder.alt,
                    caption: builder.caption,
                    footnotes: builder.footnotes,
                },
            ),
            None => Err(missing_data("Image"@, "'url'"@)),
        },
        BlockType::Audio => match (builder.url, builder.fallback) {
            (Some(url), Some(fallback)) => Ok(
                BlockView::Audio {
                    url,
                    fallback,
                    caption: builder.caption,
                    footnotes: builder.footnotes,
                },
            ),
            _ => Err(missing_data("Audio"@, "'url' or 'fallback'"@)),
        },
        BlockType::Video => match (builder.url, builder.fallback) {
            (Some(url), Some(fallback)) => Ok(
                BlockView::Video {
                    url,
                    fallback,
                    caption: builder.caption,
                    footnotes: builder.footnotes,
                },
            ),
            _ => Err(missing_data("Video"@, "'url' or 'fallback'"@)),
        },
        BlockType::MathML => match builder.element_str {
            Some(element_str) => Ok(
                BlockView::MathML {
                    element_str,
                    fallback_image: builder.fallback_image,
                    caption: builder.caption,
                    footnotes: builder.footnotes,
                },
            ),
            None => Err(missing_data("MathML"@, "'element_str'"@)),
        },
    }
}

/// The block that `builder` holds; or the error that names what its kind
/// lacks; or the error that a footnote has no place on its text.
pub open spec fn built(builder: BlockBuilderView) -> Result<BlockView, Fault> {
    match assembled(builder) {
        Err(fault) => Err(fault),
        Ok(block) => if block.footnotes_fit() {
            Ok(block)
        } else {
            Err(
                Fault::EpubBuilderError {
                    source: BuilderFault::InvalidFootnoteLocate {
                        max_locate: block.max_locate() as usize,
                    },
                },
            )
        },
    }
}

/// The error that a block of the kind `block_type` lacks `missing_data`.
fn lacks(block_type: &str, missing_data: &str) -> (e: EpubError)
    ensures
        e@ == self::missing_data(block_type@, missing_data@),
{
    EpubError::EpubBuilderError {
        source: EpubBuilderError::MissingNecessaryBlockData {
            block_type: owned(block_type),
            missing_data: owned(missing_data),
        },
    }
}

/// Whether every one of `footnotes` has a place from one to `max_locate`.
fn footnotes_within(footnotes: &Vec<Footnote>, max_locate: usize) -> (r: bool)
    ensures
        r == within(footnotes.deep_view(), max_locate as nat),
{
    let mut i: usize = 0;
    while i < footnotes.len()
        invariant
            i <= footnotes.len(),
            forall|j: int|
                0 <= j < i ==> 1 <= (#[trigger] footnotes.deep_view()[j]).locate <= max_locate,
        decreases footnotes.len() - i,
    {
        if footnotes[i].locate == 0 || footnotes[i].locate > max_locate {
            assert(footnotes.deep_view()[i as int].locate == footnotes[i as int].locate);
            return false;
        }
        i += 1;
    }
    true
}

/// The number of characters of `text`; none where there is no text.
fn text_length(text: &Option<String>) -> (n: usize)
    ensures
        n == match text.deep_view() {
            Some(t) => t.len(),
            None => 0,
        },
{
    match text {
        Some(t) => t.as_str().unicode_len(),
        None => 0,
    }
}

/// Checks that every one of `footnotes` has a place from one to
/// `max_locate`.
fn check_within(footnotes: &Vec<Footnote>, max_locate: usize) -> (r: Result<(), EpubError>)
    ensures
        within(footnotes.deep_view(), max_locate as nat) ==> r is Ok,
        !within(footnotes.deep_view(), max_locate as nat) ==> (r matches Err(e) && e@ == (
        Fault::EpubBuilderError { source: BuilderFault::InvalidFootnoteLocate { max_locate } })),
{
    if footnotes_within(footnotes, max_locate) {
        Ok(())
    } else {
        Err(
            EpubError::EpubBuilderError {
                source: EpubBuilderError::InvalidFootnoteLocate { max_locate },
            },
        )
    }
}

impl BlockBuilder {
    /// A builder for a block of the kind `block_type`, with nothing set.
    pub fn new(block_type: BlockType) -> (r: Self)
        ensures
            r@ == (BlockBuilderView {
                block_type,
                content: None,
                level: None,
                url: None,
                alt: None,
                caption: None,
                fallback: None,
                element_str: None,
                fallback_image: None,
                footnotes: Seq::empty(),
            }),
    {
        let r = BlockBuilder {
            block_type,
            content: None,
            level: None,
            url: None,
            alt: None,
            caption: None,
            fallback: None,
            element_str: None,
            fallback_image: None,
            footnotes: Vec::new(),
        };
        assert(r.footnotes.deep_view() =~= Seq::<FootnoteView>::empty());
        r
    }

    /// Sets the text.
    pub fn set_content(&mut self, content: &str) -> (ret: &mut Self)
        ensures
            ret@ == (BlockBuilderView { content: Some(content@), ..old(self)@ }),
            *final(self) == *final(ret),
    {
        self.content = Some(owned(content));
        self
    }

    /// Sets the level of a heading, where it is from one to six; any other
    /// level is passed over.
    pub fn set_title_level(&mut self, level: usize) -> (ret: &mut Self)
        ensures
            1 <= level <= 6 ==> ret@ == (BlockBuilderView { level: Some(level), ..old(self)@ }),
            !(1 <= level <= 6) ==> ret@ == old(self)@,
            *final(self) == *final(ret),
    {
        if 1 <= level && level <= 6 {
            self.level = Some(level);
        }
        self
    }

    /// Sets the path of the media file, whose first bytes are `header`.
    /// The file must hold an image, a sound or a film.
    pub fn set_url(&mut self, url: &str, header: &[u8]) -> (r: Result<(), EpubError>)
        ensures
            match media_check(url@, header@, false) {
                Ok(()) => r is Ok && final(self)@ == (BlockBuilderView {
                    url: Some(url@),
                    ..old(self)@
                }),
                Err(fault) => r matches Err(e) && e@ == fault && final(self)@ == old(self)@,
            },
    {
        match is_target_type(url, header, false) {
            Ok(()) => {
                self.url = Some(owned(url));
                Ok(())
            },
            Err(e) => Err(e),
        }
    }

    /// Sets the text to show in place of an image.
    pub fn set_alt(&mut self, alt: &str) -> (ret: &mut Self)
        ensures
            ret@ == (BlockBuilderView { alt: Some(alt@), ..old(self)@ }),
            *final(self) == *final(ret),
    {
        self.alt = Some(owned(alt));
        self
    }

    /// Sets the caption.
    pub fn set_caption(&mut self, caption: &str) -> (ret: &mut Self)
        ensures
            ret@ == (BlockBuilderView { caption: Some(caption@), ..old(self)@ }),
            *final(self) == *final(ret),
    {
        self.caption = Some(owned(caption));
        self
    }

    /// Sets the text to show where a sound or a film cannot be played.
    pub fn set_fallback(&mut self, fallback: &str) -> (ret: &mut Self)
        ensures
            ret@ == (BlockBuilderView { fallback: Some(fallback@), ..old(self)@ }),
            *final(self) == *final(ret),
    {
        self.fallback = Some(owned(fallback));
        self
    }

    /// Sets the MathML source of a formula.
    pub fn set_mathml_element(&mut self, element_str: &str) -> (ret: &mut Self)
        ensures
            ret@ == (BlockBuilderView { element_str: Some(element_str@), ..old(self)@ }),
            *final(self) == *final(ret),
    {
        self.element_str = Some(owned(element_str));
        self
    }

    /// Sets the path of the image to show in place of a formula; the first
    /// bytes of the file are `header`. The file must hold an image.
    pub fn set_fallback_image(&mut self, fallback_image: &str, header: &[u8]) -> (r: Result<
        (),
        EpubError,
    >)
        ensures
            match media_check(fallback_image@, header@, true) {
                Ok(()) => r is Ok && final(self)@ == (BlockBuilderView {
                    fallback_image: Some(fallback_image@),
                    ..old(self)@
                }),
                Err(fault) => r matches Err(e) && e@ == fault && final(self)@ == old(self)@,
            },
    {
        match is_target_type(fallback_image, header, true) {
            Ok(()) => {
                self.fallback_image = Some(owned(fallback_image));
                Ok(())
            },
            Err(e) => Err(e),
        }
    }

    /// Adds a footnote.
    pub fn add_footnote(&mut self, footnote: Footnote) -> (ret: &mut Self)
        ensures
            ret@ == (BlockBuilderView {
                footnotes: old(self)@.footnotes.push(footnote@),
                ..old(self)@
            }),
            *final(self) == *final(ret),
    {
        self.footnotes.push(footnote);
        assert(self.footnotes.deep_view() =~= old(self)@.footnotes.push(footnote@));
        self
    }

    /// Replaces the footnotes.
    pub fn set_footnotes(&mut self, footnotes: Vec<Footnote>) -> (ret: &mut Self)
        ensures
            ret@ == (BlockBuilderView { footnotes: footnotes.deep_view(), ..old(self)@ }),
            *final(self) == *final(ret),
    {
        self.footnotes = footnotes;
        self
    }

    /// Takes the last footnote away, if there is one.
    pub fn remove_last_footnote(&mut self) -> (ret: &mut Self)
        ensures
            ret@ == (BlockBuilderView {
                footnotes: if old(self)@.footnotes.len() > 0 {
                    old(self)@.footnotes.drop_last()
                } else {
                    old(self)@.footnotes
                },
                ..old(self)@
            }),
            *final(self) == *final(ret),
    {
        self.footnotes.pop();
        proof {
            if old(self)@.footnotes.len() > 0 {
                assert(self.footnotes.deep_view() =~= old(self)@.footnotes.drop_last());
            }
        }
        self
    }

    /// Takes all footnotes away.
    pub fn clear_footnotes(&mut self) -> (ret: &mut Self)
        ensures
            ret@ == (BlockBuilderView { footnotes: Seq::empty(), ..old(self)@ }),
            *final(self) == *final(ret),
    {
        self.footnotes.clear();
        assert(self.footnotes.deep_view() =~= Seq::<FootnoteView>::empty());
        self
    }

    /// Checks that every footnote of `block` has a place on the text that
    /// it stands on: from one to the number of characters of that text.
    pub fn validate_footnotes(block: &Block) -> (r: Result<(), EpubError>)
        ensures
            block@.footnotes_fit() ==> r is Ok,
            !block@.footnotes_fit() ==> (r matches Err(e) && e@ == (Fault::EpubBuilderError {
                source: BuilderFault::InvalidFootnoteLocate {
                    max_locate: block@.max_locate() as usize,
                },
            })),
    {
        match block {
            Block::Text { content, footnotes } => check_within(
                footnotes,
                content.as_str().unicode_len(),
            ),
            Block::Quote { content, footnotes } => check_within(
                footnotes,
                content.as_str().unicode_len(),
            ),
            Block::Title { content, footnotes, .. } => check_within(
                footnotes,
                content.as_str().unicode_len(),
            ),
            Block::Image { caption, footnotes, .. } => check_within(footnotes, text_length(caption)),
            Block::Audio { caption, footnotes, .. } => check_within(footnotes, text_length(caption)),
            Block::Video { caption, footnotes, .. } => check_within(footnotes, text_length(caption)),
            Block::MathML { caption, footnotes, .. } => check_within(
                footnotes,
                text_length(caption),
            ),
        }
    }

    /// The block that was gathered. A block that lacks what its kind needs
    /// is refused, and so is one with a footnote that has no place on its
    /// text.
    pub fn build(self) -> (r: Result<Block, EpubError>)
        ensures
            match built(self@) {
                Ok(block) => r matches Ok(found) && found@ == block,
                Err(fault) => r matches Err(e) && e@ == fault,
            },
    {
        let block = match self.block_type {
            BlockType::Text => match self.content {
                Some(content) => Block::Text { content, footnotes: self.footnotes },
                None => {
                    return Err(lacks("Text", "'content'"));
                },
            },
            BlockType::Quote => match self.content {
                Some(content) => Block::Quote { content, footnotes: self.footnotes },
                None => {
                    return Err(lacks("Quote", "'content'"));
                },
            },
            BlockType::Title => match (self.content, self.level) {
                (Some(content), Some(level)) => Block::Title {
                    content,
                    level,
                    footnotes: self.footnotes,
                },
                _ => {
                    return Err(lacks("Title", "'content' or 'level'"));
                },
            },
            BlockType::Image => match self.url {
                Some(url) => Block::Image {
                    url,
                    alt: self.alt,
                    caption: self.caption,
                    footnotes: self.footnotes,
                },
                None => {
                    return Err(lacks("Image", "'url'"));
                },
            },
            BlockType::Audio => match (self.url, self.fallback) {
                (Some(url), Some(fallback)) => Block::Audio {
                    url,
                    fallback,
                    caption: self.caption,
                    footnotes: self.footnotes,
                },
                _ => {
                    return Err(lacks("Audio", "'url' or 'fallback'"));
                },
            },
            BlockType::Video => match (self.url, self.fallback) {
                (Some(url), Some(fallback)) => Block::Video {
                    url,
                    fallback,
                    caption: self.caption,
                    footnotes: self.footnotes,
                },
                _ => {
                    return Err(lacks("Video", "'url' or 'fallback'"));
                },
            },
            BlockType::MathML => match self.element_str {
                Some(element_str) => Block::MathML {
                    element_str,
                    fallback_image: self.fallback_image,
                    caption: self.caption,
                    footnotes: self.footnotes,
                },
                None => {
                    return Err(lacks("MathML", "'element_str'"));
                },
            },
        };
        match Self::validate_footnotes(&block) {
            Ok(()) => Ok(block),
            Err(e) => Err(e),
        }
    }
}

/// A media file of a chapter, as a value.
pub ghost struct MediaFileView {
    pub directory: Seq<char>,
    pub source: Seq<char>,
}

/// A file that belongs to a chapter: the file at `source` goes into the
/// directory `directory` beside the chapter.
#[derive(Debug)]
pub struct MediaFile {
    /// The name of the directory: `img`, `audio` or `video`.
    pub directory: String,
    /// The path of the file.
    pub source: String,
}

impl DeepView for MediaFile {
    type V = MediaFileView;

    open spec fn deep_view(&self) -> MediaFileView {
        MediaFileView { directory: self.directory@, source: self.source@ }
    }
}

/// The media file that `block` brings with it, if any.
pub open spec fn media_of(block: BlockView) -> Option<MediaFileView> {
    match block {
        BlockView::Image { url, .. } => Some(MediaFileView { directory: "img"@, source: url }),
        BlockView::Audio { url, .. } => Some(MediaFileView { directory: "audio"@, source: url }),
        BlockView::Video { url, .. } => Some(MediaFileView { directory: "video"@, source: url }),
        BlockView::MathML { fallback_image: Some(url), .. } => Some(
            MediaFileView { directory: "img"@, source: url },
        ),
        _ => None,
    }
}

/// A content builder, as a value.
pub ghost struct ContentBuilderView {
    pub id: Seq<char>,
    pub blocks: Seq<BlockView>,
    pub language: Seq<char>,
    pub title: Seq<char>,
    pub style_sheet: Seq<char>,
    pub css_files: Seq<Seq<char>>,
    pub resources: Seq<MediaFileView>,
}

/// Gathers the blocks of one chapter.
#[derive(Debug)]
pub struct ContentBuilder {
    /// The id of the chapter.
    pub id: String,
    /// The blocks, in the order of the chapter.
    pub blocks: Vec<Block>,
    /// The language of the chapter.
    pub language: String,
    /// The title of the chapter.
    pub title: String,
    /// The style sheet that is written into the chapter where it links no
    /// style sheet file.
    pub style_sheet: String,
    /// The paths of the style sheet files that the chapter links.
    pub css_files: Vec<String>,
    /// The media files that the blocks bring with them.
    pub resources: Vec<MediaFile>,
}

impl View for ContentBuilder {
    type V = ContentBuilderView;

    open spec fn view(&self) -> ContentBuilderView {
        ContentBuilderView {
            id: self.id@,
            blocks: self.blocks.deep_view(),
            language: self.language@,
            title: self.title@,
            style_sheet: self.style_sheet@,
            css_files: self.css_files.deep_view(),
            resources: self.resources.deep_view(),
        }
    }
}

/// The builder after `block` was added at its end, with the media file
/// that the block brings.
pub open spec fn with_block(before: ContentBuilderView, block: BlockView) -> ContentBuilderView {
    ContentBuilderView {
        blocks: before.blocks.push(block),
        resources: match media_of(block) {
            Some(file) => before.resources.push(file),
            None => before.resources,
        },
        ..before
    }
}

/// Whether adding the block that `builder` holds ended as `r` reports:
/// the block was added, or it was refused and nothing has changed.
pub open spec fn block_added(
    before: ContentBuilderView,
    builder: BlockBuilderView,
    r: Result<(), EpubError>,
    after: ContentBuilderView,
) -> bool {
    match built(builder) {
        Ok(block) => r is Ok && after == with_block(before, block),
        Err(fault) => r matches Err(e) && e@ == fault && after == before,
    }
}

/// The block builder that holds no more than a kind, a text and
/// footnotes.
pub open spec fn text_builder(
    block_type: BlockType,
    content: Seq<char>,
    level: Option<usize>,
    footnotes: Seq<FootnoteView>,
) -> BlockBuilderView {
    BlockBuilderView {
        block_type,
        content: Some(content),
        level,
        url: None,
        alt: None,
        caption: None,
        fallback: None,
        element_str: None,
        fallback_image: None,
        footnotes,
    }
}

/// The block builder that holds a piece of media.
pub open spec fn media_builder(
    block_type: BlockType,
    url: Seq<char>,
    alt: Option<Seq<char>>,
    fallback: Option<Seq<char>>,
    caption: Option<Seq<char>>,
    footnotes: Seq<FootnoteView>,
) -> BlockBuilderView {
    BlockBuilderView {
        block_type,
        content: None,
        level: None,
        url: Some(url),
        alt,
        caption,
        fallback,
        element_str: None,
        fallback_image: None,
        footnotes,
    }
}

impl ContentBuilder {
    /// A builder for the chapter with the id `id` in the language
    /// `language`, with nothing in it.
    pub fn new(id: &str, language: &str) -> (r: Result<Self, EpubError>)
        ensures
            r matches Ok(builder) && builder@ == (ContentBuilderView {
                id: id@,
                blocks: Seq::empty(),
                language: language@,
                title: Seq::empty(),
                style_sheet: Seq::empty(),
                css_files: Seq::empty(),
                resources: Seq::empty(),
            }),
    {
        let builder = ContentBuilder {
            id: owned(id),
            blocks: Vec::new(),
            language: owned(language),
            title: String::new(),
            style_sheet: String::new(),
            css_files: Vec::new(),
            resources: Vec::new(),
        };
        proof {
            assert(builder@.blocks =~= Seq::empty());
            assert(builder@.css_files =~= Seq::empty());
            assert(builder@.resources =~= Seq::empty());
        }
        Ok(builder)
    }

    /// Sets the title of the chapter.
    pub fn set_title(&mut self, title: &str) -> (ret: &mut Self)
        ensures
            ret@ == (ContentBuilderView { title: title@, ..old(self)@ }),
            *final(self) == *final(ret),
    {
        self.title = owned(title);
        self
    }

    /// Sets the style sheet that is written into the chapter.
    pub fn set_style_sheet(&mut self, style_sheet: &str) -> (ret: &mut Self)
        ensures
            ret@ == (ContentBuilderView { style_sheet: style_sheet@, ..old(self)@ }),
            *final(self) == *final(ret),
    {
        self.style_sheet = owned(style_sheet);
        self
    }

    /// Adds a style sheet file that the chapter links.
    pub fn add_css_file(&mut self, css_path: &str) -> (ret: &mut Self)
        ensures
            ret@ == (ContentBuilderView {
                css_files: old(self)@.css_files.push(css_path@),
                ..old(self)@
            }),
            *final(self) == *final(ret),
    {
        self.css_files.push(owned(css_path));
        assert(self.css_files.deep_view() =~= old(self)@.css_files.push(css_path@));
        self
    }

    /// Takes the last style sheet file away, if there is one.
    pub fn remove_last_css_file(&mut self) -> (ret: &mut Self)
        ensures
            ret@ == (ContentBuilderView {
                css_files: if old(self)@.css_files.len() > 0 {
                    old(self)@.css_files.drop_last()
                } else {
                    old(self)@.css_files
                },
                ..old(self)@
            }),
            *final(self) == *final(ret),
    {
        self.css_files.pop();
        proof {
            if old(self)@.css_files.len() > 0 {
                assert(self.css_files.deep_view() =~= old(self)@.css_files.drop_last());
            }
        }
        self
    }

    /// Takes all style sheet files away.
    pub fn clear_css_files(&mut self) -> (ret: &mut Self)
        ensures
            ret@ == (ContentBuilderView { css_files: Seq::empty(), ..old(self)@ }),
            *final(self) == *final(ret),
    {
        self.css_files.clear();
        assert(self.css_files.deep_view() =~= Seq::<Seq<char>>::empty());
        self
    }

    /// Notes the media file that the last block brings with it.
    fn handle_resource(&mut self)
        ensures
            final(self)@ == (ContentBuilderView {
                resources: if old(self)@.blocks.len() > 0 {
                    match media_of(old(self)@.blocks.last()) {
                        Some(file) => old(self)@.resources.push(file),
                        None => old(self)@.resources,
                    }
                } else {
                    old(self)@.resources
                },
                ..old(self)@
            }),
    {
        if self.blocks.len() == 0 {
            return ;
        }
        let last = &self.blocks[self.blocks.len() - 1];
        assert(last@ == self@.blocks.last());
        let file = match last {
            Block::Image { url, .. } => Some(
                MediaFile { directory: owned("img"), source: url.clone() },
            ),
            Block::Audio { url, .. } => Some(
                MediaFile { directory: owned("audio"), source: url.clone() },
            ),
            Block::Video { url, .. } => Some(
                MediaFile { directory: owned("video"), source: url.clone() },
            ),
            Block::MathML { fallback_image: Some(url), .. } => Some(
                MediaFile { directory: owned("img"), source: url.clone() },
            ),
            _ => None,
        };
        if let Some(file) = file {
            let ghost before = self.resources.deep_view();
            self.resources.push(file);
            assert(self.resources.deep_view() =~= before.push(file.deep_view()));
        }
    }

    /// Adds `block` at the end of the chapter.
    pub fn add_block(&mut self, block: Block) -> (ret: &mut Self)
        ensures
            ret@ == with_block(old(self)@, block@),
            *final(self) == *final(ret),
    {
        self.blocks.push(block);
        assert(self.blocks.deep_view() =~= old(self)@.blocks.push(block@));
        self.handle_resource();
        self
    }

    /// Builds the block that `builder` holds and adds it.
    fn add_built(&mut self, builder: BlockBuilder) -> (r: Result<(), EpubError>)
        ensures
            block_added(old(self)@, builder@, r, final(self)@),
    {
        match builder.build() {
            Ok(block) => {
                self.add_block(block);
                Ok(())
            },
            Err(e) => Err(e),
        }
    }

    /// Adds a paragraph.
    pub fn add_text_block(&mut self, content: &str, footnotes: Vec<Footnote>) -> (r: Result<
        (),
        EpubError,
    >)
        ensures
            block_added(
                old(self)@,
                text_builder(BlockType::Text, content@, None, footnotes.deep_view()),
                r,
                final(self)@,
            ),
    {
        let mut builder = BlockBuilder::new(BlockType::Text);
        builder.set_content(content).set_footnotes(footnotes);
        self.add_built(builder)
    }

    /// Adds a quotation.
    pub fn add_quote_block(&mut self, content: &str, footnotes: Vec<Footnote>) -> (r: Result<
        (),
        EpubError,
    >)
        ensures
            block_added(
                old(self)@,
                text_builder(BlockType::Quote, content@, None, footnotes.deep_view()),
                r,
                final(self)@,
            ),
    {
        let mut builder = BlockBuilder::new(BlockType::Quote);
        builder.set_content(content).set_footnotes(footnotes);
        self.add_built(builder)
    }

    /// Adds a heading of the level `level`. A level that is not from one
    /// to six leaves the heading without level, and it is refused.
    pub fn add_title_block(&mut self, content: &str, level: usize, footnotes: Vec<Footnote>) -> (r:
        Result<(), EpubError>)
        ensures
            block_added(
                old(self)@,
                text_builder(
                    BlockType::Title,
                    content@,
                    if 1 <= level <= 6 {
                        Some(level)
                    } else {
                        None
                    },
                    footnotes.deep_view(),
                ),
                r,
                final(self)@,
            ),
    {
        let mut builder = BlockBuilder::new(BlockType::Title);
        builder.set_content(content).set_title_level(level).set_footnotes(footnotes);
        self.add_built(builder)
    }

    /// Adds a piece of media of the kind `block_type`, whose file at `url`
    /// begins with `header`.
    fn add_media_block(
        &mut self,
        block_type: BlockType,
        url: &str,
        header: &[u8],
        alt: Option<String>,
        fallback: Option<String>,
        caption: Option<String>,
        footnotes: Vec<Footnote>,
    ) -> (r: Result<(), EpubError>)
        ensures
            match media_check(url@, header@, false) {
                Err(fault) => r matches Err(e) && e@ == fault && final(self)@ == old(self)@,
                Ok(()) => block_added(
                    old(self)@,
                    media_builder(
                        block_type,
                        url@,
                        alt.deep_view(),
                        fallback.deep_view(),
                        caption.deep_view(),
                        footnotes.deep_view(),
                    ),
                    r,
                    final(self)@,
                ),
            },
    {
        let mut builder = BlockBuilder::new(block_type);
        match builder.set_url(url, header) {
            Ok(()) => {},
            Err(e) => {
                return Err(e);
            },
        }
        builder.footnotes = footnotes;
        builder.alt = alt;
        builder.fallback = fallback;
        builder.caption = caption;
        self.add_built(builder)
    }

    /// Adds an image, whose file at `url` begins with `header`.
    pub fn add_image_block(
        &mut self,
        url: &str,
        header: &[u8],
        alt: Option<String>,
        caption: Option<String>,
        footnotes: Vec<Footnote>,
    ) -> (r: Result<(), EpubError>)
        ensures
            match media_check(url@, header@, false) {
                Err(fault) => r matches Err(e) && e@ == fault && final(self)@ == old(self)@,
                Ok(()) => block_added(
                    old(self)@,
                    media_builder(
                        BlockType::Image,
                        url@,
                        alt.deep_view(),
                        None,
                        caption.deep_view(),
                        footnotes.deep_view(),
                    ),
                    r,
                    final(self)@,
                ),
            },
    {
        self.add_media_block(BlockType::Image, url, header, alt, None, caption, footnotes)
    }

    /// Adds a sound, whose file at `url` begins with `header`.
    pub fn add_audio_block(
        &mut self,
        url: &str,
        header: &[u8],
        fallback: String,
        caption: Option<String>,
        footnotes: Vec<Footnote>,
    ) -> (r: Result<(), EpubError>)
        ensures
            match media_check(url@, header@, false) {
                Err(fault) => r matches Err(e) && e@ == fault && final(self)@ == old(self)@,
                Ok(()) => block_added(
                    old(self)@,
                    media_builder(
                        BlockType::Audio,
                        url@,
                        None,
                        Some(fallback@),
                        caption.deep_view(),
                        footnotes.deep_view(),
                    ),
                    r,
                    final(self)@,
                ),
            },
    {
        self.add_media_block(BlockType::Audio, url, header, None, Some(fallback), caption, footnotes)
    }

    /// Adds a film, whose file at `url` begins with `header`.
    pub fn add_video_block(
        &mut self,
        url: &str,
        header: &[u8],
        fallback: String,
        caption: Option<String>,
        footnotes: Vec<Footnote>,
    ) -> (r: Result<(), EpubError>)
        ensures
            match media_check(url@, header@, false) {
                Err(fault) => r matches Err(e) && e@ == fault && final(self)@ == old(self)@,
                Ok(()) => block_added(
                    old(self)@,
                    media_builder(
                        BlockType::Video,
                        url@,
                        None,
                        Some(fallback@),
                        caption.deep_view(),
                        footnotes.deep_view(),
                    ),
                    r,
                    final(self)@,
                ),
            },
    {
        self.add_media_block(BlockType::Video, url, header, None, Some(fallback), caption, footnotes)
    }

    /// Adds a formula. Where `fallback_image` names an image by its path
    /// and its first bytes, the file must hold an image.
    pub fn add_mathml_block(
        &mut self,
        element_str: String,
        fallback_image: Option<(String, Vec<u8>)>,
        caption: Option<String>,
        footnotes: Vec<Footnote>,
    ) -> (r: Result<(), EpubError>)
        ensures
            match fallback_image {
                Some((path, header)) if media_check(path@, header@, true) is Err => r matches Err(e)
                    && Err::<(), Fault>(e@) == media_check(path@, header@, true) && final(self)@
                    == old(self)@,
                _ => block_added(
                    old(self)@,
                    BlockBuilderView {
                        block_type: BlockType::MathML,
                        content: None,
                        level: None,
                        url: None,
                        alt: None,
                        caption: caption.deep_view(),
                        fallback: None,
                        element_str: Some(element_str@),
                        fallback_image: match fallback_image {
                            Some((path, _)) => Some(path@),
                            None => None,
                        },
                        footnotes: footnotes.deep_view(),
                    },
                    r,
                    final(self)@,
                ),
            },
    {
        let mut builder = BlockBuilder::new(BlockType::MathML);
        builder.element_str = Some(element_str);
        builder.footnotes = footnotes;
        if let Some((path, header)) = fallback_image {
            match builder.set_fallback_image(path.as_str(), header.as_slice()) {
                Ok(()) => {},
                Err(e) => {
                    return Err(e);
                },
            }
        }
        builder.caption = caption;
        self.add_built(builder)
    }

    /// Takes the last block away, if there is one.
    pub fn remove_last_block(&mut self) -> (ret: &mut Self)
        ensures
            ret@ == (ContentBuilderView {
                blocks: if old(self)@.blocks.len() > 0 {
                    old(self)@.blocks.drop_last()
                } else {
                    old(self)@.blocks
                },
                ..old(self)@
            }),
            *final(self) == *final(ret),
    {
        self.blocks.pop();
        proof {
            if old(self)@.blocks.len() > 0 {
                assert(self.blocks.deep_view() =~= old(self)@.blocks.drop_last());
            }
        }
        self
    }

    /// Takes the last block away and hands it out.
    pub fn take_last_block(&mut self) -> (r: Option<Block>)
        ensures
            old(self)@.blocks.len() == 0 ==> r is None && final(self)@ == old(self)@,
            old(self)@.blocks.len() > 0 ==> r.deep_view() == Some(old(self)@.blocks.last())
                && final(self)@ == (ContentBuilderView {
                blocks: old(self)@.blocks.drop_last(),
                ..old(self)@
            }),
    {
        let r = self.blocks.pop();
        proof {
            if old(self)@.blocks.len() > 0 {
                assert(self.blocks.deep_view() =~= old(self)@.blocks.drop_last());
            }
        }
        r
    }

    /// Takes all blocks away.
    pub fn clear_blocks(&mut self) -> (ret: &mut Self)
        ensures
            ret@ == (ContentBuilderView { blocks: Seq::empty(), ..old(self)@ }),
            *final(self) == *final(ret),
    {
        self.blocks.clear();
        assert(self.blocks.deep_view() =~= Seq::<BlockView>::empty());
        self
    }
}

} // verus!
