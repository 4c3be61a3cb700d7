//! Writing the body of a chapter: its blocks with the marks of their
//! footnotes, and the list of footnotes behind them.

use crate::builder::content::{Block, BlockView, ContentBuilder, ContentBuilderView, Footnote, FootnoteView};
use crate::error::{xml_error_text, EpubBuilderError, EpubError};
use crate::text::{
    chars_of, concat2, concat3, decimal, format_decimal, owned, split_words, words, Delim,
};
use crate::xml_reader::{
    byte_length, event_kind, next_plain_event, open_plain_reader, passing_steps, pending_passes,
    PassStep, TokenKind,
};
use crate::xml_writer::{attribute, decl, declaration, empty_of, empty_with, end, end_of, push_piece, push_text_element, render_into, rendered, start, start_of, start_with, text, text_element, text_of, write_event_bytes, XmlPiece, XmlPieceView};
use vstd::prelude::*;
use vstd::string::*;

verus! {

/// Whether the text `a` does not come behind the text `b` where texts are
/// compared character by character, a text before every text that it
/// begins.
pub open spec fn text_le(a: Seq<char>, b: Seq<char>) -> bool
    decreases a.len(),
{
    if a.len() == 0 {
        true
    } else if b.len() == 0 {
        false
    } else if (a[0] as u32) < (b[0] as u32) {
        true
    } else if (a[0] as u32) > (b[0] as u32) {
        false
    } else {
        text_le(a.drop_first(), b.drop_first())
    }
}

/// Whether the footnote `a` does not come behind the footnote `b`: by
/// their places, and by their texts where the places are the same.
pub open spec fn note_le(a: FootnoteView, b: FootnoteView) -> bool {
    a.locate < b.locate || (a.locate == b.locate && text_le(a.content, b.content))
}

/// Whether the text `a` does not come behind the text `b`.
pub fn text_not_behind(a: &str, b: &str) -> (r: bool)
    ensures
        r == text_le(a@, b@),
{
    let x = chars_of(a);
    let y = chars_of(b);
    let mut i: usize = 0;
    proof {
        assert(x@.skip(0) =~= x@);
        assert(y@.skip(0) =~= y@);
    }
    while i < x.len() && i < y.len()
        invariant
            i <= x.len(),
            i <= y.len(),
            x@ == a@,
            y@ == b@,
            text_le(x@, y@) == text_le(x@.skip(i as int), y@.skip(i as int)),
        decreases x.len() - i,
    {
        proof {
            assert(x@.skip(i as int).drop_first() =~= x@.skip(i + 1));
            assert(y@.skip(i as int).drop_first() =~= y@.skip(i + 1));
        }
        let p = x[i] as u32;
        let q = y[i] as u32;
        if p < q {
            return true;
        }
        if p > q {
            return false;
        }
        i += 1;
    }
    i == x.len()
}

/// Whether the footnote `a` does not come behind the footnote `b`.
pub fn note_not_behind(a: &Footnote, b: &Footnote) -> (r: bool)
    ensures
        r == note_le(a@, b@),
{
    a.locate < b.locate || (a.locate == b.locate && text_not_behind(
        a.content.as_str(),
        b.content.as_str(),
    ))
}

/// `sorted` with `note` added behind the last footnote that does not come
/// behind it.
pub open spec fn note_placed(sorted: Seq<FootnoteView>, note: FootnoteView) -> Seq<FootnoteView>
    decreases sorted.len(),
{
    if sorted.len() == 0 {
        seq![note]
    } else if note_le(sorted.last(), note) {
        sorted.push(note)
    } else {
        note_placed(sorted.drop_last(), note).push(sorted.last())
    }
}

/// `notes` in their order: by place, then by text.
pub open spec fn notes_in_order(notes: Seq<FootnoteView>) -> Seq<FootnoteView>
    decreases notes.len(),
{
    if notes.len() == 0 {
        Seq::empty()
    } else {
        note_placed(notes_in_order(notes.drop_last()), notes.last())
    }
}

/// Where every footnote from `at` on comes behind `note` and the one
/// before `at` does not, `note` is placed at `at`.
pub proof fn lemma_note_placed_at(sorted: Seq<FootnoteView>, note: FootnoteView, at: int)
    requires
        0 <= at <= sorted.len(),
        forall|j: int| at <= j < sorted.len() ==> !note_le(sorted[j], note),
        at > 0 ==> note_le(sorted[at - 1], note),
    ensures
        note_placed(sorted, note) == sorted.insert(at, note),
    decreases sorted.len(),
{
    if sorted.len() == 0 {
        assert(seq![note] =~= sorted.insert(0, note));
    } else if at == sorted.len() {
        assert(sorted.push(note) =~= sorted.insert(at, note));
    } else {
        lemma_note_placed_at(sorted.drop_last(), note, at);
        assert(sorted.drop_last().insert(at, note).push(sorted.last()) =~= sorted.insert(
            at,
            note,
        ));
    }
}

/// Sorts footnotes by place, then by text.
pub fn sort_footnotes(notes: &Vec<Footnote>) -> (r: Vec<Footnote>)
    ensures
        r.deep_view() == notes_in_order(notes.deep_view()),
{
    let ghost all = notes.deep_view();
    let mut sorted: Vec<Footnote> = Vec::new();
    proof {
        assert(all.take(0) =~= Seq::<FootnoteView>::empty());
        assert(sorted.deep_view() =~= Seq::<FootnoteView>::empty());
    }
    let mut i: usize = 0;
    while i < notes.len()
        invariant
            i <= notes.len(),
            all == notes.deep_view(),
            sorted.deep_view() == notes_in_order(all.take(i as int)),
        decreases notes.len() - i,
    {
        let note = notes[i].clone();
        proof {
            assert(all.take(i + 1).drop_last() =~= all.take(i as int));
            assert(all.take(i + 1).last() == note@);
        }
        let ghost before = sorted.deep_view();
        let mut at: usize = sorted.len();
        while at > 0 && !note_not_behind(&sorted[at - 1], &note)
            invariant
                at <= sorted.len(),
                before == sorted.deep_view(),
                forall|j: int| at <= j < sorted.len() ==> !note_le(before[j], note@),
            decreases at,
        {
            at -= 1;
        }
        proof {
            lemma_note_placed_at(before, note@, at as int);
        }
        sorted.insert(at, note);
        assert(sorted.deep_view() =~= before.insert(at as int, note@));
        i += 1;
    }
    proof {
        assert(all.take(i as int) =~= all);
    }
    sorted
}

/// The number `from` raised by `by`, but not above the highest number.
pub open spec fn raised(from: usize, by: nat) -> usize {
    if from + by <= usize::MAX {
        (from + by) as usize
    } else {
        usize::MAX
    }
}

/// Raises `from` by `by`, but not above the highest number.
pub fn raise(from: usize, by: usize) -> (r: usize)
    ensures
        r == raised(from, by as nat),
{
    if by <= usize::MAX - from {
        from + by
    } else {
        usize::MAX
    }
}

/// The places of the footnotes `notes`, each once, in the order in which
/// they first come.
pub open spec fn places_of(notes: Seq<FootnoteView>) -> Seq<usize>
    decreases notes.len(),
{
    if notes.len() == 0 {
        Seq::empty()
    } else {
        let before = places_of(notes.drop_last());
        if before.len() > 0 && before.last() == notes.last().locate {
            before
        } else {
            before.push(notes.last().locate)
        }
    }
}

/// How many of `notes` have the place `place`.
pub open spec fn notes_at(notes: Seq<FootnoteView>, place: usize) -> nat {
    notes.filter(|note: FootnoteView| note.locate == place).len()
}

/// How many footnotes have one of the first `upto` places.
pub open spec fn notes_before(notes: Seq<FootnoteView>, places: Seq<usize>, upto: int) -> nat
    decreases upto,
{
    if upto <= 0 || upto > places.len() {
        0
    } else {
        notes_before(notes, places, upto - 1) + notes_at(notes, places[upto - 1])
    }
}

/// The mark of the footnote with the number `index`: a link to the
/// footnote.
pub open spec fn reference(index: usize) -> Seq<XmlPieceView> {
    text_element(
        "a"@,
        seq![
            ("href"@, "#footnote-"@ + decimal(index as nat)),
            ("id"@, "ref-"@ + decimal(index as nat)),
            ("class"@, "footnote-ref"@),
        ],
        "["@ + decimal(index as nat) + "]"@,
    )
}

/// The marks of `count` footnotes, numbered from `from` on.
pub open spec fn references(from: usize, count: nat) -> Seq<XmlPieceView>
    decreases count,
{
    if count == 0 {
        Seq::empty()
    } else {
        references(from, (count - 1) as nat) + reference(raised(from, (count - 1) as nat))
    }
}

/// The first `upto` parts of a text, each followed by the marks of the
/// footnotes that stand behind it.
pub open spec fn marked_segments(
    segments: Seq<Seq<char>>,
    places: Seq<usize>,
    notes: Seq<FootnoteView>,
    start: usize,
    upto: int,
) -> Seq<XmlPieceView>
    decreases upto,
{
    if upto <= 0 || upto > segments.len() {
        Seq::empty()
    } else {
        marked_segments(segments, places, notes, start, upto - 1) + seq![
            text_of(segments[upto - 1]),
        ] + (if upto - 1 < places.len() {
            references(
                raised(start, notes_before(notes, places, upto - 1)),
                notes_at(notes, places[upto - 1]),
            )
        } else {
            Seq::empty()
        })
    }
}

/// The text `content` with the marks of its footnotes `notes`, which are
/// numbered from `start` on in the order in which they are given. The text
/// is cut at the places of the footnotes; behind each part stand the marks
/// of the footnotes of that place.
pub open spec fn marked_text(content: Seq<char>, notes: Seq<FootnoteView>, start: usize) -> Seq<
    XmlPieceView,
> {
    if notes.len() == 0 {
        seq![text_of(content)]
    } else {
        let places = places_of(notes);
        let segments = crate::builder::content::split_at_indexes(content, places);
        marked_segments(segments, places, notes, start, segments.len() as int)
    }
}

/// Adds to `out` the mark of the footnote with the number `index`.
pub fn make_footnotes(out: &mut Vec<XmlPiece>, index: usize)
    ensures
        final(out).deep_view() == old(out).deep_view() + reference(index),
{
    let number = format_decimal(index);
    let attributes = vec![
        (owned("href"), concat2("#footnote-", number.as_str())),
        (owned("id"), concat2("ref-", number.as_str())),
        attribute("class", "footnote-ref"),
    ];
    assert(attributes.deep_view() =~= seq![
        ("href"@, "#footnote-"@ + decimal(index as nat)),
        ("id"@, "ref-"@ + decimal(index as nat)),
        ("class"@, "footnote-ref"@),
    ]);
    let label = concat3("[", number.as_str(), "]");
    push_text_element(out, "a", attributes, label.as_str());
}

/// The places of the footnotes `notes`, each once.
fn distinct_places(notes: &Vec<Footnote>) -> (r: Vec<usize>)
    ensures
        r@ == places_of(notes.deep_view()),
{
    let ghost all = notes.deep_view();
    let mut places: Vec<usize> = Vec::new();
    proof {
        assert(all.take(0) =~= Seq::<FootnoteView>::empty());
    }
    let mut i: usize = 0;
    while i < notes.len()
        invariant
            i <= notes.len(),
            all == notes.deep_view(),
            places@ == places_of(all.take(i as int)),
        decreases notes.len() - i,
    {
        proof {
            assert(all.take(i + 1).drop_last() =~= all.take(i as int));
            assert(all.take(i + 1).last() == notes[i as int]@);
        }
        let place = notes[i].locate;
        if !(places.len() > 0 && places[places.len() - 1] == place) {
            places.push(place);
        }
        i += 1;
    }
    proof {
        assert(all.take(i as int) =~= all);
    }
    places
}

/// How many of `notes` have the place `place`.
fn count_at(notes: &Vec<Footnote>, place: usize) -> (r: usize)
    ensures
        r == notes_at(notes.deep_view(), place),
{
    let ghost all = notes.deep_view();
    let ghost wanted = |note: FootnoteView| note.locate == place;
    let mut count: usize = 0;
    proof {
        assert(all.take(0) =~= Seq::<FootnoteView>::empty());
    }
    let mut i: usize = 0;
    while i < notes.len()
        invariant
            i <= notes.len(),
            all == notes.deep_view(),
            wanted == |note: FootnoteView| note.locate == place,
            count == all.take(i as int).filter(wanted).len(),
            count <= i,
        decreases notes.len() - i,
    {
        proof {
            assert(all.take(i + 1) =~= all.take(i as int).push(notes[i as int]@));
            all.take(i as int).lemma_filter_push(notes[i as int]@, wanted);
        }
        if notes[i].locate == place {
            count += 1;
        }
        i += 1;
    }
    proof {
        assert(all.take(i as int) =~= all);
    }
    count
}

/// Adds to `out` the marks of `count` footnotes, numbered from `from` on.
fn make_references(out: &mut Vec<XmlPiece>, from: usize, count: usize)
    ensures
        final(out).deep_view() == old(out).deep_view() + references(from, count as nat),
{
    let ghost head = out.deep_view();
    proof {
        assert(head + Seq::<XmlPieceView>::empty() =~= head);
    }
    let mut k: usize = 0;
    while k < count
        invariant
            k <= count,
            out.deep_view() == head + references(from, k as nat),
        decreases count - k,
    {
        let ghost before = out.deep_view();
        make_footnotes(out, raise(from, k));
        proof {
            assert(head + references(from, k as nat) + reference(raised(from, k as nat)) =~= head
                + (references(from, k as nat) + reference(raised(from, k as nat))));
        }
        k += 1;
    }
}

/// Raising twice is raising by the sum.
pub proof fn lemma_raised_twice(from: usize, a: nat, b: nat)
    ensures
        raised(raised(from, a), b) == raised(from, a + b),
{
}

/// Adds to `out` the text `content` with the marks of its footnotes, which
/// are numbered from `start_index` on in the order in which they are given.
pub fn make_text(out: &mut Vec<XmlPiece>, content: &str, footnotes: &Vec<Footnote>, start_index: usize)
    ensures
        final(out).deep_view() == old(out).deep_view() + marked_text(
            content@,
            footnotes.deep_view(),
            start_index,
        ),
{
    let ghost head = out.deep_view();
    if footnotes.len() == 0 {
        push_piece(out, text(content));
        assert(out.deep_view() =~= head + seq![text_of(content@)]);
        return ;
    }
    let positions = distinct_places(footnotes);
    let content_list = Block::split_content_by_index(content, positions.as_slice());
    let ghost notes = footnotes.deep_view();
    let ghost places = positions@;
    let ghost segments = content_list.deep_view();
    let mut current_index = start_index;
    proof {
        assert(head + Seq::<XmlPieceView>::empty() =~= head);
    }
    let mut index: usize = 0;
    while index < content_list.len()
        invariant
            index <= content_list.len(),
            notes == footnotes.deep_view(),
            places == positions@,
            segments == content_list.deep_view(),
            current_index == raised(
                start_index,
                notes_before(notes, places, if index <= places.len() {
                    index as int
                } else {
                    places.len() as int
                }),
            ),
            out.deep_view() == head + marked_segments(
                segments,
                places,
                notes,
                start_index,
                index as int,
            ),
        decreases content_list.len() - index,
    {
        let ghost before = out.deep_view();
        push_piece(out, text(content_list[index].as_str()));
        let ghost own = out.deep_view();
        if index < positions.len() {
            let count = count_at(footnotes, positions[index]);
            make_references(out, current_index, count);
            proof {
                lemma_raised_twice(
                    start_index,
                    notes_before(notes, places, index as int),
                    count as nat,
                );
            }
            current_index = raise(current_index, count);
        } else {
            proof {
                assert(own + Seq::<XmlPieceView>::empty() =~= own);
            }
        }
        proof {
            assert(segments[index as int] == content_list[index as int]@);
            let tail = if index < places.len() {
                references(
                    raised(start_index, notes_before(notes, places, index as int)),
                    notes_at(notes, places[index as int]),
                )
            } else {
                Seq::<XmlPieceView>::empty()
            };
            assert(out.deep_view() =~= before + seq![text_of(segments[index as int])] + tail);
            assert(head + marked_segments(segments, places, notes, start_index, index as int)
                + seq![text_of(segments[index as int])] + tail =~= head + (marked_segments(
                segments,
                places,
                notes,
                start_index,
                index as int,
            ) + seq![text_of(segments[index as int])] + tail));
        }
        index += 1;
    }
}

/// The name of the file at `path`: the last component of the path.
pub open spec fn file_name_of(path: Seq<char>) -> Seq<char> {
    let parts = words(path, Delim::Char('/'));
    if parts.len() == 0 {
        Seq::empty()
    } else {
        parts.last()
    }
}

/// The name of the file at `path`.
pub fn file_name(path: &str) -> (r: String)
    ensures
        r@ == file_name_of(path@),
{
    let parts = split_words(path, &Delim::Char('/'));
    if parts.len() == 0 {
        String::new()
    } else {
        parts[parts.len() - 1].clone()
    }
}

/// The caption of a piece of media, with the marks of its footnotes.
pub open spec fn caption_pieces(caption: Option<Seq<char>>, notes: Seq<FootnoteView>, start: usize) -> Seq<
    XmlPieceView,
> {
    match caption {
        Some(caption) => seq![start_of("figcaption"@, Seq::empty())] + marked_text(
            caption,
            notes,
            start,
        ) + seq![end_of("figcaption"@)],
        None => Seq::empty(),
    }
}

/// A sound or a film: the element named `tag` for the file `url` in the
/// directory `directory`, with the text to show where it cannot be played.
pub open spec fn player_pieces(
    tag: Seq<char>,
    directory: Seq<char>,
    url: Seq<char>,
    fallback: Seq<char>,
) -> Seq<XmlPieceView> {
    seq![
        start_of(
            tag,
            seq![("src"@, "./"@ + directory + "/"@ + file_name_of(url)), ("controls"@, "controls"@)],
        ),
    ] + text_element("p"@, Seq::empty(), fallback) + seq![end_of(tag)]
}

/// The opening tag of a figure of the class `class`.
pub open spec fn figure_start(class: Seq<char>) -> XmlPieceView {
    start_of("figure"@, seq![("class"@, class)])
}

/// What is written for `block` in front of its formula, or for all of the
/// block where it is no formula. The footnotes are marked in the order in
/// which the block holds them, numbered from `start` on.
pub open spec fn block_head(block: BlockView, start: usize) -> Seq<XmlPieceView> {
    match block {
        BlockView::Text { content, footnotes } => seq![
            start_of("p"@, seq![("class"@, "content-block text-block"@)]),
        ] + marked_text(content, footnotes, start) + seq![end_of("p"@)],
        BlockView::Quote { content, footnotes } => seq![
            start_of(
                "blockquote"@,
                seq![
                    ("class"@, "content-block quote-block"@),
                    ("cite"@, "SOME ATTR NEED TO BE SET"@),
                ],
            ),
            start_of("p"@, Seq::empty()),
        ] + marked_text(content, footnotes, start) + seq![end_of("p"@), end_of("blockquote"@)],
        BlockView::Title { content, footnotes, level } => seq![
            start_of(
                "h"@ + decimal(level as nat),
                seq![("class"@, "content-block title-block"@)],
            ),
        ] + marked_text(content, footnotes, start) + seq![end_of("h"@ + decimal(level as nat))],
        BlockView::Image { url, alt, caption, footnotes } => seq![
            figure_start("content-block image-block"@),
            empty_of(
                "img"@,
                seq![("src"@, "./img/"@ + file_name_of(url))] + (match alt {
                    Some(alt) => seq![("alt"@, alt)],
                    None => Seq::empty(),
                }),
            ),
        ] + caption_pieces(caption, footnotes, start) + seq![end_of("figure"@)],
        BlockView::Audio { url, fallback, caption, footnotes } => seq![
            figure_start("content-block audio-block"@),
        ] + player_pieces("audio"@, "audio"@, url, fallback) + caption_pieces(
            caption,
            footnotes,
            start,
        ) + seq![end_of("figure"@)],
        BlockView::Video { url, fallback, caption, footnotes } => seq![
            figure_start("content-block video-block"@),
        ] + player_pieces("video"@, "video"@, url, fallback) + caption_pieces(
            caption,
            footnotes,
            start,
        ) + seq![end_of("figure"@)],
        BlockView::MathML { .. } => seq![figure_start("content-block mathml-block"@)],
    }
}

/// What is written for a formula behind its MathML source; nothing for any
/// other block.
pub open spec fn block_tail(block: BlockView, start: usize) -> Seq<XmlPieceView> {
    match block {
        BlockView::MathML { fallback_image, caption, footnotes, .. } => (match fallback_image {
            Some(path) => seq![
                empty_of(
                    "img"@,
                    seq![
                        ("src"@, "./img/"@ + file_name_of(path)),
                        ("class"@, "mathml-fallback"@),
                        ("alt"@, "Mathematical formula"@),
                    ],
                ),
            ],
            None => Seq::empty(),
        }) + caption_pieces(caption, footnotes, start) + seq![end_of("figure"@)],
        _ => Seq::empty(),
    }
}

/// `block` with its footnotes in their order.
pub open spec fn sorted_block(block: BlockView) -> BlockView {
    match block {
        BlockView::Text { content, footnotes } => BlockView::Text {
            content,
            footnotes: notes_in_order(footnotes),
        },
        BlockView::Quote { content, footnotes } => BlockView::Quote {
            content,
            footnotes: notes_in_order(footnotes),
        },
        BlockView::Title { content, footnotes, level } => BlockView::Title {
            content,
            footnotes: notes_in_order(footnotes),
            level,
        },
        BlockView::Image { url, alt, caption, footnotes } => BlockView::Image {
            url,
            alt,
            caption,
            footnotes: notes_in_order(footnotes),
        },
        BlockView::Audio { url, fallback, caption, footnotes } => BlockView::Audio {
            url,
            fallback,
            caption,
            footnotes: notes_in_order(footnotes),
        },
        BlockView::Video { url, fallback, caption, footnotes } => BlockView::Video {
            url,
            fallback,
            caption,
            footnotes: notes_in_order(footnotes),
        },
        BlockView::MathML { element_str, fallback_image, caption, footnotes } => BlockView::MathML {
            element_str,
            fallback_image,
            caption,
            footnotes: notes_in_order(footnotes),
        },
    }
}

/// What stands between head and tail of `block`: the source of a formula
/// as the XML tokenizer and the XML writer pass it through; nothing for a
/// block that is no formula.
pub open spec fn block_formula(block: BlockView) -> Result<Seq<u8>, PassFault> {
    match block {
        BlockView::MathML { element_str, .. } => formula_of(element_str),
        _ => Ok(Seq::empty()),
    }
}

/// What is written for a block whose formula is not passed through: the
/// head of the block, then the events of the formula before the one that
/// stops it.
pub open spec fn block_begun(block: BlockView, start: usize) -> Seq<u8> {
    match block {
        BlockView::MathML { element_str, .. } => rendered(block_head(block, start))
            + formula_begun(element_str),
        _ => rendered(block_head(block, start)),
    }
}

/// Whether `at` is the place of the first of `blocks` whose formula is not
/// passed through.
pub open spec fn stopped_at(blocks: Seq<BlockView>, at: int) -> bool {
    &&& 0 <= at < blocks.len()
    &&& block_formula(blocks[at]) is Err
    &&& forall|j: int| 0 <= j < at ==> (#[trigger] block_formula(blocks[j])) is Ok
}

/// `blocks` with the footnotes of the first `upto` of them in their order.
pub open spec fn sorted_upto(blocks: Seq<BlockView>, upto: int) -> Seq<BlockView> {
    Seq::new(
        blocks.len(),
        |i: int|
            if i < upto {
                sorted_block(blocks[i])
            } else {
                blocks[i]
            },
    )
}

/// Whether `bytes` is what is written for `block`, its footnotes numbered
/// from `start` on: the head of the block, then the formula as it is
/// passed through, then the tail. A block that is no formula has nothing
/// between head and tail.
pub open spec fn block_written(block: BlockView, start: usize, bytes: Seq<u8>) -> bool {
    block_formula(block) matches Ok(formula) && bytes == rendered(block_head(block, start))
        + formula + rendered(block_tail(block, start))
}

/// The first reason why a formula among the first `upto` of `blocks` is
/// not passed through, if there is any.
pub open spec fn formulas_fault(blocks: Seq<BlockView>, upto: int) -> Option<PassFault>
    decreases upto,
{
    if upto <= 0 || upto > blocks.len() {
        None
    } else {
        match formulas_fault(blocks, upto - 1) {
            Some(fault) => Some(fault),
            None => match block_formula(blocks[upto - 1]) {
                Err(fault) => Some(fault),
                Ok(_) => None,
            },
        }
    }
}

/// A fault among the first blocks is the fault among all of them.
pub proof fn lemma_formulas_fault(blocks: Seq<BlockView>, upto: int)
    requires
        0 <= upto <= blocks.len(),
        formulas_fault(blocks, upto) is Some,
    ensures
        formulas_fault(blocks, blocks.len() as int) == formulas_fault(blocks, upto),
    decreases blocks.len() - upto,
{
    if upto < blocks.len() {
        lemma_formulas_fault(blocks, upto + 1);
    }
}

/// Adds to `out` the caption of a piece of media.
fn make_caption(out: &mut Vec<XmlPiece>, caption: &Option<String>, footnotes: &Vec<Footnote>, start_index: usize)
    ensures
        final(out).deep_view() == old(out).deep_view() + caption_pieces(
            caption.deep_view(),
            footnotes.deep_view(),
            start_index,
        ),
{
    let ghost head = out.deep_view();
    match caption {
        Some(caption) => {
            push_piece(out, start("figcaption"));
            make_text(out, caption.as_str(), footnotes, start_index);
            push_piece(out, end("figcaption"));
            assert(out.deep_view() =~= head + caption_pieces(
                Some(caption@),
                footnotes.deep_view(),
                start_index,
            ));
        },
        None => {
            assert(head + Seq::<XmlPieceView>::empty() =~= head);
        },
    }
}

/// Adds to `out` a sound or a film.
fn make_player(out: &mut Vec<XmlPiece>, tag: &str, directory: &str, url: &str, fallback: &str)
    ensures
        final(out).deep_view() == old(out).deep_view() + player_pieces(
            tag@,
            directory@,
            url@,
            fallback@,
        ),
{
    let ghost head = out.deep_view();
    let name = file_name(url);
    let prefix = concat3("./", directory, "/");
    let source = concat2(prefix.as_str(), name.as_str());
    let attributes = vec![(owned("src"), source), attribute("controls", "controls")];
    assert(attributes.deep_view() =~= seq![
        ("src"@, "./"@ + directory@ + "/"@ + file_name_of(url@)),
        ("controls"@, "controls"@),
    ]);
    push_piece(out, start_with(tag, attributes));
    let none: Vec<(String, String)> = Vec::new();
    assert(none.deep_view() =~= Seq::empty());
    push_text_element(out, "p", none, fallback);
    push_piece(out, end(tag));
    assert(out.deep_view() =~= head + player_pieces(tag@, directory@, url@, fallback@));
}

/// Adds to `out` the opening tag of a figure of the class `class`.
fn make_figure_start(out: &mut Vec<XmlPiece>, class: &str)
    ensures
        final(out).deep_view() == old(out).deep_view().push(figure_start(class@)),
{
    let attributes = vec![attribute("class", class)];
    assert(attributes.deep_view() =~= seq![("class"@, class@)]);
    push_piece(out, start_with("figure", attributes));
}

/// The pieces in front of the formula of `block`, or all pieces of a block
/// that is no formula.
fn head_pieces(block: &Block, start_index: usize) -> (r: Vec<XmlPiece>)
    ensures
        r.deep_view() == block_head(block@, start_index),
{
    let mut out: Vec<XmlPiece> = Vec::new();
    assert(out.deep_view() =~= Seq::<XmlPieceView>::empty());
    match block {
        Block::Text { content, footnotes } => {
            let attributes = vec![attribute("class", "content-block text-block")];
            assert(attributes.deep_view() =~= seq![("class"@, "content-block text-block"@)]);
            push_piece(&mut out, start_with("p", attributes));
            make_text(&mut out, content.as_str(), footnotes, start_index);
            push_piece(&mut out, end("p"));
            assert(out.deep_view() =~= block_head(block@, start_index));
        },
        Block::Quote { content, footnotes } => {
            let attributes = vec![
                attribute("class", "content-block quote-block"),
                attribute("cite", "SOME ATTR NEED TO BE SET"),
            ];
            assert(attributes.deep_view() =~= seq![
                ("class"@, "content-block quote-block"@),
                ("cite"@, "SOME ATTR NEED TO BE SET"@),
            ]);
            push_piece(&mut out, start_with("blockquote", attributes));
            push_piece(&mut out, start("p"));
            make_text(&mut out, content.as_str(), footnotes, start_index);
            push_piece(&mut out, end("p"));
            push_piece(&mut out, end("blockquote"));
            assert(out.deep_view() =~= block_head(block@, start_index));
        },
        Block::Title { content, footnotes, level } => {
            let number = format_decimal(*level);
            let tag_name = concat2("h", number.as_str());
            let attributes = vec![attribute("class", "content-block title-block")];
            assert(attributes.deep_view() =~= seq![("class"@, "content-block title-block"@)]);
            push_piece(&mut out, start_with(tag_name.as_str(), attributes));
            make_text(&mut out, content.as_str(), footnotes, start_index);
            push_piece(&mut out, end(tag_name.as_str()));
            assert(out.deep_view() =~= block_head(block@, start_index));
        },
        Block::Image { url, alt, caption, footnotes } => {
            make_figure_start(&mut out, "content-block image-block");
            let name = file_name(url.as_str());
            let mut attributes = vec![(owned("src"), concat2("./img/", name.as_str()))];
            assert(attributes.deep_view() =~= seq![("src"@, "./img/"@ + file_name_of(url@))]);
            if let Some(alt) = alt {
                let ghost before = attributes.deep_view();
                attributes.push(attribute("alt", alt.as_str()));
                assert(attributes.deep_view() =~= before + seq![("alt"@, alt@)]);
            } else {
                assert(attributes.deep_view() =~= attributes.deep_view() + Seq::empty());
            }
            push_piece(&mut out, empty_with("img", attributes));
            make_caption(&mut out, caption, footnotes, start_index);
            push_piece(&mut out, end("figure"));
            assert(out.deep_view() =~= block_head(block@, start_index));
        },
        Block::Audio { url, fallback, caption, footnotes } => {
            make_figure_start(&mut out, "content-block audio-block");
            make_player(&mut out, "audio", "audio", url.as_str(), fallback.as_str());
            make_caption(&mut out, caption, footnotes, start_index);
            push_piece(&mut out, end("figure"));
            assert(out.deep_view() =~= block_head(block@, start_index));
        },
        Block::Video { url, fallback, caption, footnotes } => {
            make_figure_start(&mut out, "content-block video-block");
            make_player(&mut out, "video", "video", url.as_str(), fallback.as_str());
            make_caption(&mut out, caption, footnotes, start_index);
            push_piece(&mut out, end("figure"));
            assert(out.deep_view() =~= block_head(block@, start_index));
        },
        Block::MathML { .. } => {
            make_figure_start(&mut out, "content-block mathml-block");
            assert(out.deep_view() =~= block_head(block@, start_index));
        },
    }
    out
}

/// The pieces behind the formula of `block`; none for a block that is no
/// formula.
fn tail_pieces(block: &Block, start_index: usize) -> (r: Vec<XmlPiece>)
    ensures
        r.deep_view() == block_tail(block@, start_index),
{
    let mut out: Vec<XmlPiece> = Vec::new();
    assert(out.deep_view() =~= Seq::<XmlPieceView>::empty());
    match block {
        Block::MathML { fallback_image, caption, footnotes, .. } => {
            if let Some(path) = fallback_image {
                let name = file_name(path.as_str());
                let attributes = vec![
                    (owned("src"), concat2("./img/", name.as_str())),
                    attribute("class", "mathml-fallback"),
                    attribute("alt", "Mathematical formula"),
                ];
                assert(attributes.deep_view() =~= seq![
                    ("src"@, "./img/"@ + file_name_of(path@)),
                    ("class"@, "mathml-fallback"@),
                    ("alt"@, "Mathematical formula"@),
                ]);
                push_piece(&mut out, empty_with("img", attributes));
            }
            let ghost image = out.deep_view();
            make_caption(&mut out, caption, footnotes, start_index);
            push_piece(&mut out, end("figure"));
            assert(out.deep_view() =~= block_tail(block@, start_index));
        },
        _ => {},
    }
    out
}

/// Why a text is not passed through.
pub ghost enum PassFault {
    /// The tokenizer refuses the text.
    Refused,
    /// The tokenizer hands out more events than are taken in.
    TooMany,
}

/// What passing through ends in when the steps `steps` are still to be
/// taken, at most `fuel` events are still taken in, and `done` is written
/// already: each event is written as it was read, behind what is written.
pub open spec fn passed(steps: Seq<PassStep>, fuel: nat, done: Seq<u8>) -> Result<
    Seq<u8>,
    PassFault,
>
    decreases steps.len(),
{
    if steps.len() == 0 {
        Ok(done)
    } else {
        match steps[0] {
            PassStep::Failure => Err(PassFault::Refused),
            PassStep::Event(bytes) => if fuel == 0 {
                Err(PassFault::TooMany)
            } else {
                passed(steps.drop_first(), (fuel - 1) as nat, done + bytes)
            },
        }
    }
}

/// What is written until passing through ends, well or not, when the
/// steps `steps` are still to be taken, at most `fuel` events are still
/// taken in, and `done` is written already.
pub open spec fn begun(steps: Seq<PassStep>, fuel: nat, done: Seq<u8>) -> Seq<u8>
    decreases steps.len(),
{
    if steps.len() == 0 {
        done
    } else {
        match steps[0] {
            PassStep::Failure => done,
            PassStep::Event(bytes) => if fuel == 0 {
                done
            } else {
                begun(steps.drop_first(), (fuel - 1) as nat, done + bytes)
            },
        }
    }
}

/// What is written of the MathML source `source` until passing it through
/// ends: all of it where it is passed through, else the events before the
/// one that stops it.
pub open spec fn formula_begun(source: Seq<char>) -> Seq<u8> {
    begun(passing_steps(source), byte_length(source) as nat, Seq::empty())
}

/// The MathML source `source` as the XML tokenizer and the XML writer pass
/// it through, at most as many events as the source has bytes.
pub open spec fn formula_of(source: Seq<char>) -> Result<Seq<u8>, PassFault> {
    passed(passing_steps(source), byte_length(source) as nat, Seq::empty())
}

/// Whether `e` is the error for a formula that is not passed through
/// because of `fault`: a source that the tokenizer refuses is no formula;
/// one with too many events cannot be read.
pub open spec fn refused_as(fault: PassFault, e: crate::error::Fault) -> bool {
    match fault {
        PassFault::Refused => e matches crate::error::Fault::EpubBuilderError {
            source: crate::error::BuilderFault::InvalidMathMLFormat { .. },
        },
        PassFault::TooMany => e == crate::error::Fault::FailedParsingXml,
    }
}

/// Whether `r` and what was written behind `before`, which gives `after`,
/// are what writing the MathML source `source` ends in: the source as it
/// is passed through, or the error for what stops it, behind the events
/// that were written before.
pub open spec fn formula_written(
    source: Seq<char>,
    r: Result<(), EpubError>,
    before: Seq<u8>,
    after: Seq<u8>,
) -> bool {
    match formula_of(source) {
        Ok(bytes) => r is Ok && after == before + bytes,
        Err(fault) => r matches Err(e) && refused_as(fault, e@) && after == before + formula_begun(
            source,
        ),
    }
}

/// Writes the MathML source `element_str` as the XML tokenizer reads it:
/// event by event, behind what `out` holds. A source that the tokenizer
/// refuses is no formula.
pub fn write_mathml_element(out: &mut Vec<u8>, element_str: &str) -> (r: Result<(), EpubError>)
    ensures
        formula_written(element_str@, r, old(out)@, final(out)@),
{
    let mut reader = open_plain_reader(element_str);
    let mut left: usize = element_str.len();
    let mut more = true;
    let ghost mut done: Seq<u8> = Seq::empty();
    proof {
        assert(old(out)@ + done =~= old(out)@);
    }
    while more
        invariant
            old(out)@.is_prefix_of(out@),
            out@ == old(out)@ + done,
            passed(pending_passes(reader), left as nat, done) == formula_of(element_str@),
            begun(pending_passes(reader), left as nat, done) == formula_begun(element_str@),
            !more ==> pending_passes(reader).len() == 0,
        decreases left + (if more { 1int } else { 0int }),
    {
        let event = match next_plain_event(&mut reader) {
            Ok(event) => event,
            Err(source) => {
                return Err(
                    EpubError::EpubBuilderError {
                        source: EpubBuilderError::InvalidMathMLFormat {
                            error: xml_error_text(&source),
                        },
                    },
                );
            },
        };
        if event_kind(&event) == TokenKind::Eof {
            more = false;
        } else {
            if left == 0 {
                return Err(EpubError::FailedParsingXml);
            }
            left -= 1;
            match write_event_bytes(&event) {
                Ok(mut bytes) => {
                    let ghost before = out@;
                    let ghost added = bytes@;
                    out.append(&mut bytes);
                    proof {
                        assert(before =~= out@.subrange(0, before.len() as int));
                        assert(old(out)@ =~= out@.subrange(0, old(out)@.len() as int));
                        assert(out@ =~= old(out)@ + (done + added));
                        done = done + added;
                    }
                },
                Err(source) => {
                    return Err(EpubError::IOError { source });
                },
            }
        }
    }
    Ok(())
}

/// The footnotes of `block`, as a reference to the list that the block
/// holds.
fn footnotes_of(block: &Block) -> (r: &Vec<Footnote>)
    ensures
        r.deep_view() == block@.footnotes(),
{
    match block {
        Block::Text { footnotes, .. } => footnotes,
        Block::Quote { footnotes, .. } => footnotes,
        Block::Title { footnotes, .. } => footnotes,
        Block::Image { footnotes, .. } => footnotes,
        Block::Audio { footnotes, .. } => footnotes,
        Block::Video { footnotes, .. } => footnotes,
        Block::MathML { footnotes, .. } => footnotes,
    }
}

/// `block` with its footnotes in their order.
fn with_sorted_footnotes(block: Block) -> (r: Block)
    ensures
        r@ == sorted_block(block@),
{
    match block {
        Block::Text { content, footnotes } => Block::Text {
            content,
            footnotes: sort_footnotes(&footnotes),
        },
        Block::Quote { content, footnotes } => Block::Quote {
            content,
            footnotes: sort_footnotes(&footnotes),
        },
        Block::Title { content, footnotes, level } => Block::Title {
            content,
            footnotes: sort_footnotes(&footnotes),
            level,
        },
        Block::Image { url, alt, caption, footnotes } => Block::Image {
            url,
            alt,
            caption,
            footnotes: sort_footnotes(&footnotes),
        },
        Block::Audio { url, fallback, caption, footnotes } => Block::Audio {
            url,
            fallback,
            caption,
            footnotes: sort_footnotes(&footnotes),
        },
        Block::Video { url, fallback, caption, footnotes } => Block::Video {
            url,
            fallback,
            caption,
            footnotes: sort_footnotes(&footnotes),
        },
        Block::MathML { element_str, fallback_image, caption, footnotes } => Block::MathML {
            element_str,
            fallback_image,
            caption,
            footnotes: sort_footnotes(&footnotes),
        },
    }
}

impl Block {
    /// Writes the block behind what `out` holds. The footnotes are marked
    /// in the order in which the block holds them, numbered from
    /// `start_index` on.
    pub fn make(&self, out: &mut Vec<u8>, start_index: usize) -> (r: Result<(), EpubError>)
        ensures
            match block_formula(self@) {
                Ok(formula) => r is Ok && final(out)@ == old(out)@ + (rendered(
                    block_head(self@, start_index),
                ) + formula + rendered(block_tail(self@, start_index))),
                Err(fault) => r matches Err(e) && refused_as(fault, e@) && final(out)@ == old(
                    out,
                )@ + block_begun(self@, start_index),
            },
    {
        let ghost before = out@;
        let head = head_pieces(self, start_index);
        match render_into(out, &head) {
            Ok(()) => {},
            Err(e) => {
                return Err(e);
            },
        }
        let ghost after_head = out@;
        if let Block::MathML { element_str, .. } = self {
            match write_mathml_element(out, element_str.as_str()) {
                Ok(()) => {},
                Err(e) => {
                    return Err(e);
                },
            }
        }
        let ghost after_formula = out@;
        let tail = tail_pieces(self, start_index);
        match render_into(out, &tail) {
            Ok(()) => {},
            Err(e) => {
                return Err(e);
            },
        }
        proof {
            let formula = block_formula(self@)->Ok_0;
            assert(after_formula =~= after_head + formula);
            let bytes = rendered(block_head(self@, start_index)) + formula + rendered(
                block_tail(self@, start_index),
            );
            assert(out@ =~= before + bytes);
        }
        Ok(())
    }
}

/// The entry of the list of footnotes for `note`, which has the number
/// `index`: a link back to its mark, then its text.
pub open spec fn footnote_item(note: FootnoteView, index: usize) -> Seq<XmlPieceView> {
    seq![
        start_of(
            "li"@,
            seq![("id"@, "footnote-"@ + decimal(index as nat)), ("class"@, "footnote-item"@)],
        ),
        start_of("p"@, Seq::empty()),
    ] + text_element(
        "a"@,
        seq![("href"@, "#ref-"@ + decimal(index as nat))],
        "["@ + decimal(index as nat) + "]"@,
    ) + seq![text_of(note.content), end_of("p"@), end_of("li"@)]
}

/// The entries for the first `upto` of `notes`, numbered from one on.
pub open spec fn footnote_items(notes: Seq<FootnoteView>, upto: int) -> Seq<XmlPieceView>
    decreases upto,
{
    if upto <= 0 || upto > notes.len() {
        Seq::empty()
    } else {
        footnote_items(notes, upto - 1) + footnote_item(notes[upto - 1], upto as usize)
    }
}

/// The list of the footnotes `notes`.
pub open spec fn footnote_list(notes: Seq<FootnoteView>) -> Seq<XmlPieceView> {
    seq![
        start_of("aside"@, Seq::empty()),
        start_of("ul"@, seq![("class"@, "footnote-list"@)]),
    ] + footnote_items(notes, notes.len() as int) + seq![end_of("ul"@), end_of("aside"@)]
}

/// The links to the style sheet files `files`.
pub open spec fn css_links(files: Seq<Seq<char>>) -> Seq<XmlPieceView>
    decreases files.len(),
{
    if files.len() == 0 {
        Seq::empty()
    } else {
        css_links(files.drop_last()).push(
            empty_of(
                "link"@,
                seq![
                    ("href"@, "./css/"@ + file_name_of(files.last())),
                    ("rel"@, "stylesheet"@),
                    ("type"@, "text/css"@),
                ],
            ),
        )
    }
}

/// What is written of a chapter in front of its blocks. A chapter that
/// links no style sheet file carries its style sheet in itself.
pub open spec fn chapter_head(chapter: ContentBuilderView) -> Seq<XmlPieceView> {
    seq![
        declaration(),
        start_of(
            "html"@,
            seq![("xmlns"@, "http://www.w3.org/1999/xhtml"@), ("xml:lang"@, chapter.language)],
        ),
        start_of("head"@, Seq::empty()),
    ] + text_element("title"@, Seq::empty(), chapter.title) + (if chapter.css_files.len() == 0 {
        text_element("style"@, Seq::empty(), chapter.style_sheet)
    } else {
        css_links(chapter.css_files)
    }) + seq![end_of("head"@), start_of("body"@, Seq::empty()), start_of("main"@, Seq::empty())]
}

/// What is written of a chapter behind its blocks: the list of all its
/// footnotes.
pub open spec fn chapter_tail(notes: Seq<FootnoteView>) -> Seq<XmlPieceView> {
    seq![end_of("main"@)] + footnote_list(notes) + seq![end_of("body"@), end_of("html"@)]
}

/// The footnotes of the first `upto` of `blocks`, in a row.
pub open spec fn notes_of(blocks: Seq<BlockView>, upto: int) -> Seq<FootnoteView>
    decreases upto,
{
    if upto <= 0 || upto > blocks.len() {
        Seq::empty()
    } else {
        notes_of(blocks, upto - 1) + blocks[upto - 1].footnotes()
    }
}

/// The number of the first footnote of the block at `at`: one more than
/// there are footnotes in the blocks before it.
pub open spec fn first_number(blocks: Seq<BlockView>, at: int) -> usize {
    raised(notes_of(blocks, at).len() as usize, 1)
}

/// The parts of `bodies` in a row.
pub open spec fn in_a_row(bodies: Seq<Seq<u8>>) -> Seq<u8>
    decreases bodies.len(),
{
    if bodies.len() == 0 {
        Seq::empty()
    } else {
        in_a_row(bodies.drop_last()) + bodies.last()
    }
}

/// Whether `bytes` is the document of `chapter`, with `bodies` as what was
/// written for its blocks.
pub open spec fn chapter_made(chapter: ContentBuilderView, bodies: Seq<Seq<u8>>, bytes: Seq<u8>) -> bool {
    &&& bodies.len() == chapter.blocks.len()
    &&& forall|i: int|
        0 <= i < bodies.len() ==> block_written(
            chapter.blocks[i],
            first_number(chapter.blocks, i),
            #[trigger] bodies[i],
        )
    &&& bytes == rendered(chapter_head(chapter)) + in_a_row(bodies) + rendered(
        chapter_tail(notes_of(chapter.blocks, chapter.blocks.len() as int)),
    )
}

/// Whether `bytes` is the document of `chapter`: its head, then what is
/// written for each of its blocks, then the list of its footnotes.
pub open spec fn is_chapter(chapter: ContentBuilderView, bytes: Seq<u8>) -> bool {
    exists|bodies: Seq<Seq<u8>>| #[trigger] chapter_made(chapter, bodies, bytes)
}

/// The blocks of `blocks`, each with its footnotes in their order.
pub open spec fn sorted_blocks(blocks: Seq<BlockView>) -> Seq<BlockView> {
    Seq::new(blocks.len(), |i: int| sorted_block(blocks[i]))
}

/// The footnotes of the first blocks do not depend on the blocks behind
/// them.
pub proof fn lemma_notes_of(a: Seq<BlockView>, b: Seq<BlockView>, upto: int)
    requires
        0 <= upto <= a.len(),
        upto <= b.len(),
        forall|j: int| 0 <= j < upto ==> a[j] == b[j],
    ensures
        notes_of(a, upto) == notes_of(b, upto),
    decreases upto,
{
    if upto > 0 {
        lemma_notes_of(a, b, upto - 1);
    }
}

/// The pieces of the list of the footnotes `footnotes`.
pub fn make_footnote_list(footnotes: &Vec<Footnote>) -> (r: Vec<XmlPiece>)
    ensures
        r.deep_view() == footnote_list(footnotes.deep_view()),
{
    let mut out: Vec<XmlPiece> = Vec::new();
    assert(out.deep_view() =~= Seq::<XmlPieceView>::empty());
    push_piece(&mut out, start("aside"));
    let attributes = vec![attribute("class", "footnote-list")];
    assert(attributes.deep_view() =~= seq![("class"@, "footnote-list"@)]);
    push_piece(&mut out, start_with("ul", attributes));
    let ghost head = out.deep_view();
    let ghost notes = footnotes.deep_view();
    proof {
        assert(head + Seq::<XmlPieceView>::empty() =~= head);
    }
    let mut k: usize = 0;
    while k < footnotes.len()
        invariant
            k <= footnotes.len(),
            notes == footnotes.deep_view(),
            out.deep_view() == head + footnote_items(notes, k as int),
        decreases footnotes.len() - k,
    {
        let ghost before = out.deep_view();
        let index: usize = k + 1;
        let number = format_decimal(index);
        let attributes = vec![
            (owned("id"), concat2("footnote-", number.as_str())),
            attribute("class", "footnote-item"),
        ];
        assert(attributes.deep_view() =~= seq![
            ("id"@, "footnote-"@ + decimal(index as nat)),
            ("class"@, "footnote-item"@),
        ]);
        push_piece(&mut out, start_with("li", attributes));
        push_piece(&mut out, start("p"));
        let attributes = vec![(owned("href"), concat2("#ref-", number.as_str()))];
        assert(attributes.deep_view() =~= seq![("href"@, "#ref-"@ + decimal(index as nat))]);
        let label = concat3("[", number.as_str(), "]");
        push_text_element(&mut out, "a", attributes, label.as_str());
        push_piece(&mut out, text(footnotes[k].content.as_str()));
        push_piece(&mut out, end("p"));
        push_piece(&mut out, end("li"));
        proof {
            assert(out.deep_view() =~= before + footnote_item(notes[k as int], index));
            assert(head + footnote_items(notes, k as int) + footnote_item(notes[k as int], index)
                =~= head + (footnote_items(notes, k as int) + footnote_item(
                notes[k as int],
                index,
            )));
        }
        k += 1;
    }
    push_piece(&mut out, end("ul"));
    push_piece(&mut out, end("aside"));
    assert(out.deep_view() =~= footnote_list(notes));
    out
}

/// The pieces of a chapter in front of its blocks.
fn make_head(chapter: &ContentBuilder) -> (r: Vec<XmlPiece>)
    ensures
        r.deep_view() == chapter_head(chapter@),
{
    let mut out: Vec<XmlPiece> = Vec::new();
    assert(out.deep_view() =~= Seq::<XmlPieceView>::empty());
    push_piece(&mut out, decl());
    let attributes = vec![
        attribute("xmlns", "http://www.w3.org/1999/xhtml"),
        attribute("xml:lang", chapter.language.as_str()),
    ];
    assert(attributes.deep_view() =~= seq![
        ("xmlns"@, "http://www.w3.org/1999/xhtml"@),
        ("xml:lang"@, chapter@.language),
    ]);
    push_piece(&mut out, start_with("html", attributes));
    push_piece(&mut out, start("head"));
    let none: Vec<(String, String)> = Vec::new();
    assert(none.deep_view() =~= Seq::empty());
    push_text_element(&mut out, "title", none, chapter.title.as_str());
    let ghost top = out.deep_view();
    if chapter.css_files.len() == 0 {
        let none: Vec<(String, String)> = Vec::new();
        assert(none.deep_view() =~= Seq::empty());
        push_text_element(&mut out, "style", none, chapter.style_sheet.as_str());
    } else {
        let ghost files = chapter@.css_files;
        proof {
            assert(files.take(0) =~= Seq::<Seq<char>>::empty());
            assert(top + Seq::<XmlPieceView>::empty() =~= top);
        }
        let mut i: usize = 0;
        while i < chapter.css_files.len()
            invariant
                i <= chapter.css_files.len(),
                files == chapter@.css_files,
                out.deep_view() == top + css_links(files.take(i as int)),
            decreases chapter.css_files.len() - i,
        {
            proof {
                assert(files.take(i + 1).drop_last() =~= files.take(i as int));
                assert(files.take(i + 1).last() == files[i as int]);
            }
            let name = file_name(chapter.css_files[i].as_str());
            let attributes = vec![
                (owned("href"), concat2("./css/", name.as_str())),
                attribute("rel", "stylesheet"),
                attribute("type", "text/css"),
            ];
            assert(attributes.deep_view() =~= seq![
                ("href"@, "./css/"@ + file_name_of(files[i as int])),
                ("rel"@, "stylesheet"@),
                ("type"@, "text/css"@),
            ]);
            push_piece(&mut out, empty_with("link", attributes));
            assert(out.deep_view() =~= top + css_links(files.take(i + 1)));
            i += 1;
        }
        proof {
            assert(files.take(i as int) =~= files);
        }
    }
    push_piece(&mut out, end("head"));
    push_piece(&mut out, start("body"));
    push_piece(&mut out, start("main"));
    assert(out.deep_view() =~= chapter_head(chapter@));
    out
}

impl ContentBuilder {
    /// Writes the document of the chapter and returns its bytes.
    ///
    /// The footnotes of each block are brought into their order: by place,
    /// then by text. They are numbered through the chapter from one on; the
    /// marks stand in the text of the blocks, and the list of all footnotes
    /// stands behind the blocks.
    pub fn make_content(&mut self) -> (r: Result<Vec<u8>, EpubError>)
        ensures
            final(self)@.blocks.len() == old(self)@.blocks.len(),
            final(self)@ == (ContentBuilderView { blocks: final(self)@.blocks, ..old(self)@ }),
            match formulas_fault(old(self)@.blocks, old(self)@.blocks.len() as int) {
                None => r matches Ok(bytes) && final(self)@.blocks == sorted_blocks(
                    old(self)@.blocks,
                ) && is_chapter(final(self)@, bytes@),
                Some(fault) => r matches Err(e) && refused_as(fault, e@),
            },
            r is Err ==> exists|at: int|
                #[trigger] stopped_at(old(self)@.blocks, at) && final(self)@.blocks
                    == sorted_upto(old(self)@.blocks, at + 1),
    {
        let head = make_head(self);
        let mut out: Vec<u8> = Vec::new();
        match render_into(&mut out, &head) {
            Ok(()) => {},
            Err(e) => {
                return Err(e);
            },
        }
        let ghost before = self@;
        let ghost top = out@;
        let ghost mut bodies: Seq<Seq<u8>> = Seq::empty();
        let mut footnotes: Vec<Footnote> = Vec::new();
        proof {
            assert(top =~= rendered(chapter_head(before)));
            assert(top + in_a_row(bodies) =~= top);
            assert(footnotes.deep_view() =~= notes_of(self@.blocks, 0));
        }
        let mut i: usize = 0;
        while i < self.blocks.len()
            invariant
                i <= self.blocks.len(),
                self@ == (ContentBuilderView { blocks: self@.blocks, ..before }),
                before == old(self)@,
                self@.blocks.len() == before.blocks.len(),
                forall|j: int| 0 <= j < i ==> self@.blocks[j] == sorted_block(before.blocks[j]),
                forall|j: int| i <= j < self@.blocks.len() ==> self@.blocks[j] == before.blocks[j],
                top == rendered(chapter_head(before)),
                bodies.len() == i,
                forall|j: int|
                    0 <= j < i ==> block_written(
                        self@.blocks[j],
                        first_number(self@.blocks, j),
                        #[trigger] bodies[j],
                    ),
                out@ == top + in_a_row(bodies),
                footnotes.deep_view() == notes_of(self@.blocks, i as int),
                formulas_fault(before.blocks, i as int) is None,
                forall|j: int| 0 <= j < i ==> (#[trigger] block_formula(before.blocks[j])) is Ok,
            decreases self.blocks.len() - i,
        {
            let ghost blocks_before = self@.blocks;
            let block = self.blocks.remove(i);
            let block = with_sorted_footnotes(block);
            let footnote_index = raise(footnotes.len(), 1);
            let ghost out_before = out@;
            let made = block.make(&mut out, footnote_index);
            let mut notes = block.take_footnotes();
            let ghost notes_before = footnotes.deep_view();
            let ghost block_view = block@;
            self.blocks.insert(i, block);
            proof {
                assert(self@.blocks =~= blocks_before.update(i as int, block_view));
                lemma_notes_of(blocks_before, self@.blocks, i as int);
                assert forall|j: int| 0 <= j < i implies block_written(
                    self@.blocks[j],
                    first_number(self@.blocks, j),
                    #[trigger] bodies[j],
                ) by {
                    lemma_notes_of(blocks_before, self@.blocks, j);
                }
            }
            proof {
                assert(block_view == sorted_block(before.blocks[i as int]));
                assert(block_formula(block_view) == block_formula(before.blocks[i as int]));
            }
            match made {
                Ok(()) => {},
                Err(e) => {
                    proof {
                        lemma_formulas_fault(before.blocks, i + 1);
                        assert(stopped_at(before.blocks, i as int));
                        assert(self@.blocks =~= sorted_upto(before.blocks, i + 1));
                    }
                    return Err(e);
                },
            }
            footnotes.append(&mut notes);
            proof {
                let body = rendered(block_head(block_view, footnote_index)) + block_formula(
                    block_view,
                )->Ok_0 + rendered(block_tail(block_view, footnote_index));
                assert(block_written(block_view, footnote_index, body));
                assert(bodies.push(body).drop_last() =~= bodies);
                assert(top + in_a_row(bodies) + body =~= top + (in_a_row(bodies) + body));
                bodies = bodies.push(body);
                assert(footnotes.deep_view() =~= notes_before + block_view.footnotes());
            }
            i += 1;
        }
        let mut tail: Vec<XmlPiece> = Vec::new();
        assert(tail.deep_view() =~= Seq::<XmlPieceView>::empty());
        push_piece(&mut tail, end("main"));
        let mut list = make_footnote_list(&footnotes);
        let ghost main_end = tail.deep_view();
        let ghost list_view = list.deep_view();
        tail.append(&mut list);
        assert(tail.deep_view() =~= main_end + list_view);
        push_piece(&mut tail, end("body"));
        push_piece(&mut tail, end("html"));
        proof {
            assert(tail.deep_view() =~= chapter_tail(footnotes.deep_view()));
        }
        match render_into(&mut out, &tail) {
            Ok(()) => {},
            Err(e) => {
                return Err(e);
            },
        }
        proof {
            assert(self@.blocks =~= sorted_blocks(before.blocks));
            assert(chapter_made(self@, bodies, out@));
            assert(is_chapter(self@, out@));
        }
        Ok(out)
    }
}

} // verus!
