//! Writing XML documents, piece by piece, through `quick_xml`.

use crate::error::EpubError;
use crate::text::owned;
use quick_xml::events::{BytesDecl, BytesEnd, BytesStart, BytesText, Event};
use vstd::prelude::*;

verus! {

/// What a piece of an XML document is.
#[derive(Clone, Copy, Debug, PartialEq, Eq, Structural)]
pub enum PieceKind {
    /// The XML declaration: `name` is the version, `text` the encoding.
    Decl,
    /// An opening tag named `name`, with `attributes`.
    Start,
    /// A closing tag named `name`.
    End,
    /// A tag named `name` that opens and closes at once, with `attributes`.
    Empty,
    /// The text `text`.
    Text,
}

/// One piece of an XML document, as a value.
pub ghost struct XmlPieceView {
    pub kind: PieceKind,
    pub name: Seq<char>,
    pub attributes: Seq<(Seq<char>, Seq<char>)>,
    pub text: Seq<char>,
}

/// One piece of an XML document.
#[derive(Debug)]
pub struct XmlPiece {
    /// What the piece is.
    pub kind: PieceKind,
    /// The name of a tag, or the version of a declaration.
    pub name: String,
    /// The attributes of an opening or empty tag.
    pub attributes: Vec<(String, String)>,
    /// Text, or the encoding of a declaration.
    pub text: String,
}

impl DeepView for XmlPiece {
    type V = XmlPieceView;

    open spec fn deep_view(&self) -> XmlPieceView {
        XmlPieceView {
            kind: self.kind,
            name: self.name@,
            attributes: self.attributes.deep_view(),
            text: self.text@,
        }
    }
}

/// The bytes that `quick_xml::Writer::write_event` writes for `piece`.
pub uninterp spec fn written(piece: XmlPieceView) -> Seq<u8>;

/// Calls `quick_xml::Writer::write_event` on an empty buffer, with the
/// event that `piece` stands for, and returns the buffer. Attribute values
/// and text are escaped by the writer. The writer fails only where its
/// buffer does, and a `Vec` takes whatever is written to it.
#[verifier::external_body]
fn write_piece(piece: &XmlPiece) -> (r: Result<Vec<u8>, std::io::Error>)
    ensures
        r is Ok,
        r matches Ok(bytes) ==> bytes@ == written(piece.deep_view()),
{
    let pairs = piece.attributes.iter().map(|a| (a.0.as_str(), a.1.as_str()));
    let tag = BytesStart::new(piece.name.as_str()).with_attributes(pairs);
    let mut writer = quick_xml::Writer::new(Vec::new());
    writer.write_event(match piece.kind {
        PieceKind::Decl => Event::Decl(BytesDecl::new(&piece.name, Some(&piece.text), None)),
        PieceKind::Start => Event::Start(tag),
        PieceKind::End => Event::End(BytesEnd::new(piece.name.as_str())),
        PieceKind::Empty => Event::Empty(tag),
        PieceKind::Text => Event::Text(BytesText::new(&piece.text)),
    })?;
    Ok(writer.into_inner())
}

/// Calls `quick_xml::Writer::write_event` on an empty buffer, with an
/// event as the tokenizer handed it out, and returns the buffer: the bytes
/// that are written for the event. The writer fails only where its buffer
/// does, and a `Vec` takes whatever is written to it.
#[verifier::external_body]
pub(crate) fn write_event_bytes(event: &Event<'_>) -> (r: Result<Vec<u8>, std::io::Error>)
    ensures
        r is Ok,
        r matches Ok(bytes) ==> bytes@ == crate::xml_reader::event_bytes(*event),
{
    let mut writer = quick_xml::Writer::new(Vec::new());
    writer.write_event(event.borrow())?;
    Ok(writer.into_inner())
}

/// The bytes of the document made of `pieces`.
pub open spec fn rendered(pieces: Seq<XmlPieceView>) -> Seq<u8>
    decreases pieces.len(),
{
    if pieces.len() == 0 {
        Seq::empty()
    } else {
        rendered(pieces.drop_last()) + written(pieces.last())
    }
}

/// Writes the document made of `pieces`: the bytes of each piece, one
/// behind the other.
pub fn render(pieces: &Vec<XmlPiece>) -> (r: Result<Vec<u8>, EpubError>)
    ensures
        r matches Ok(bytes) && bytes@ == rendered(pieces.deep_view()),
{
    let mut out: Vec<u8> = Vec::new();
    let mut i: usize = 0;
    proof {
        assert(pieces.deep_view().take(0) =~= Seq::<XmlPieceView>::empty());
    }
    while i < pieces.len()
        invariant
            i <= pieces.len(),
            out@ == rendered(pieces.deep_view().take(i as int)),
        decreases pieces.len() - i,
    {
        proof {
            assert(pieces.deep_view().take(i + 1).drop_last() =~= pieces.deep_view().take(i as int));
            assert(pieces.deep_view().take(i + 1).last() == pieces[i as int].deep_view());
        }
        match write_piece(&pieces[i]) {
            Ok(mut bytes) => {
                out.append(&mut bytes);
            },
            Err(source) => {
                return Err(EpubError::IOError { source });
            },
        }
        i += 1;
    }
    proof {
        assert(pieces.deep_view().take(i as int) =~= pieces.deep_view());
    }
    Ok(out)
}

/// An opening tag, as a value.
pub open spec fn start_of(name: Seq<char>, attributes: Seq<(Seq<char>, Seq<char>)>) -> XmlPieceView {
    XmlPieceView { kind: PieceKind::Start, name, attributes, text: Seq::empty() }
}

/// A closing tag, as a value.
pub open spec fn end_of(name: Seq<char>) -> XmlPieceView {
    XmlPieceView { kind: PieceKind::End, name, attributes: Seq::empty(), text: Seq::empty() }
}

/// A tag that opens and closes at once, as a value.
pub open spec fn empty_of(name: Seq<char>, attributes: Seq<(Seq<char>, Seq<char>)>) -> XmlPieceView {
    XmlPieceView { kind: PieceKind::Empty, name, attributes, text: Seq::empty() }
}

/// Text, as a value.
pub open spec fn text_of(content: Seq<char>) -> XmlPieceView {
    XmlPieceView {
        kind: PieceKind::Text,
        name: Seq::empty(),
        attributes: Seq::empty(),
        text: content,
    }
}

/// The declaration of an XML 1.0 document in UTF-8.
pub open spec fn declaration() -> XmlPieceView {
    XmlPieceView {
        kind: PieceKind::Decl,
        name: "1.0"@,
        attributes: Seq::empty(),
        text: "UTF-8"@,
    }
}

/// The element named `name` that holds only the text `content`.
pub open spec fn text_element(
    name: Seq<char>,
    attributes: Seq<(Seq<char>, Seq<char>)>,
    content: Seq<char>,
) -> Seq<XmlPieceView> {
    seq![start_of(name, attributes), text_of(content), end_of(name)]
}

/// An opening tag without attributes.
pub fn start(name: &str) -> (r: XmlPiece)
    ensures
        r.deep_view() == start_of(name@, Seq::empty()),
{
    let r = XmlPiece {
        kind: PieceKind::Start,
        name: owned(name),
        attributes: Vec::new(),
        text: String::new(),
    };
    assert(r.attributes.deep_view() =~= Seq::empty());
    r
}

/// An opening tag with attributes.
pub fn start_with(name: &str, attributes: Vec<(String, String)>) -> (r: XmlPiece)
    ensures
        r.deep_view() == start_of(name@, attributes.deep_view()),
{
    XmlPiece { kind: PieceKind::Start, name: owned(name), attributes, text: String::new() }
}

/// A tag that opens and closes at once.
pub fn empty_with(name: &str, attributes: Vec<(String, String)>) -> (r: XmlPiece)
    ensures
        r.deep_view() == empty_of(name@, attributes.deep_view()),
{
    XmlPiece { kind: PieceKind::Empty, name: owned(name), attributes, text: String::new() }
}

/// A closing tag.
pub fn end(name: &str) -> (r: XmlPiece)
    ensures
        r.deep_view() == end_of(name@),
{
    let r = XmlPiece {
        kind: PieceKind::End,
        name: owned(name),
        attributes: Vec::new(),
        text: String::new(),
    };
    assert(r.attributes.deep_view() =~= Seq::empty());
    r
}

/// Text.
pub fn text(content: &str) -> (r: XmlPiece)
    ensures
        r.deep_view() == text_of(content@),
{
    let r = XmlPiece {
        kind: PieceKind::Text,
        name: String::new(),
        attributes: Vec::new(),
        text: owned(content),
    };
    assert(r.attributes.deep_view() =~= Seq::empty());
    r
}

/// The declaration of an XML 1.0 document in UTF-8.
pub fn decl() -> (r: XmlPiece)
    ensures
        r.deep_view() == declaration(),
{
    let r = XmlPiece {
        kind: PieceKind::Decl,
        name: owned("1.0"),
        attributes: Vec::new(),
        text: owned("UTF-8"),
    };
    assert(r.attributes.deep_view() =~= Seq::empty());
    r
}

/// Adds to `out` the element named `name` that holds only the text
/// `content`.
pub fn push_text_element(
    out: &mut Vec<XmlPiece>,
    name: &str,
    attributes: Vec<(String, String)>,
    content: &str,
)
    ensures
        final(out).deep_view() == old(out).deep_view() + text_element(
            name@,
            attributes.deep_view(),
            content@,
        ),
{
    let ghost before = out.deep_view();
    out.push(start_with(name, attributes));
    out.push(text(content));
    out.push(end(name));
    assert(out.deep_view() =~= before + text_element(name@, attributes.deep_view(), content@));
}

/// Adds one piece to `out`.
pub fn push_piece(out: &mut Vec<XmlPiece>, piece: XmlPiece)
    ensures
        final(out).deep_view() == old(out).deep_view().push(piece.deep_view()),
{
    let ghost before = out.deep_view();
    out.push(piece);
    assert(out.deep_view() =~= before.push(piece.deep_view()));
}

/// Owned copies of borrowed attributes.
pub fn owned_attributes(attributes: &Vec<(&str, &str)>) -> (r: Vec<(String, String)>)
    ensures
        r.deep_view() == attributes.deep_view(),
{
    let mut r: Vec<(String, String)> = Vec::new();
    let mut i: usize = 0;
    while i < attributes.len()
        invariant
            i <= attributes.len(),
            r.len() == i,
            forall|j: int| 0 <= j < i ==> r.deep_view()[j] == attributes.deep_view()[j],
        decreases attributes.len() - i,
    {
        let pair = (owned(attributes[i].0), owned(attributes[i].1));
        let ghost before = r.deep_view();
        r.push(pair);
        assert(r.deep_view() =~= before.push((attributes[i as int].0@, attributes[i as int].1@)));
        i += 1;
    }
    assert(r.deep_view() =~= attributes.deep_view());
    r
}

/// One attribute.
pub fn attribute(name: &str, value: &str) -> (r: (String, String))
    ensures
        r.deep_view() == (name@, value@),
{
    (owned(name), owned(value))
}

/// Writes `pieces` behind what `out` holds already.
pub fn render_into(out: &mut Vec<u8>, pieces: &Vec<XmlPiece>) -> (r: Result<(), EpubError>)
    ensures
        r is Ok,
        final(out)@ == old(out)@ + rendered(pieces.deep_view()),
{
    match render(pieces) {
        Ok(mut bytes) => {
            out.append(&mut bytes);
            Ok(())
        },
        Err(e) => Err(e),
    }
}

} // verus!
