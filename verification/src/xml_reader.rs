//! Building the element tree of a document from the tokens of an XML
//! tokenizer.
//!
//! The tokenizer is `quick_xml`; the tree is built here, token by token,
//! by a state machine whose every step is specified.

use crate::decode::decode_bytes;
use crate::error::{EpubError, Fault};
use crate::folds::gives;
use crate::text::{contains_text, occurs_in, pieces, split, str_eq, trim, trimmed, Delim};
use crate::xml::{
    attr_value, find_attr, lemma_count_below, lemma_xml_views, xml_views, XmlElement,
    XmlElementView,
};
use vstd::prelude::*;
use vstd::string::*;

verus! {

/// The tokenizer of `quick_xml`, with namespace bookkeeping; opaque to the
/// verifier.
#[verifier::external_type_specification]
#[verifier::external_body]
#[verifier::reject_recursive_types(R)]
pub struct ExNsReader<R>(quick_xml::NsReader<R>);

/// One event of the tokenizer; opaque to the verifier.
#[verifier::external_type_specification]
#[verifier::external_body]
pub struct ExEvent<'a>(quick_xml::events::Event<'a>);

/// The kinds of tokens that the tree is built from.
#[derive(Clone, Copy, Debug, PartialEq, Eq, Structural)]
pub enum TokenKind {
    /// An opening tag.
    Start,
    /// A closing tag.
    End,
    /// A tag that opens and closes at once.
    Empty,
    /// Text.
    Text,
    /// Character data.
    CData,
    /// The end of the document.
    Eof,
    /// Anything else: comments, declarations, processing instructions,
    /// document types, references.
    Other,
}

/// What an event of the tokenizer holds: no token where it marks the end
/// of the document, else the one token that it stands for.
pub uninterp spec fn event_tokens(event: quick_xml::events::Event<'_>) -> Seq<XmlTokenView>;

/// The bytes that `quick_xml::Writer::write_event` writes for an event.
pub uninterp spec fn event_bytes(event: quick_xml::events::Event<'_>) -> Seq<u8>;

/// What a tokenizer with namespace bookkeeping still holds: the steps that
/// reading it to its end will take, in order.
pub uninterp spec fn pending_steps(reader: quick_xml::NsReader<&[u8]>) -> Seq<ReadStep>;

/// The steps that the tokenizer with namespace bookkeeping and trimmed text
/// takes through the document `content`.
pub uninterp spec fn document_steps(content: Seq<char>) -> Seq<ReadStep>;

/// What a plain tokenizer still holds: the steps that reading it to its end
/// will take, in order, each event as it is written.
pub uninterp spec fn pending_passes(reader: quick_xml::Reader<&[u8]>) -> Seq<PassStep>;

/// The steps that the plain tokenizer takes through the text `content`.
pub uninterp spec fn passing_steps(content: Seq<char>) -> Seq<PassStep>;

/// One step of reading a document: a token, or the failure of the
/// tokenizer, behind which nothing is read.
pub ghost enum ReadStep {
    Token(XmlTokenView),
    Failure,
}

/// One step of passing a text through: an event, as the bytes that are
/// written for it, or the failure of the tokenizer.
pub ghost enum PassStep {
    Event(Seq<u8>),
    Failure,
}

/// The kind of a token.
pub open spec fn kind_of(token: XmlTokenView) -> TokenKind {
    match token {
        XmlTokenView::Start(_) => TokenKind::Start,
        XmlTokenView::End => TokenKind::End,
        XmlTokenView::Empty(_) => TokenKind::Empty,
        XmlTokenView::Text(_) => TokenKind::Text,
        XmlTokenView::CData(_) => TokenKind::CData,
        XmlTokenView::Other => TokenKind::Other,
    }
}

/// Calls `quick_xml::NsReader::from_str` and switches on the trimming of
/// text. The reader holds the steps through `content`.
#[verifier::external_body]
fn open_reader<'a>(content: &'a str) -> (reader: quick_xml::NsReader<&'a [u8]>)
    ensures
        pending_steps(reader) == document_steps(content@),
{
    let mut reader = quick_xml::NsReader::from_str(content);
    reader.config_mut().trim_text(true);
    reader
}

/// Calls `quick_xml::NsReader::read_event`: the next step of the reader.
/// An error is the step `Failure`; the event that marks the end comes when
/// no step is left; any other event is the next token, which leaves the
/// reader.
#[verifier::external_body]
fn next_event<'a>(reader: &mut quick_xml::NsReader<&'a [u8]>) -> (event: Result<
    quick_xml::events::Event<'a>,
    quick_xml::Error,
>)
    ensures
        match event {
            Err(_) => pending_steps(*old(reader)).len() > 0 && pending_steps(*old(reader))[0] is Failure,
            Ok(found) => if event_tokens(found).len() == 0 {
                pending_steps(*old(reader)).len() == 0 && pending_steps(*final(reader)).len() == 0
            } else {
                &&& pending_steps(*old(reader)).len() > 0
                &&& pending_steps(*old(reader))[0] == ReadStep::Token(event_tokens(found)[0])
                &&& pending_steps(*final(reader)) == pending_steps(*old(reader)).drop_first()
            },
        },
{
    reader.read_event()
}

/// The plain tokenizer of `quick_xml`; opaque to the verifier.
#[verifier::external_type_specification]
#[verifier::external_body]
#[verifier::reject_recursive_types(R)]
pub struct ExReader<R>(quick_xml::Reader<R>);

/// Calls `quick_xml::Reader::from_str`. The reader holds the steps through
/// `content`.
#[verifier::external_body]
pub(crate) fn open_plain_reader<'a>(content: &'a str) -> (reader: quick_xml::Reader<&'a [u8]>)
    ensures
        pending_passes(reader) == passing_steps(content@),
{
    quick_xml::Reader::from_str(content)
}

/// Calls `quick_xml::Reader::read_event`: the next step of the reader. An
/// error is the step `Failure`; the event that marks the end comes when no
/// step is left; any other event is the next event, which leaves the reader.
#[verifier::external_body]
pub(crate) fn next_plain_event<'a>(reader: &mut quick_xml::Reader<&'a [u8]>) -> (event: Result<
    quick_xml::events::Event<'a>,
    quick_xml::Error,
>)
    ensures
        match event {
            Err(_) => pending_passes(*old(reader)).len() > 0 && pending_passes(
                *old(reader),
            )[0] is Failure,
            Ok(found) => if event_tokens(found).len() == 0 {
                pending_passes(*old(reader)).len() == 0 && pending_passes(*final(reader)).len()
                    == 0
            } else {
                &&& pending_passes(*old(reader)).len() > 0
                &&& pending_passes(*old(reader))[0] == PassStep::Event(event_bytes(found))
                &&& pending_passes(*final(reader)) == pending_passes(*old(reader)).drop_first()
            },
        },
{
    reader.read_event()
}

/// Tells the variants of `quick_xml::events::Event` apart: the end of the
/// document where the event holds no token, else the kind of its token.
#[verifier::external_body]
pub(crate) fn event_kind(event: &quick_xml::events::Event<'_>) -> (kind: TokenKind)
    ensures
        kind is Eof ==> event_tokens(*event).len() == 0,
        !(kind is Eof) ==> event_tokens(*event).len() == 1 && kind == kind_of(
            event_tokens(*event)[0],
        ),
{
    match event {
        quick_xml::events::Event::Start(_) => TokenKind::Start,
        quick_xml::events::Event::End(_) => TokenKind::End,
        quick_xml::events::Event::Empty(_) => TokenKind::Empty,
        quick_xml::events::Event::Text(_) => TokenKind::Text,
        quick_xml::events::Event::CData(_) => TokenKind::CData,
        quick_xml::events::Event::Eof => TokenKind::Eof,
        _ => TokenKind::Other,
    }
}

/// The local name, the prefix and the attributes of a tag, taken from
/// `BytesStart::local_name`, `QName::prefix` and `BytesStart::attributes`;
/// attributes that the tokenizer refuses are left out. An event that is no
/// tag gives an empty tag. The tag is the one of the token that the event
/// holds.
#[verifier::external_body]
fn event_tag(event: &quick_xml::events::Event<'_>) -> (tag: XmlTag)
    ensures
        event_tokens(*event).len() == 1 ==> (match event_tokens(*event)[0] {
            XmlTokenView::Start(held) => tag@ == held,
            XmlTokenView::Empty(held) => tag@ == held,
            _ => true,
        }),
{
    match event {
        quick_xml::events::Event::Start(e) | quick_xml::events::Event::Empty(e) => XmlTag {
            name: e.local_name().into_inner().to_string(),
            prefix: e.name().prefix().map(|p| p.into_inner().to_string()),
            attributes: e.attributes().flatten().map(
                |a| (a.key.into_inner().to_string(), a.value.to_string()),
            ).collect(),
        },
        _ => XmlTag { name: String::new(), prefix: None, attributes: Vec::new() },
    }
}

/// The raw content of a text or character data event; empty for any other.
/// The text is the one of the token that the event holds.
#[verifier::external_body]
fn event_text(event: &quick_xml::events::Event<'_>) -> (text: String)
    ensures
        event_tokens(*event).len() == 1 ==> (match event_tokens(*event)[0] {
            XmlTokenView::Text(held) => text@ == held,
            XmlTokenView::CData(held) => text@ == held,
            _ => true,
        }),
{
    match event {
        quick_xml::events::Event::Text(t) => String::from(&**t),
        quick_xml::events::Event::CData(c) => String::from(&**c),
        _ => String::new(),
    }
}

/// A tag, as a value.
pub ghost struct XmlTagView {
    pub name: Seq<char>,
    pub prefix: Option<Seq<char>>,
    pub attributes: Seq<(Seq<char>, Seq<char>)>,
}

/// An opening tag as it stands in the document: its attributes include the
/// namespace declarations.
#[derive(Debug)]
pub struct XmlTag {
    /// The name without its prefix.
    pub name: String,
    /// The prefix of the name.
    pub prefix: Option<String>,
    /// The attributes, in the order of the document.
    pub attributes: Vec<(String, String)>,
}

impl View for XmlTag {
    type V = XmlTagView;

    open spec fn view(&self) -> XmlTagView {
        XmlTagView {
            name: self.name@,
            prefix: self.prefix.deep_view(),
            attributes: self.attributes.deep_view(),
        }
    }
}

/// A token, as a value.
pub ghost enum XmlTokenView {
    Start(XmlTagView),
    End,
    Empty(XmlTagView),
    Text(Seq<char>),
    CData(Seq<char>),
    Other,
}

/// One token of a document.
#[derive(Debug)]
pub enum XmlToken {
    /// An opening tag.
    Start(XmlTag),
    /// A closing tag.
    End,
    /// A tag that opens and closes at once.
    Empty(XmlTag),
    /// Text.
    Text(String),
    /// Character data.
    CData(String),
    /// Anything else.
    Other,
}

impl View for XmlToken {
    type V = XmlTokenView;

    open spec fn view(&self) -> XmlTokenView {
        match self {
            XmlToken::Start(tag) => XmlTokenView::Start(tag@),
            XmlToken::End => XmlTokenView::End,
            XmlToken::Empty(tag) => XmlTokenView::Empty(tag@),
            XmlToken::Text(text) => XmlTokenView::Text(text@),
            XmlToken::CData(text) => XmlTokenView::CData(text@),
            XmlToken::Other => XmlTokenView::Other,
        }
    }
}

/// `entries` with `value` under `key`: in the place of the first entry with
/// that key, or at the end if there is none.
pub open spec fn put(entries: Seq<(Seq<char>, Seq<char>)>, key: Seq<char>, value: Seq<char>) -> Seq<
    (Seq<char>, Seq<char>),
>
    decreases entries.len(),
{
    if entries.len() == 0 {
        seq![(key, value)]
    } else if entries[0].0 == key {
        seq![(key, value)] + entries.drop_first()
    } else {
        seq![entries[0]] + put(entries.drop_first(), key, value)
    }
}

/// Where no entry before `at` has the key, putting changes the entry at
/// `at` if that one has it, and adds an entry at the end if `at` is the end.
pub proof fn lemma_put(entries: Seq<(Seq<char>, Seq<char>)>, key: Seq<char>, value: Seq<char>, at: int)
    requires
        0 <= at <= entries.len(),
        forall|j: int| 0 <= j < at ==> entries[j].0 != key,
        at < entries.len() ==> entries[at].0 == key,
    ensures
        at < entries.len() ==> put(entries, key, value) == entries.update(at, (key, value)),
        at == entries.len() ==> put(entries, key, value) == entries.push((key, value)),
    decreases entries.len(),
{
    if entries.len() == 0 {
        assert(seq![(key, value)] =~= entries.push((key, value)));
    } else if at == 0 {
        assert(seq![(key, value)] + entries.drop_first() =~= entries.update(0, (key, value)));
    } else {
        lemma_put(entries.drop_first(), key, value, at - 1);
        if at < entries.len() {
            assert(seq![entries[0]] + entries.drop_first().update(at - 1, (key, value))
                =~= entries.update(at, (key, value)));
        } else {
            assert(seq![entries[0]] + entries.drop_first().push((key, value)) =~= entries.push(
                (key, value),
            ));
        }
    }
}

/// Sets `value` under `key`, in place of the first entry with that key or
/// at the end.
pub fn put_entry(entries: &mut Vec<(String, String)>, key: String, value: String)
    ensures
        final(entries).deep_view() == put(old(entries).deep_view(), key@, value@),
{
    let mut i: usize = 0;
    while i < entries.len()
        invariant
            i <= entries.len(),
            *entries == *old(entries),
            forall|j: int| 0 <= j < i ==> entries.deep_view()[j].0 != key@,
        decreases entries.len() - i,
    {
        if str_eq(entries[i].0.as_str(), key.as_str()) {
            proof {
                lemma_put(entries.deep_view(), key@, value@, i as int);
            }
            let ghost before = entries.deep_view();
            entries.remove(i);
            entries.insert(i, (key, value));
            assert(entries.deep_view() =~= before.update(i as int, (key@, value@)));
            return ;
        }
        i += 1;
    }
    proof {
        lemma_put(entries.deep_view(), key@, value@, i as int);
    }
    let ghost before = entries.deep_view();
    entries.push((key, value));
    assert(entries.deep_view() =~= before.push((key@, value@)));
}

/// Whether an attribute named `key` declares a namespace: its name holds
/// `xmlns`.
pub open spec fn declares_namespace(key: Seq<char>) -> bool {
    occurs_in("xmlns"@, key)
}

/// The prefix that the declaration named `key` binds: what stands between
/// the first and the second colon, or the whole name if it has no colon.
pub open spec fn declared_prefix(key: Seq<char>) -> Seq<char> {
    let parts = pieces(key, Delim::Char(':'));
    if parts.len() >= 2 {
        parts[1]
    } else {
        key
    }
}

/// The attributes of a tag, parted: those that declare a namespace go to
/// the namespaces, bound to their prefix; the others stay attributes.
pub open spec fn parted(
    raw: Seq<(Seq<char>, Seq<char>)>,
    namespaces: Seq<(Seq<char>, Seq<char>)>,
) -> (Seq<(Seq<char>, Seq<char>)>, Seq<(Seq<char>, Seq<char>)>)
    decreases raw.len(),
{
    if raw.len() == 0 {
        (Seq::empty(), namespaces)
    } else {
        let (attributes, bound) = parted(raw.drop_last(), namespaces);
        let (key, value) = raw.last();
        if declares_namespace(key) {
            (attributes, put(bound, declared_prefix(key), value))
        } else {
            (put(attributes, key, value), bound)
        }
    }
}

/// The element that `tag` opens, still without namespace, text or children.
pub open spec fn opened(tag: XmlTagView, namespaces: Seq<(Seq<char>, Seq<char>)>) -> XmlElementView {
    XmlElementView {
        name: tag.name,
        prefix: tag.prefix,
        namespace: None,
        attributes: parted(tag.attributes, namespaces).0,
        text: None,
        cdata: None,
        children: Seq::empty(),
    }
}

/// The open elements with `child` added below the innermost one.
pub open spec fn attached(open: Seq<XmlElementView>, child: XmlElementView) -> Seq<XmlElementView>
    recommends
        open.len() > 0,
{
    open.drop_last().push(
        XmlElementView { children: open.last().children.push(child), ..open.last() },
    )
}

/// What is known of a document after some of its tokens.
pub ghost struct TreeState {
    /// The elements that are open, the outermost first.
    pub open: Seq<XmlElementView>,
    /// The outermost element that was closed last.
    pub root: Option<XmlElementView>,
    /// The namespaces declared so far, by prefix.
    pub namespaces: Seq<(Seq<char>, Seq<char>)>,
}

/// The state after one more token.
pub open spec fn step(state: TreeState, token: XmlTokenView) -> TreeState {
    match token {
        XmlTokenView::Start(tag) => TreeState {
            open: state.open.push(opened(tag, state.namespaces)),
            namespaces: parted(tag.attributes, state.namespaces).1,
            ..state
        },
        XmlTokenView::End => if state.open.len() == 0 {
            state
        } else if state.open.len() == 1 {
            TreeState { open: Seq::empty(), root: Some(state.open[0]), ..state }
        } else {
            TreeState { open: attached(state.open.drop_last(), state.open.last()), ..state }
        },
        XmlTokenView::Empty(tag) => TreeState {
            open: if state.open.len() == 0 {
                state.open
            } else {
                attached(state.open, opened(tag, state.namespaces))
            },
            namespaces: parted(tag.attributes, state.namespaces).1,
            ..state
        },
        XmlTokenView::Text(text) => if state.open.len() > 0 && trimmed(text).len() > 0 {
            TreeState {
                open: state.open.drop_last().push(
                    XmlElementView { text: Some(text), ..state.open.last() },
                ),
                ..state
            }
        } else {
            state
        },
        XmlTokenView::CData(text) => if state.open.len() > 0 {
            TreeState {
                open: state.open.drop_last().push(
                    XmlElementView { cdata: Some(text), ..state.open.last() },
                ),
                ..state
            }
        } else {
            state
        },
        XmlTokenView::Other => state,
    }
}

/// The state before any token.
pub open spec fn start_state() -> TreeState {
    TreeState { open: Seq::empty(), root: None, namespaces: Seq::empty() }
}

/// The state after all of `tokens`.
pub open spec fn run(tokens: Seq<XmlTokenView>) -> TreeState
    decreases tokens.len(),
{
    if tokens.len() == 0 {
        start_state()
    } else {
        step(run(tokens.drop_last()), tokens.last())
    }
}

/// `elements`, each with its namespace filled in.
pub open spec fn all_resolved(
    elements: Seq<XmlElementView>,
    namespaces: Seq<(Seq<char>, Seq<char>)>,
) -> Seq<XmlElementView>
    decreases elements,
{
    Seq::new(
        elements.len(),
        |i: int|
            if 0 <= i < elements.len() {
                resolve(elements[i], namespaces)
            } else {
                arbitrary()
            },
    )
}

/// `element` and everything below it, each with the namespace that its
/// prefix is bound to; an element without prefix gets the one bound to
/// `xmlns`.
pub open spec fn resolve(element: XmlElementView, namespaces: Seq<(Seq<char>, Seq<char>)>) -> XmlElementView
    decreases element,
{
    let bound = match element.prefix {
        Some(prefix) => attr_value(namespaces, prefix),
        None => attr_value(namespaces, "xmlns"@),
    };
    XmlElementView {
        namespace: match bound {
            Some(namespace) => Some(namespace),
            None => element.namespace,
        },
        children: all_resolved(element.children, namespaces),
        ..element
    }
}

/// The tree that a state stands for: its root, namespaces filled in.
pub open spec fn tree_of(state: TreeState) -> Option<XmlElementView> {
    match state.root {
        Some(root) => Some(resolve(root, state.namespaces)),
        None => None,
    }
}

/// Builds the element tree of a document from its tokens.
#[derive(Debug)]
pub struct TreeBuilder {
    /// The elements that are open, the outermost first.
    pub open: Vec<XmlElement>,
    /// The outermost element that was closed last.
    pub root: Option<XmlElement>,
    /// The namespaces declared so far, by prefix.
    pub namespaces: Vec<(String, String)>,
}

impl View for TreeBuilder {
    type V = TreeState;

    open spec fn view(&self) -> TreeState {
        TreeState {
            open: self.open.deep_view(),
            root: self.root.deep_view(),
            namespaces: self.namespaces.deep_view(),
        }
    }
}

/// Parts the attributes of a tag into attributes and namespace bindings.
fn part_attributes(raw: &Vec<(String, String)>, namespaces: &mut Vec<(String, String)>) -> (attributes:
    Vec<(String, String)>)
    ensures
        attributes.deep_view() == parted(raw.deep_view(), old(namespaces).deep_view()).0,
        final(namespaces).deep_view() == parted(raw.deep_view(), old(namespaces).deep_view()).1,
{
    let mut attributes: Vec<(String, String)> = Vec::new();
    let mut i: usize = 0;
    proof {
        assert(raw.deep_view().take(0) =~= Seq::empty());
        assert(attributes.deep_view() =~= Seq::empty());
    }
    while i < raw.len()
        invariant
            i <= raw.len(),
            attributes.deep_view() == parted(
                raw.deep_view().take(i as int),
                old(namespaces).deep_view(),
            ).0,
            namespaces.deep_view() == parted(
                raw.deep_view().take(i as int),
                old(namespaces).deep_view(),
            ).1,
        decreases raw.len() - i,
    {
        proof {
            assert(raw.deep_view().take(i + 1).drop_last() =~= raw.deep_view().take(i as int));
            assert(raw.deep_view().take(i + 1).last() == raw.deep_view()[i as int]);
        }
        let key = raw[i].0.clone();
        let value = raw[i].1.clone();
        if contains_text(key.as_str(), "xmlns") {
            let parts = split(key.as_str(), &Delim::Char(':'));
            if parts.len() >= 2 {
                put_entry(namespaces, parts[1].clone(), value);
            } else {
                put_entry(namespaces, key, value);
            }
        } else {
            put_entry(&mut attributes, key, value);
        }
        i += 1;
    }
    proof {
        assert(raw.deep_view().take(i as int) =~= raw.deep_view());
    }
    attributes
}

/// The items of `items` in the opposite order.
fn reversed(items: Vec<XmlElement>) -> (r: Vec<XmlElement>)
    ensures
        r.deep_view() == items.deep_view().reverse(),
{
    let mut rest = items;
    let mut r: Vec<XmlElement> = Vec::new();
    let ghost all = rest.deep_view();
    proof {
        lemma_xml_views(rest);
    }
    while rest.len() > 0
        invariant
            rest.len() + r.len() == all.len(),
            rest.deep_view() == all.take(rest.len() as int),
            r.deep_view() == all.skip(rest.len() as int).reverse(),
        decreases rest.len(),
    {
        let ghost before = r.deep_view();
        let ghost n = rest.len();
        proof {
            lemma_xml_views(rest);
        }
        let item = rest.pop().unwrap();
        r.push(item);
        proof {
            lemma_xml_views(rest);
            lemma_xml_views(r);
            assert(rest.deep_view() =~= all.take(rest.len() as int));
            assert(r.deep_view() =~= before.push(item@));
            assert(item@ == all[n - 1]);
            assert(before.push(all[n - 1]) =~= all.skip(n - 1).reverse());
        }
    }
    proof {
        assert(all.skip(0) =~= all);
    }
    r
}

/// Gives `element` and everything below it the namespace that its prefix
/// is bound to in `namespace_map`.
pub fn resolve_namespaces(element: XmlElement, namespace_map: &Vec<(String, String)>) -> (r:
    XmlElement)
    ensures
        r@ == resolve(element@, namespace_map.deep_view()),
    decreases element@.node_count(),
{
    let ghost whole = element@;
    let XmlElement { name, prefix, namespace, attributes, text, cdata, children } = element;
    let bound = match &prefix {
        Some(p) => find_attr(namespace_map, p.as_str()),
        None => find_attr(namespace_map, "xmlns"),
    };
    let namespace = match bound {
        Some(n) => Some(n),
        None => namespace,
    };
    let ghost below = children.deep_view();
    proof {
        lemma_xml_views(children);
    }
    let ghost count = children.len();
    let mut rest = reversed(children);
    let mut done: Vec<XmlElement> = Vec::new();
    proof {
        lemma_xml_views(rest);
        lemma_xml_views(done);
    }
    while rest.len() > 0
        invariant
            below == xml_views(children@),
            below == whole.children,
            whole == element@,
            below.len() == count == children.len(),
            forall|j: int| 0 <= j < count ==> below[j] == #[trigger] children[j]@,
            rest.len() + done.len() == count,
            rest.deep_view() == below.reverse().take(rest.len() as int),
            done.deep_view() == all_resolved(below, namespace_map.deep_view()).take(
                done.len() as int,
            ),
        decreases rest.len(),
    {
        let ghost before = done.deep_view();
        let ghost n = rest.len();
        proof {
            lemma_xml_views(rest);
        }
        let child = rest.pop().unwrap();
        proof {
            assert(child@ == below.reverse()[n - 1]);
            assert(child@ == below[count - n]);
            assert(child@ == children[count - n]@);
            lemma_count_below(below, count - n);
            assert(child@.node_count() < whole.node_count());
        }
        let resolved = resolve_namespaces(child, namespace_map);
        done.push(resolved);
        proof {
            lemma_xml_views(rest);
            lemma_xml_views(done);
            assert(rest.deep_view() =~= below.reverse().take(rest.len() as int));
            assert(done.deep_view() =~= before.push(resolved@));
            assert(before.push(resolved@) =~= all_resolved(below, namespace_map.deep_view()).take(
                done.len() as int,
            ));
        }
    }
    proof {
        lemma_xml_views(done);
        assert(done.deep_view() =~= all_resolved(below, namespace_map.deep_view()));
    }
    XmlElement { name, prefix, namespace, attributes, text, cdata, children: done }
}

/// Adds `child` below the innermost open element.
fn attach(open: &mut Vec<XmlElement>, child: XmlElement)
    requires
        old(open).len() > 0,
    ensures
        final(open).deep_view() == attached(old(open).deep_view(), child@),
{
    proof {
        lemma_xml_views(*open);
    }
    let ghost before = open.deep_view();
    let mut parent = open.pop().unwrap();
    proof {
        lemma_xml_views(*open);
        lemma_xml_views(parent.children);
    }
    let ghost rest = open.deep_view();
    let ghost parent_before = parent@;
    parent.children.push(child);
    proof {
        lemma_xml_views(parent.children);
        assert(parent@.children =~= parent_before.children.push(child@));
    }
    open.push(parent);
    proof {
        lemma_xml_views(*open);
        assert(rest =~= before.drop_last());
        assert(open.deep_view() =~= rest.push(parent@));
    }
}

impl TreeBuilder {
    /// A builder that has seen no token.
    pub fn new() -> (r: Self)
        ensures
            r@ == start_state(),
    {
        let r = TreeBuilder { open: Vec::new(), root: None, namespaces: Vec::new() };
        proof {
            assert(r.open.deep_view() =~= Seq::empty());
            assert(r.namespaces.deep_view() =~= Seq::empty());
        }
        r
    }

    /// The element that `tag` opens.
    fn open_element(&mut self, tag: XmlTag) -> (element: XmlElement)
        ensures
            element@ == opened(tag@, old(self).namespaces.deep_view()),
            final(self).namespaces.deep_view() == parted(
                tag@.attributes,
                old(self).namespaces.deep_view(),
            ).1,
            final(self).open == old(self).open,
            final(self).root == old(self).root,
    {
        let attributes = part_attributes(&tag.attributes, &mut self.namespaces);
        let element = XmlElement {
            name: tag.name,
            prefix: tag.prefix,
            namespace: None,
            attributes,
            text: None,
            cdata: None,
            children: Vec::new(),
        };
        proof {
            assert(xml_views(element.children@) =~= Seq::empty());
        }
        element
    }

    /// Takes one more token of the document.
    pub fn feed(&mut self, token: XmlToken)
        ensures
            final(self)@ == step(old(self)@, token@),
    {
        proof {
            lemma_xml_views(self.open);
        }
        let ghost seen = token@;
        let ghost start = self@;
        match token {
            XmlToken::Start(tag) => {
                let element = self.open_element(tag);
                let ghost before = self.open.deep_view();
                self.open.push(element);
                proof {
                    lemma_xml_views(self.open);
                    assert(self.open.deep_view() =~= before.push(element@));
                }
                assert(self@ == step(start, seen));
            },
            XmlToken::End => {
                if self.open.len() > 0 {
                    let ghost before = self.open.deep_view();
                    let element = self.open.pop().unwrap();
                    proof {
                        lemma_xml_views(self.open);
                        assert(self.open.deep_view() =~= before.drop_last());
                    }
                    if self.open.len() == 0 {
                        self.root = Some(element);
                        assert(self.open.deep_view() =~= Seq::empty());
                        assert(element@ == start.open[0]);
                    } else {
                        attach(&mut self.open, element);
                    }
                }
                assert(self@ == step(start, seen));
            },
            XmlToken::Empty(tag) => {
                let element = self.open_element(tag);
                if self.open.len() > 0 {
                    attach(&mut self.open, element);
                }
                assert(self@ == step(start, seen));
            },
            XmlToken::Text(text) => {
                if self.open.len() > 0 {
                    let kept = trim(text.as_str());
                    if kept.as_str().unicode_len() > 0 {
                        let ghost before = self.open.deep_view();
                        let mut top = self.open.pop().unwrap();
                        proof {
                            lemma_xml_views(self.open);
                        }
                        let ghost rest = self.open.deep_view();
                        top.text = Some(text);
                        self.open.push(top);
                        proof {
                            lemma_xml_views(self.open);
                            assert(rest =~= before.drop_last());
                            assert(self.open.deep_view() =~= rest.push(top@));
                        }
                    }
                }
            },
            XmlToken::CData(text) => {
                if self.open.len() > 0 {
                    let ghost before = self.open.deep_view();
                    let mut top = self.open.pop().unwrap();
                    proof {
                        lemma_xml_views(self.open);
                    }
                    let ghost rest = self.open.deep_view();
                    top.cdata = Some(text);
                    self.open.push(top);
                    proof {
                        lemma_xml_views(self.open);
                        assert(rest =~= before.drop_last());
                        assert(self.open.deep_view() =~= rest.push(top@));
                    }
                }
            },
            XmlToken::Other => {},
        }
    }

    /// The tree of the document: the outermost element that was closed
    /// last, with namespaces filled in. A document in which no outermost
    /// element was closed has none.
    pub fn finish(self) -> (r: Result<XmlElement, EpubError>)
        ensures
            match tree_of(self@) {
                Some(tree) => r matches Ok(root) && root@ == tree,
                None => r matches Err(EpubError::EmptyDataError),
            },
    {
        match self.root {
            Some(root) => Ok(resolve_namespaces(root, &self.namespaces)),
            None => Err(EpubError::EmptyDataError),
        }
    }
}

/// What reading ends in when the steps `steps` are still to be taken, at
/// most `fuel` tokens are still taken in, and the tree stands at `state`:
/// a failure of the tokenizer is a failure of the whole; a token beyond
/// the fuel is refused; at the end of the steps the tree is finished.
pub open spec fn read_outcome(steps: Seq<ReadStep>, fuel: nat, state: TreeState) -> Result<
    XmlElementView,
    Fault,
>
    decreases steps.len(),
{
    if steps.len() == 0 {
        match tree_of(state) {
            Some(tree) => Ok(tree),
            None => Err(Fault::EmptyDataError),
        }
    } else {
        match steps[0] {
            ReadStep::Failure => Err(Fault::QuickXmlError),
            ReadStep::Token(token) => if fuel == 0 {
                Err(Fault::FailedParsingXml)
            } else {
                read_outcome(steps.drop_first(), (fuel - 1) as nat, step(state, token))
            },
        }
    }
}

/// The number of bytes of `content`, as `str::len` gives it.
pub open spec fn byte_length(content: Seq<char>) -> usize {
    vstd::utf8::encode_utf8(content).len() as usize
}

/// The element tree of the document `content`: empty content has none;
/// any other content has the tree that its tokens build, at most as many
/// tokens as it has bytes.
pub open spec fn parsed(content: Seq<char>) -> Result<XmlElementView, Fault> {
    if content.len() == 0 {
        Err(Fault::EmptyDataError)
    } else {
        read_outcome(document_steps(content), byte_length(content) as nat, start_state())
    }
}

/// The element tree of the document that `bytes` encode.
pub open spec fn parsed_bytes(bytes: Seq<u8>) -> Result<XmlElementView, Fault> {
    match crate::decode::decoded(bytes) {
        crate::decode::Decoded::Text(content) => parsed(content),
        crate::decode::Decoded::TooShort => Err(Fault::EmptyDataError),
        crate::decode::Decoded::BadUtf8 => Err(Fault::Utf8DecodeError),
        crate::decode::Decoded::BadUtf16 => Err(Fault::Utf16DecodeError),
    }
}

/// Reads XML documents into element trees.
pub struct XmlReader {}

impl XmlReader {
    /// The element tree of the document `content`.
    ///
    /// Empty content has no tree. Otherwise the tree is the one that the
    /// tokens of the tokenizer build; an error of the tokenizer ends the
    /// reading, and so does a tokenizer that hands out more tokens than the
    /// content has bytes.
    pub fn parse(content: &str) -> (r: Result<XmlElement, EpubError>)
        ensures
            gives(r, parsed(content@)),
    {
        if content.is_empty() {
            return Err(EpubError::EmptyDataError);
        }
        let mut reader = open_reader(content);
        let mut builder = TreeBuilder::new();
        let mut left: usize = content.len();
        let mut more = true;
        while more
            invariant
                content@.len() > 0,
                more ==> read_outcome(pending_steps(reader), left as nat, builder@) == parsed(
                    content@,
                ),
                !more ==> pending_steps(reader).len() == 0 && read_outcome(
                    pending_steps(reader),
                    left as nat,
                    builder@,
                ) == parsed(content@),
            decreases left + (if more { 1int } else { 0int }),
        {
            let event = match next_event(&mut reader) {
                Ok(event) => event,
                Err(source) => {
                    return Err(EpubError::QuickXmlError { source });
                },
            };
            let kind = event_kind(&event);
            if kind == TokenKind::Eof {
                more = false;
            } else {
                if left == 0 {
                    return Err(EpubError::FailedParsingXml);
                }
                left -= 1;
                let token = match kind {
                    TokenKind::Start => XmlToken::Start(event_tag(&event)),
                    TokenKind::Empty => XmlToken::Empty(event_tag(&event)),
                    TokenKind::End => XmlToken::End,
                    TokenKind::Text => XmlToken::Text(event_text(&event)),
                    TokenKind::CData => XmlToken::CData(event_text(&event)),
                    _ => XmlToken::Other,
                };
                assert(token@ == event_tokens(event)[0]);
                builder.feed(token);
            }
        }
        builder.finish()
    }

    /// Gives `element` and everything below it the namespace that its
    /// prefix is bound to in `namespace_map`.
    pub fn assign_namespace(element: XmlElement, namespace_map: &Vec<(String, String)>) -> (r:
        XmlElement)
        ensures
            r@ == resolve(element@, namespace_map.deep_view()),
    {
        resolve_namespaces(element, namespace_map)
    }

    /// The element tree of the document in `bytes`.
    pub fn parse_bytes(bytes: Vec<u8>) -> (r: Result<XmlElement, EpubError>)
        ensures
            gives(r, parsed_bytes(bytes@)),
    {
        match decode_bytes(bytes.as_slice()) {
            Ok(content) => Self::parse(content.as_str()),
            Err(e) => Err(e),
        }
    }
}

} // verus!
