//! The element tree of an XML document, and the searches that the
//! package model makes in it.

use crate::text::{concat3, str_eq, trim, trimmed};
use vstd::prelude::*;
use vstd::string::*;

verus! {

/// An element with everything below it, as a value.
pub ghost struct XmlElementView {
    pub name: Seq<char>,
    pub prefix: Option<Seq<char>>,
    pub namespace: Option<Seq<char>>,
    pub attributes: Seq<(Seq<char>, Seq<char>)>,
    pub text: Option<Seq<char>>,
    pub cdata: Option<Seq<char>>,
    pub children: Seq<XmlElementView>,
}

/// An element of an XML document. No attribute name occurs twice in
/// `attributes`.
#[derive(Debug)]
pub struct XmlElement {
    /// The name without its prefix.
    pub name: String,
    /// The prefix of the name.
    pub prefix: Option<String>,
    /// The namespace that the prefix stands for.
    pub namespace: Option<String>,
    /// The attributes, each a name and a value, in the order of the document.
    pub attributes: Vec<(String, String)>,
    /// The text directly inside the element.
    pub text: Option<String>,
    /// The character data directly inside the element.
    pub cdata: Option<String>,
    /// The elements directly inside the element.
    pub children: Vec<XmlElement>,
}

/// The value of each element of `elements`, in order.
pub open spec fn xml_views(elements: Seq<XmlElement>) -> Seq<XmlElementView>
    decreases elements,
{
    Seq::new(
        elements.len(),
        |i: int|
            if 0 <= i < elements.len() {
                xml_view(elements[i])
            } else {
                arbitrary()
            },
    )
}

/// The value of `element`.
pub open spec fn xml_view(element: XmlElement) -> XmlElementView
    decreases element,
{
    XmlElementView {
        name: element.name@,
        prefix: element.prefix.deep_view(),
        namespace: element.namespace.deep_view(),
        attributes: element.attributes.deep_view(),
        text: element.text.deep_view(),
        cdata: element.cdata.deep_view(),
        children: xml_views(element.children@),
    }
}

impl View for XmlElement {
    type V = XmlElementView;

    open spec fn view(&self) -> XmlElementView {
        xml_view(*self)
    }
}

impl DeepView for XmlElement {
    type V = XmlElementView;

    open spec fn deep_view(&self) -> XmlElementView {
        xml_view(*self)
    }
}

/// The deep view of a list of elements is the list of their values.
pub proof fn lemma_xml_views(elements: Vec<XmlElement>)
    ensures
        elements.deep_view() == xml_views(elements@),
        xml_views(elements@).len() == elements.len(),
        forall|i: int| 0 <= i < elements.len() ==> xml_views(elements@)[i] == #[trigger] elements[i]@,
{
    assert(elements.deep_view() =~= xml_views(elements@));
}

/// The value of the first attribute named `name`.
pub open spec fn attr_value(attributes: Seq<(Seq<char>, Seq<char>)>, name: Seq<char>) -> Option<
    Seq<char>,
>
    decreases attributes.len(),
{
    if attributes.len() == 0 {
        None
    } else if attributes[0].0 == name {
        Some(attributes[0].1)
    } else {
        attr_value(attributes.drop_first(), name)
    }
}

/// All text of the elements `children`, each trimmed, in a row.
pub open spec fn texts_of(children: Seq<XmlElementView>) -> Seq<char>
    decreases children,
{
    if children.len() == 0 {
        Seq::empty()
    } else {
        texts_of(children.drop_last()) + children.last().full_text()
    }
}

/// The elements named `name` among `children` and below them, in the order
/// of the document.
pub open spec fn named_below(children: Seq<XmlElementView>, name: Seq<char>) -> Seq<
    XmlElementView,
>
    decreases children,
{
    if children.len() == 0 {
        Seq::empty()
    } else {
        named_below(children.drop_last(), name) + children.last().named(name)
    }
}

/// The number of elements in `children` and below them.
pub open spec fn count_below(children: Seq<XmlElementView>) -> nat
    decreases children,
{
    if children.len() == 0 {
        0
    } else {
        count_below(children.drop_last()) + children.last().node_count()
    }
}

/// Each of `children` holds no more elements than all of them together.
pub proof fn lemma_count_below(children: Seq<XmlElementView>, i: int)
    requires
        0 <= i < children.len(),
    ensures
        children[i].node_count() <= count_below(children),
    decreases children.len(),
{
    if i < children.len() - 1 {
        lemma_count_below(children.drop_last(), i);
    }
}

impl XmlElementView {
    /// The number of elements at and below this one.
    pub open spec fn node_count(self) -> nat
        decreases self,
    {
        1 + count_below(self.children)
    }

    /// The value of the attribute `name`.
    pub open spec fn attr(self, name: Seq<char>) -> Option<Seq<char>> {
        attr_value(self.attributes, name)
    }

    /// The name with its prefix: `prefix:name`, or the bare name.
    pub open spec fn tag_name(self) -> Seq<char> {
        match self.prefix {
            Some(prefix) => prefix + ":"@ + self.name,
            None => self.name,
        }
    }

    /// The text of this element followed by that of its children, without
    /// the white space at both ends.
    pub open spec fn full_text(self) -> Seq<char>
        decreases self,
    {
        trimmed(
            (match self.text {
                Some(text) => text,
                None => Seq::empty(),
            }) + texts_of(self.children),
        )
    }

    /// This element, if it is named `name`, followed by the elements named
    /// `name` below it, in the order of the document.
    pub open spec fn named(self, name: Seq<char>) -> Seq<XmlElementView>
        decreases self,
    {
        (if self.name == name {
            seq![self]
        } else {
            seq![]
        }) + named_below(self.children, name)
    }

    /// The children named `name`.
    pub open spec fn children_named(self, name: Seq<char>) -> Seq<XmlElementView> {
        self.children.filter(|child: XmlElementView| child.name == name)
    }

    /// The children whose name is one of `names`.
    pub open spec fn children_among(self, names: Seq<Seq<char>>) -> Seq<XmlElementView> {
        self.children.filter(|child: XmlElementView| names.contains(child.name))
    }
}

/// Looks up the attribute `name` in `attributes`.
pub fn find_attr(attributes: &Vec<(String, String)>, name: &str) -> (r: Option<String>)
    ensures
        r.deep_view() == attr_value(attributes.deep_view(), name@),
{
    let mut i: usize = 0;
    proof {
        assert(attributes.deep_view().skip(0) =~= attributes.deep_view());
    }
    while i < attributes.len()
        invariant
            i <= attributes.len(),
            attr_value(attributes.deep_view(), name@) == attr_value(
                attributes.deep_view().skip(i as int),
                name@,
            ),
        decreases attributes.len() - i,
    {
        proof {
            assert(attributes.deep_view().skip(i as int).drop_first() =~= attributes.deep_view().skip(
                i + 1,
            ));
            assert(attributes.deep_view().skip(i as int)[0] == attributes.deep_view()[i as int]);
        }
        if str_eq(attributes[i].0.as_str(), name) {
            return Some(attributes[i].1.clone());
        }
        i += 1;
    }
    None
}

impl XmlElement {
    /// An element named `name` with nothing in it.
    pub fn new(name: String) -> (r: Self)
        ensures
            r@ == (XmlElementView {
                name: name@,
                prefix: None,
                namespace: None,
                attributes: Seq::empty(),
                text: None,
                cdata: None,
                children: Seq::empty(),
            }),
    {
        let r = XmlElement {
            name,
            prefix: None,
            namespace: None,
            attributes: Vec::new(),
            text: None,
            cdata: None,
            children: Vec::new(),
        };
        assert(r.attributes.deep_view() =~= Seq::empty());
        assert(xml_views(r.children@) =~= Seq::empty());
        r
    }

    /// The name with its prefix.
    pub fn tag_name(&self) -> (r: String)
        ensures
            r@ == self@.tag_name(),
    {
        match &self.prefix {
            Some(prefix) => concat3(prefix.as_str(), ":", self.name.as_str()),
            None => self.name.clone(),
        }
    }

    /// The text of this element and of everything below it.
    pub fn text(&self) -> (r: String)
        ensures
            r@ == self@.full_text(),
        decreases self,
    {
        let mut result = String::new();
        if let Some(text_value) = &self.text {
            result.append(text_value.as_str());
        }
        let ghost own = result@;
        proof {
            lemma_xml_views(self.children);
            assert(self@.children.take(0) =~= Seq::<XmlElementView>::empty());
            assert(own + Seq::<char>::empty() =~= own);
        }
        let mut i: usize = 0;
        while i < self.children.len()
            invariant
                i <= self.children.len(),
                self@.children.len() == self.children.len(),
                forall|j: int|
                    0 <= j < self.children.len() ==> self@.children[j] == #[trigger] self.children[j]@,
                result@ == own + texts_of(self@.children.take(i as int)),
            decreases self.children.len() - i,
        {
            let child_text = self.children[i].text();
            result.append(child_text.as_str());
            proof {
                let next = self@.children.take(i + 1);
                assert(next.drop_last() =~= self@.children.take(i as int));
                assert(next.last() == self.children[i as int]@);
                assert(own + texts_of(next.drop_last()) + child_text@ =~= own + (texts_of(
                    next.drop_last(),
                ) + child_text@));
            }
            i += 1;
        }
        proof {
            assert(self@.children.take(i as int) =~= self@.children);
        }
        trim(result.as_str())
    }

    /// The value of the attribute `name`.
    pub fn get_attr(&self, name: &str) -> (r: Option<String>)
        ensures
            r.deep_view() == self@.attr(name@),
    {
        find_attr(&self.attributes, name)
    }

    /// Adds to `found` the elements named `name` at and below `self`.
    fn collect_named<'a>(&'a self, name: &str, found: &mut Vec<&'a XmlElement>)
        ensures
            final(found).deep_view() == old(found).deep_view() + self@.named(name@),
        decreases self,
    {
        let ghost before = found.deep_view();
        if str_eq(self.name.as_str(), name) {
            found.push(self);
            assert(found.deep_view() =~= before + seq![self@]);
        } else {
            assert(found.deep_view() =~= before + Seq::<XmlElementView>::empty());
        }
        let ghost own = found.deep_view();
        proof {
            lemma_xml_views(self.children);
            assert(self@.children.take(0) =~= Seq::<XmlElementView>::empty());
            assert(own + Seq::<XmlElementView>::empty() =~= own);
        }
        let mut i: usize = 0;
        while i < self.children.len()
            invariant
                i <= self.children.len(),
                self@.children.len() == self.children.len(),
                forall|j: int|
                    0 <= j < self.children.len() ==> self@.children[j] == #[trigger] self.children[j]@,
                found.deep_view() == own + named_below(self@.children.take(i as int), name@),
            decreases self.children.len() - i,
        {
            let ghost so_far = found.deep_view();
            self.children[i].collect_named(name, found);
            proof {
                let next = self@.children.take(i + 1);
                assert(next.drop_last() =~= self@.children.take(i as int));
                assert(next.last() == self.children[i as int]@);
                assert(own + named_below(next.drop_last(), name@) + next.last().named(name@) =~= own
                    + (named_below(next.drop_last(), name@) + next.last().named(name@)));
            }
            i += 1;
        }
        proof {
            assert(self@.children.take(i as int) =~= self@.children);
            assert(before + ((if self@.name == name@ {
                seq![self@]
            } else {
                seq![]
            }) + named_below(self@.children, name@)) =~= own + named_below(self@.children, name@));
        }
    }

    /// The elements named `name` at and below this one, in the order of the
    /// document.
    pub fn find_elements_by_name(&self, name: &str) -> (r: Vec<&XmlElement>)
        ensures
            r.deep_view() == self@.named(name@),
    {
        let mut found: Vec<&XmlElement> = Vec::new();
        assert(found.deep_view() =~= Seq::<XmlElementView>::empty());
        self.collect_named(name, &mut found);
        assert(Seq::<XmlElementView>::empty() + self@.named(name@) =~= self@.named(name@));
        found
    }

    /// The children named `name`.
    pub fn find_children_by_name(&self, name: &str) -> (r: Vec<&XmlElement>)
        ensures
            r.deep_view() == self@.children_named(name@),
    {
        let mut found: Vec<&XmlElement> = Vec::new();
        let ghost wanted = |child: XmlElementView| child.name == name@;
        proof {
            lemma_xml_views(self.children);
            assert(self@.children.take(0) =~= Seq::<XmlElementView>::empty());
            assert(found.deep_view() =~= Seq::<XmlElementView>::empty());
        }
        let mut i: usize = 0;
        while i < self.children.len()
            invariant
                i <= self.children.len(),
                wanted == |child: XmlElementView| child.name == name@,
                self@.children.len() == self.children.len(),
                forall|j: int|
                    0 <= j < self.children.len() ==> self@.children[j] == #[trigger] self.children[j]@,
                found.deep_view() == self@.children.take(i as int).filter(wanted),
            decreases self.children.len() - i,
        {
            let ghost before = found.deep_view();
            proof {
                assert(self@.children.take(i + 1) =~= self@.children.take(i as int).push(
                    self.children[i as int]@,
                ));
                self@.children.take(i as int).lemma_filter_push(self.children[i as int]@, wanted);
            }
            if str_eq(self.children[i].name.as_str(), name) {
                found.push(&self.children[i]);
                assert(found.deep_view() =~= before.push(self.children[i as int]@));
            }
            i += 1;
        }
        proof {
            assert(self@.children.take(i as int) =~= self@.children);
        }
        found
    }

    /// The children whose name is one of `names`.
    pub fn find_children_by_names(&self, names: &[&str]) -> (r: Vec<&XmlElement>)
        ensures
            r.deep_view() == self@.children_among(names.deep_view()),
    {
        let mut found: Vec<&XmlElement> = Vec::new();
        let ghost wanted = |child: XmlElementView| names.deep_view().contains(child.name);
        proof {
            lemma_xml_views(self.children);
            assert(self@.children.take(0) =~= Seq::<XmlElementView>::empty());
            assert(found.deep_view() =~= Seq::<XmlElementView>::empty());
        }
        let mut i: usize = 0;
        while i < self.children.len()
            invariant
                i <= self.children.len(),
                wanted == |child: XmlElementView| names.deep_view().contains(child.name),
                self@.children.len() == self.children.len(),
                forall|j: int|
                    0 <= j < self.children.len() ==> self@.children[j] == #[trigger] self.children[j]@,
                found.deep_view() == self@.children.take(i as int).filter(wanted),
            decreases self.children.len() - i,
        {
            let ghost before = found.deep_view();
            proof {
                assert(self@.children.take(i + 1) =~= self@.children.take(i as int).push(
                    self.children[i as int]@,
                ));
                self@.children.take(i as int).lemma_filter_push(self.children[i as int]@, wanted);
            }
            if name_among(self.children[i].name.as_str(), names) {
                found.push(&self.children[i]);
                assert(found.deep_view() =~= before.push(self.children[i as int]@));
            }
            i += 1;
        }
        proof {
            assert(self@.children.take(i as int) =~= self@.children);
        }
        found
    }

    /// The children, in the order of the document.
    pub fn children(&self) -> (r: Vec<&XmlElement>)
        ensures
            r.deep_view() == self@.children,
    {
        let mut all: Vec<&XmlElement> = Vec::new();
        proof {
            lemma_xml_views(self.children);
        }
        let mut i: usize = 0;
        while i < self.children.len()
            invariant
                i <= self.children.len(),
                all.len() == i,
                forall|j: int| 0 <= j < i ==> all[j]@ == self.children[j]@,
            decreases self.children.len() - i,
        {
            all.push(&self.children[i]);
            i += 1;
        }
        proof {
            lemma_xml_views(self.children);
            assert(all.deep_view() =~= self@.children);
        }
        all
    }
}

/// Whether `name` is one of `names`.
pub fn name_among(name: &str, names: &[&str]) -> (r: bool)
    ensures
        r == names.deep_view().contains(name@),
{
    let mut i: usize = 0;
    while i < names.len()
        invariant
            i <= names.len(),
            forall|j: int| 0 <= j < i ==> names.deep_view()[j] != name@,
        decreases names.len() - i,
    {
        if str_eq(names[i], name) {
            assert(names.deep_view()[i as int] == name@);
            return true;
        }
        i += 1;
    }
    false
}

} // verus!
