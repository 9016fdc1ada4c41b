//! The tree in which a document is authored.

use crate::attribute::{attribute_views, duplicate_attributes, AttributeView, OwnedAttribute};
use vstd::prelude::*;
use vstd::string::StringExecFns;

verus! {

/// An element in an HTML document. This is optimised for authoring, and
/// supports both [`OwnedElement::Empty`] and [`OwnedElement::Fragment`] for
/// convenience: neither is left once the tree is made ready for rendering.
#[derive(Debug, PartialEq, Eq)]
pub enum OwnedElement {
    /// An empty element.
    Empty,
    /// A tag element.
    Tag {
        /// The name of the tag.
        name: String,
        /// The attributes of the tag.
        attributes: Vec<OwnedAttribute>,
        /// The children of the tag.
        children: Vec<OwnedElement>,
        /// Whether the tag is void.
        void: bool,
    },
    /// A fragment element.
    Fragment {
        /// The children of the fragment.
        children: Vec<OwnedElement>,
    },
    /// A text element.
    Text {
        /// The text of the element.
        text: String,
    },
    /// A raw element.
    Raw {
        /// The raw HTML of the element.
        html: String,
    },
}

/// The name under which trees are authored: an element owns its strings,
/// its attributes and its children.
pub type Element = OwnedElement;

/// What an element holds.
pub enum ElementView {
    Empty,
    Tag { name: Seq<char>, attributes: Seq<AttributeView>, children: Seq<ElementView>, void: bool },
    Fragment { children: Seq<ElementView> },
    Text { text: Seq<char> },
    Raw { html: Seq<char> },
}

impl View for OwnedElement {
    type V = ElementView;

    open spec fn view(&self) -> ElementView
        decreases self,
    {
        match self {
            OwnedElement::Empty => ElementView::Empty,
            OwnedElement::Tag { name, attributes, children, void } => ElementView::Tag {
                name: name@,
                attributes: attribute_views(attributes@),
                children: Seq::new(
                    children@.len(),
                    |i: int|
                        if 0 <= i < children@.len() {
                            children@[i]@
                        } else {
                            ElementView::Empty
                        },
                ),
                void: *void,
            },
            OwnedElement::Fragment { children } => ElementView::Fragment {
                children: Seq::new(
                    children@.len(),
                    |i: int|
                        if 0 <= i < children@.len() {
                            children@[i]@
                        } else {
                            ElementView::Empty
                        },
                ),
            },
            OwnedElement::Text { text } => ElementView::Text { text: text@ },
            OwnedElement::Raw { html } => ElementView::Raw { html: html@ },
        }
    }
}

/// What a list of elements holds.
pub open spec fn element_views(elements: Seq<OwnedElement>) -> Seq<ElementView> {
    Seq::new(elements.len(), |i: int| elements[i]@)
}

/// The children of a tag or a fragment, as its view has them.
pub proof fn lemma_children_views(e: OwnedElement)
    ensures
        match e {
            OwnedElement::Tag { children, .. } => e@->Tag_children == element_views(children@),
            OwnedElement::Fragment { children } => e@->Fragment_children == element_views(
                children@,
            ),
            _ => true,
        },
{
    match e {
        OwnedElement::Tag { children, .. } => {
            assert(e@->Tag_children =~= element_views(children@));
        },
        OwnedElement::Fragment { children } => {
            assert(e@->Fragment_children =~= element_views(children@));
        },
        _ => {},
    }
}

/// The one element that stands for a list of children: nothing for none,
/// the child itself for one, a fragment for more.
pub open spec fn collapse(children: Seq<ElementView>) -> ElementView {
    if children.len() == 0 {
        ElementView::Empty
    } else if children.len() == 1 {
        children[0]
    } else {
        ElementView::Fragment { children }
    }
}

/// The text inside an element: its own if it is a text, that of its
/// children in order if it has any, and none for raw HTML.
pub open spec fn inner_text_of(e: ElementView) -> Seq<char>
    decreases e,
{
    match e {
        ElementView::Empty => Seq::empty(),
        ElementView::Tag { children, .. } => inner_text_of_all(children),
        ElementView::Fragment { children } => inner_text_of_all(children),
        ElementView::Text { text } => text,
        ElementView::Raw { .. } => Seq::empty(),
    }
}

/// The text inside the elements of a list, in order.
pub open spec fn inner_text_of_all(elements: Seq<ElementView>) -> Seq<char>
    decreases elements,
{
    if elements.len() == 0 {
        Seq::empty()
    } else {
        inner_text_of_all(elements.drop_last()) + inner_text_of(elements.last())
    }
}

impl Default for OwnedElement {
    fn default() -> (e: Self)
        ensures
            e@ == ElementView::Empty,
    {
        OwnedElement::Empty
    }
}

impl OwnedElement {
    /// Create an element from a list of elements.
    pub fn from_iter(children: Vec<OwnedElement>) -> (e: OwnedElement)
        ensures
            e@ == collapse(element_views(children@)),
    {
        let mut children = children;
        let ghost views = element_views(children@);
        if children.len() == 0 {
            OwnedElement::Empty
        } else if children.len() == 1 {
            match children.pop() {
                Some(only) => {
                    assert(only@ == views[0]);
                    only
                },
                None => OwnedElement::Empty,
            }
        } else {
            let e = OwnedElement::Fragment { children };
            proof {
                lemma_children_views(e);
            }
            e
        }
    }

    /// A copy of this element and of all below it.
    pub fn duplicate(&self) -> (copy: OwnedElement)
        ensures
            copy@ == self@,
        decreases self,
    {
        proof {
            lemma_children_views(*self);
        }
        match self {
            OwnedElement::Empty => OwnedElement::Empty,
            OwnedElement::Tag { name, attributes, children, void } => {
                let copy = OwnedElement::Tag {
                    name: name.clone(),
                    attributes: duplicate_attributes(attributes),
                    children: Self::duplicate_all(children),
                    void: *void,
                };
                proof {
                    lemma_children_views(copy);
                }
                copy
            },
            OwnedElement::Fragment { children } => {
                let copy = OwnedElement::Fragment { children: Self::duplicate_all(children) };
                proof {
                    lemma_children_views(copy);
                }
                copy
            },
            OwnedElement::Text { text } => OwnedElement::Text { text: text.clone() },
            OwnedElement::Raw { html } => OwnedElement::Raw { html: html.clone() },
        }
    }

    /// A copy of a list of elements and of all below them.
    pub fn duplicate_all(elements: &Vec<OwnedElement>) -> (copy: Vec<OwnedElement>)
        ensures
            element_views(copy@) == element_views(elements@),
        decreases elements,
    {
        let mut copy: Vec<OwnedElement> = Vec::new();
        let mut i: usize = 0;
        while i < elements.len()
            invariant
                i <= elements.len(),
                copy.len() == i,
                forall|j: int| 0 <= j < i ==> copy@[j]@ == elements@[j]@,
            decreases elements.len() - i,
        {
            let e = elements[i].duplicate();
            copy.push(e);
            i += 1;
        }
        assert(element_views(copy@) =~= element_views(elements@));
        copy
    }

    /// Create a text element.
    pub fn text(text: &str) -> (e: OwnedElement)
        ensures
            e@ == (ElementView::Text { text: text@ }),
    {
        OwnedElement::Text { text: text.to_owned() }
    }

    /// Create a raw HTML element.
    pub fn raw(html: &str) -> (e: OwnedElement)
        ensures
            e@ == (ElementView::Raw { html: html@ }),
    {
        OwnedElement::Raw { html: html.to_owned() }
    }

    /// Get the tag name of the element if it is a [`OwnedElement::Tag`].
    pub fn tag(&self) -> (name: Option<&str>)
        ensures
            match name {
                Some(n) => self@ is Tag && n@ == self@->Tag_name,
                None => !(self@ is Tag),
            },
    {
        match self {
            OwnedElement::Tag { name, .. } => Some(name.as_str()),
            _ => None,
        }
    }

    /// Get the attributes of the element if it is a [`OwnedElement::Tag`].
    pub fn attrs(&self) -> (attributes: Option<&[OwnedAttribute]>)
        ensures
            match attributes {
                Some(a) => self@ is Tag && attribute_views(a@) == self@->Tag_attributes,
                None => !(self@ is Tag),
            },
    {
        match self {
            OwnedElement::Tag { attributes, .. } => Some(attributes.as_slice()),
            _ => None,
        }
    }

    /// Get the inner text of the element.
    ///
    /// This will return an empty string if no inner text exists.
    pub fn inner_text(&self) -> (text: String)
        ensures
            text@ == inner_text_of(self@),
        decreases self,
    {
        match self {
            OwnedElement::Empty => String::new(),
            OwnedElement::Tag { children, .. } => {
                proof {
                    lemma_children_views(*self);
                }
                Self::inner_text_all(children)
            },
            OwnedElement::Fragment { children } => {
                proof {
                    lemma_children_views(*self);
                }
                Self::inner_text_all(children)
            },
            OwnedElement::Text { text } => text.clone(),
            OwnedElement::Raw { .. } => String::new(),
        }
    }

    /// The inner text of the elements of a list, in order.
    pub fn inner_text_all(elements: &Vec<OwnedElement>) -> (text: String)
        ensures
            text@ == inner_text_of_all(element_views(elements@)),
        decreases elements,
    {
        let mut result = String::new();
        let mut i: usize = 0;
        let ghost views = element_views(elements@);
        assert(views.take(0) =~= Seq::empty());
        while i < elements.len()
            invariant
                i <= elements.len(),
                views == element_views(elements@),
                result@ == inner_text_of_all(views.take(i as int)),
            decreases elements.len() - i,
        {
            let piece = elements[i].inner_text();
            result.append(piece.as_str());
            proof {
                assert(views.take(i + 1).drop_last() =~= views.take(i as int));
                assert(views.take(i + 1).last() == elements@[i as int]@);
            }
            i += 1;
        }
        assert(views.take(i as int) =~= views);
        result
    }

    /// Returns `true` if the element is [`OwnedElement::Empty`].
    #[must_use]
    pub fn is_empty(&self) -> (b: bool)
        ensures
            b == (self@ is Empty),
    {
        matches!(self, OwnedElement::Empty)
    }

    /// Returns `true` if the element is [`OwnedElement::Tag`].
    #[must_use]
    pub fn is_tag(&self) -> (b: bool)
        ensures
            b == (self@ is Tag),
    {
        matches!(self, OwnedElement::Tag { .. })
    }

    /// Returns `true` if the element is [`OwnedElement::Fragment`].
    #[must_use]
    pub fn is_fragment(&self) -> (b: bool)
        ensures
            b == (self@ is Fragment),
    {
        matches!(self, OwnedElement::Fragment { .. })
    }

    /// Returns `true` if the element is [`OwnedElement::Text`].
    #[must_use]
    pub fn is_text(&self) -> (b: bool)
        ensures
            b == (self@ is Text),
    {
        matches!(self, OwnedElement::Text { .. })
    }

    /// Returns `true` if the element is [`OwnedElement::Raw`].
    #[must_use]
    pub fn is_raw(&self) -> (b: bool)
        ensures
            b == (self@ is Raw),
    {
        matches!(self, OwnedElement::Raw { .. })
    }
}


/// Trait for types that can be converted into an element: an element
/// itself, a string for a text, an option (nothing is the empty element),
/// or a list of elements.
pub trait IntoElement: Sized {
    /// What the element will hold.
    spec fn element(self) -> ElementView;

    /// Convert this value into an element.
    fn into_element(self) -> (e: OwnedElement)
        ensures
            e@ == self.element(),
    ;
}

impl IntoElement for OwnedElement {
    open spec fn element(self) -> ElementView {
        self@
    }

    fn into_element(self) -> (e: OwnedElement) {
        self
    }
}

impl<'a> IntoElement for &'a str {
    open spec fn element(self) -> ElementView {
        ElementView::Text { text: self@ }
    }

    fn into_element(self) -> (e: OwnedElement) {
        OwnedElement::Text { text: self.to_owned() }
    }
}

impl IntoElement for String {
    open spec fn element(self) -> ElementView {
        ElementView::Text { text: self@ }
    }

    fn into_element(self) -> (e: OwnedElement) {
        OwnedElement::Text { text: self }
    }
}

impl<'a> IntoElement for &'a String {
    open spec fn element(self) -> ElementView {
        ElementView::Text { text: self@ }
    }

    fn into_element(self) -> (e: OwnedElement) {
        OwnedElement::Text { text: self.clone() }
    }
}

impl<T: IntoElement> IntoElement for Option<T> {
    open spec fn element(self) -> ElementView {
        match self {
            Some(inner) => inner.element(),
            None => ElementView::Empty,
        }
    }

    fn into_element(self) -> (e: OwnedElement) {
        match self {
            Some(inner) => inner.into_element(),
            None => OwnedElement::Empty,
        }
    }
}

impl IntoElement for Vec<OwnedElement> {
    open spec fn element(self) -> ElementView {
        collapse(element_views(self@))
    }

    fn into_element(self) -> (e: OwnedElement) {
        OwnedElement::from_iter(self)
    }
}

} // verus!
