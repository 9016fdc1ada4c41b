//! Implements a builder DSL for creating HTML documents through a series of methods.

use crate::attribute::{attribute_views, AttributeView, IntoAttribute, OwnedAttribute};
use crate::document::{html_doctype, Document};
use crate::element::{
    collapse, element_views, lemma_children_views, ElementView, IntoElement, OwnedElement,
};
use crate::render_element::{normalize, render_views};
use vstd::prelude::*;

verus! {

/// A builder for creating HTML elements.
#[derive(Clone, Copy, Debug)]
pub struct Builder {}

/// The children that a tag gets from the one element handed to it: those
/// of a fragment, none for the empty element, the element itself
/// otherwise.
pub open spec fn tag_children(children: ElementView) -> Seq<ElementView> {
    match children {
        ElementView::Fragment { children } => children,
        ElementView::Empty => Seq::empty(),
        other => seq![other],
    }
}

/// The tag with a name, attributes and the children got from one element.
pub open spec fn tag_of(
    name: Seq<char>,
    attributes: Seq<AttributeView>,
    void: bool,
    children: ElementView,
) -> ElementView {
    ElementView::Tag { name, attributes, children: tag_children(children), void }
}

impl Builder {
    /// Create a new builder.
    pub fn new() -> (b: Builder)
        ensures
            b == (Builder {  }),
    {
        Builder {  }
    }

    /// Create an attribute from a value that implements [IntoAttribute].
    pub fn attr<A: IntoAttribute>(&self, value: A) -> (a: OwnedAttribute)
        ensures
            a@ == value.attribute(),
    {
        value.into_attribute()
    }

    /// Create a text element from a string.
    pub fn text(&self, text: &str) -> (e: OwnedElement)
        ensures
            e@ == (ElementView::Text { text: text@ }),
    {
        OwnedElement::Text { text: text.to_owned() }
    }

    /// Create a raw HTML element from a string.
    pub fn raw(&self, html: &str) -> (e: OwnedElement)
        ensures
            e@ == (ElementView::Raw { html: html@ }),
    {
        OwnedElement::Raw { html: html.to_owned() }
    }

    /// Create a tag element from a name, attributes, a boolean indicating
    /// whether the tag is a void element (i.e. doesn't have a closing
    /// tag), and its children.
    ///
    /// A void tag may be given children: that is found out when it is
    /// rendered.
    pub fn tag<E: IntoElement>(
        &self,
        name: &str,
        attributes: Vec<OwnedAttribute>,
        void: bool,
        children: E,
    ) -> (e: OwnedElement)
        ensures
            e@ == tag_of(name@, attribute_views(attributes@), void, children.element()),
    {
        let given = children.into_element();
        proof {
            lemma_children_views(given);
        }
        let children = match given {
            OwnedElement::Fragment { children } => children,
            OwnedElement::Empty => Vec::new(),
            other => {
                let mut one: Vec<OwnedElement> = Vec::new();
                one.push(other);
                assert(element_views(one@) =~= seq![other@]);
                one
            },
        };
        assert(element_views(children@) =~= tag_children(given@));
        let e = OwnedElement::Tag { name: name.to_owned(), attributes, children, void };
        proof {
            lemma_children_views(e);
        }
        e
    }

    /// Create a doctype element with a list of attributes.
    pub fn doctype(&self, attributes: Vec<OwnedAttribute>) -> (e: OwnedElement)
        ensures
            e@ == (ElementView::Tag {
                name: "!DOCTYPE"@,
                attributes: attribute_views(attributes@),
                children: Seq::empty(),
                void: true,
            }),
    {
        let e = OwnedElement::Tag {
            name: "!DOCTYPE".to_owned(),
            attributes,
            children: Vec::new(),
            void: true,
        };
        proof {
            lemma_children_views(e);
            assert(e@->Tag_children =~= Seq::empty());
        }
        e
    }

    /// Create a fragment element from a list of elements.
    ///
    /// This is a convenience wrapper around [`OwnedElement::from_iter`].
    pub fn fragment(&self, children: Vec<OwnedElement>) -> (e: OwnedElement)
        ensures
            e@ == collapse(element_views(children@)),
    {
        OwnedElement::from_iter(children)
    }

    /// Create a document from a list of elements.
    ///
    /// This is a convenience wrapper around [`Document::new`].
    pub fn document(&self, children: Vec<OwnedElement>) -> (document: Document)
        ensures
            render_views(document.children@) == normalize(element_views(children@)),
    {
        Document::new(children)
    }

    /// Create a document with a doctype declaration followed by the given element.
    ///
    /// This is a convenience wrapper around [`Document::new_with_doctype`].
    pub fn document_with_doctype(&self, element: OwnedElement) -> (document: Document)
        ensures
            render_views(document.children@) == normalize(seq![html_doctype(), element@]),
    {
        Document::new_with_doctype(element)
    }
}

} // verus!
