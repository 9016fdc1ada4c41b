//! A document: the elements at the top of a page, ready to be rendered.

use crate::attribute::{attribute_views, AttributeView, OwnedAttribute};
use crate::element::{element_views, ElementView, OwnedElement};
use crate::render_element::{
    all_renderable, normalize, render_many, render_views, RenderElement, RenderError, RenderView,
    Rendered,
};
use vstd::prelude::*;

verus! {

/// A document is a collection of elements that will be rendered to HTML.
#[derive(Debug)]
pub struct Document {
    /// The children of the document. [`OwnedElement`]s are converted to
    /// [`RenderElement`]s when the document is created.
    pub children: Vec<RenderElement>,
}

/// The declaration `<!DOCTYPE html>`, as a void tag.
pub open spec fn html_doctype() -> ElementView {
    ElementView::Tag {
        name: "!DOCTYPE"@,
        attributes: seq![AttributeView { key: "html"@, value: None }],
        children: Seq::empty(),
        void: true,
    }
}

impl Document {
    /// Create a new document with a list of children. [`OwnedElement`]s
    /// are converted to [`RenderElement`]s when the document is created.
    pub fn new(children: Vec<OwnedElement>) -> (document: Document)
        ensures
            render_views(document.children@) == normalize(element_views(children@)),
    {
        Document { children: RenderElement::from_elements(children) }
    }

    /// Create a new document with a doctype declaration followed by the
    /// given element.
    pub fn new_with_doctype(element: OwnedElement) -> (document: Document)
        ensures
            render_views(document.children@) == normalize(seq![html_doctype(), element@]),
    {
        let mut attributes: Vec<OwnedAttribute> = Vec::new();
        attributes.push(OwnedAttribute::boolean("html"));
        let doctype = OwnedElement::Tag {
            name: "!DOCTYPE".to_owned(),
            attributes,
            children: Vec::new(),
            void: true,
        };
        proof {
            crate::element::lemma_children_views(doctype);
            assert(attribute_views(attributes@) =~= seq![
                AttributeView { key: "html"@, value: None },
            ]);
            assert(doctype@->Tag_children =~= Seq::empty());
            assert(doctype@ == html_doctype());
        }
        let mut children: Vec<OwnedElement> = Vec::new();
        children.push(doctype);
        children.push(element);
        assert(element_views(children@) =~= seq![html_doctype(), element@]);
        Document::new(children)
    }

    /// Write the document to the end of a string.
    ///
    /// On a void tag that has children nothing is promised of what has
    /// been appended but that the string still begins as it did.
    pub fn write(&self, out: &mut String) -> (result: Result<(), RenderError>)
        ensures
            match result {
                Ok(()) => render_many(render_views(self.children@), 0) matches Ok(done)
                    && final(out)@ == old(out)@ + done.text,
                Err(e) => render_many(render_views(self.children@), 0) == Err::<
                    Rendered,
                    RenderView,
                >(e.element@) && old(out)@.is_prefix_of(final(out)@),
            },
            result is Ok <==> all_renderable(render_views(self.children@)),
    {
        match RenderElement::write_many(out, &self.children, 0) {
            Ok(_) => Ok(()),
            Err(e) => Err(e),
        }
    }

    /// Write the document to a string.
    pub fn write_to_string(&self) -> (result: Result<String, RenderError>)
        ensures
            match result {
                Ok(text) => render_many(render_views(self.children@), 0) matches Ok(done)
                    && done.text == text@,
                Err(e) => render_many(render_views(self.children@), 0) == Err::<
                    Rendered,
                    RenderView,
                >(e.element@),
            },
            result is Ok <==> all_renderable(render_views(self.children@)),
    {
        RenderElement::write_many_to_string(&self.children)
    }
}

} // verus!
