//! One builder method for each common tag: those that take children, and
//! the void ones that take none.

use crate::attribute::{attribute_views, OwnedAttribute};
use crate::builder::{tag_of, Builder};
use crate::element::{ElementView, IntoElement, OwnedElement};
use vstd::prelude::*;

verus! {

/// A list of all non-void tags.
pub const NON_VOID_TAGS: [&'static str; 45] = [
    "head", "body", "main", "p", "code", "div", "pre", "header", "nav", "ol", "ul", "li",
    "strong", "em", "blockquote", "article", "section", "aside", "span", "script", "title",
    "time", "html", "a", "h1", "h2", "h3", "h4", "h5", "h6", "small", "sup", "sub", "label",
    "q", "s", "table", "tr", "td", "th", "tbody", "thead", "tfoot", "colgroup", "video",
];

/// A list of all void tags.
pub const VOID_TAGS: [&'static str; 14] = [
    "area", "base", "br", "col", "embed", "hr", "input", "link", "meta", "param", "source",
    "track", "wbr", "img",
];

impl Builder {
    /// Create a non-void element with the tag name `head`, a list of
    /// attributes and its children.
    pub fn head<E: IntoElement>(&self, attributes: Vec<OwnedAttribute>, children: E) -> (e:
        OwnedElement)
        ensures
            e@ == tag_of("head"@, attribute_views(attributes@), false, children.element()),
    {
        self.tag("head", attributes, false, children)
    }

    /// Create a non-void element with the tag name `body`, a list of
    /// attributes and its children.
    pub fn body<E: IntoElement>(&self, attributes: Vec<OwnedAttribute>, children: E) -> (e:
        OwnedElement)
        ensures
            e@ == tag_of("body"@, attribute_views(attributes@), false, children.element()),
    {
        self.tag("body", attributes, false, children)
    }

    /// Create a non-void element with the tag name `main`, a list of
    /// attributes and its children.
    pub fn main<E: IntoElement>(&self, attributes: Vec<OwnedAttribute>, children: E) -> (e:
        OwnedElement)
        ensures
            e@ == tag_of("main"@, attribute_views(attributes@), false, children.element()),
    {
        self.tag("main", attributes, false, children)
    }

    /// Create a non-void element with the tag name `p`, a list of
    /// attributes and its children.
    pub fn p<E: IntoElement>(&self, attributes: Vec<OwnedAttribute>, children: E) -> (e:
        OwnedElement)
        ensures
            e@ == tag_of("p"@, attribute_views(attributes@), false, children.element()),
    {
        self.tag("p", attributes, false, children)
    }

    /// Create a non-void element with the tag name `code`, a list of
    /// attributes and its children.
    pub fn code<E: IntoElement>(&self, attributes: Vec<OwnedAttribute>, children: E) -> (e:
        OwnedElement)
        ensures
            e@ == tag_of("code"@, attribute_views(attributes@), false, children.element()),
    {
        self.tag("code", attributes, false, children)
    }

    /// Create a non-void element with the tag name `div`, a list of
    /// attributes and its children.
    pub fn div<E: IntoElement>(&self, attributes: Vec<OwnedAttribute>, children: E) -> (e:
        OwnedElement)
        ensures
            e@ == tag_of("div"@, attribute_views(attributes@), false, children.element()),
    {
        self.tag("div", attributes, false, children)
    }

    /// Create a non-void element with the tag name `pre`, a list of
    /// attributes and its children.
    pub fn pre<E: IntoElement>(&self, attributes: Vec<OwnedAttribute>, children: E) -> (e:
        OwnedElement)
        ensures
            e@ == tag_of("pre"@, attribute_views(attributes@), false, children.element()),
    {
        self.tag("pre", attributes, false, children)
    }

    /// Create a non-void element with the tag name `header`, a list of
    /// attributes and its children.
    pub fn header<E: IntoElement>(&self, attributes: Vec<OwnedAttribute>, children: E) -> (e:
        OwnedElement)
        ensures
            e@ == tag_of("header"@, attribute_views(attributes@), false, children.element()),
    {
        self.tag("header", attributes, false, children)
    }

    /// Create a non-void element with the tag name `nav`, a list of
    /// attributes and its children.
    pub fn nav<E: IntoElement>(&self, attributes: Vec<OwnedAttribute>, children: E) -> (e:
        OwnedElement)
        ensures
            e@ == tag_of("nav"@, attribute_views(attributes@), false, children.element()),
    {
        self.tag("nav", attributes, false, children)
    }

    /// Create a non-void element with the tag name `ol`, a list of
    /// attributes and its children.
    pub fn ol<E: IntoElement>(&self, attributes: Vec<OwnedAttribute>, children: E) -> (e:
        OwnedElement)
        ensures
            e@ == tag_of("ol"@, attribute_views(attributes@), false, children.element()),
    {
        self.tag("ol", attributes, false, children)
    }

    /// Create a non-void element with the tag name `ul`, a list of
    /// attributes and its children.
    pub fn ul<E: IntoElement>(&self, attributes: Vec<OwnedAttribute>, children: E) -> (e:
        OwnedElement)
        ensures
            e@ == tag_of("ul"@, attribute_views(attributes@), false, children.element()),
    {
        self.tag("ul", attributes, false, children)
    }

    /// Create a non-void element with the tag name `li`, a list of
    /// attributes and its children.
    pub fn li<E: IntoElement>(&self, attributes: Vec<OwnedAttribute>, children: E) -> (e:
        OwnedElement)
        ensures
            e@ == tag_of("li"@, attribute_views(attributes@), false, children.element()),
    {
        self.tag("li", attributes, false, children)
    }

    /// Create a non-void element with the tag name `strong`, a list of
    /// attributes and its children.
    pub fn strong<E: IntoElement>(&self, attributes: Vec<OwnedAttribute>, children: E) -> (e:
        OwnedElement)
        ensures
            e@ == tag_of("strong"@, attribute_views(attributes@), false, children.element()),
    {
        self.tag("strong", attributes, false, children)
    }

    /// Create a non-void element with the tag name `em`, a list of
    /// attributes and its children.
    pub fn em<E: IntoElement>(&self, attributes: Vec<OwnedAttribute>, children: E) -> (e:
        OwnedElement)
        ensures
            e@ == tag_of("em"@, attribute_views(attributes@), false, children.element()),
    {
        self.tag("em", attributes, false, children)
    }

    /// Create a non-void element with the tag name `blockquote`, a list of
    /// attributes and its children.
    pub fn blockquote<E: IntoElement>(&self, attributes: Vec<OwnedAttribute>, children: E) -> (e:
        OwnedElement)
        ensures
            e@ == tag_of("blockquote"@, attribute_views(attributes@), false, children.element()),
    {
        self.tag("blockquote", attributes, false, children)
    }

    /// Create a non-void element with the tag name `article`, a list of
    /// attributes and its children.
    pub fn article<E: IntoElement>(&self, attributes: Vec<OwnedAttribute>, children: E) -> (e:
        OwnedElement)
        ensures
            e@ == tag_of("article"@, attribute_views(attributes@), false, children.element()),
    {
        self.tag("article", attributes, false, children)
    }

    /// Create a non-void element with the tag name `section`, a list of
    /// attributes and its children.
    pub fn section<E: IntoElement>(&self, attributes: Vec<OwnedAttribute>, children: E) -> (e:
        OwnedElement)
        ensures
            e@ == tag_of("section"@, attribute_views(attributes@), false, children.element()),
    {
        self.tag("section", attributes, false, children)
    }

    /// Create a non-void element with the tag name `aside`, a list of
    /// attributes and its children.
    pub fn aside<E: IntoElement>(&self, attributes: Vec<OwnedAttribute>, children: E) -> (e:
        OwnedElement)
        ensures
            e@ == tag_of("aside"@, attribute_views(attributes@), false, children.element()),
    {
        self.tag("aside", attributes, false, children)
    }

    /// Create a non-void element with the tag name `span`, a list of
    /// attributes and its children.
    pub fn span<E: IntoElement>(&self, attributes: Vec<OwnedAttribute>, children: E) -> (e:
        OwnedElement)
        ensures
            e@ == tag_of("span"@, attribute_views(attributes@), false, children.element()),
    {
        self.tag("span", attributes, false, children)
    }

    /// Create a non-void element with the tag name `script`, a list of
    /// attributes and its children.
    pub fn script<E: IntoElement>(&self, attributes: Vec<OwnedAttribute>, children: E) -> (e:
        OwnedElement)
        ensures
            e@ == tag_of("script"@, attribute_views(attributes@), false, children.element()),
    {
        self.tag("script", attributes, false, children)
    }

    /// Create a non-void element with the tag name `title`, a list of
    /// attributes and its children.
    pub fn title<E: IntoElement>(&self, attributes: Vec<OwnedAttribute>, children: E) -> (e:
        OwnedElement)
        ensures
            e@ == tag_of("title"@, attribute_views(attributes@), false, children.element()),
    {
        self.tag("title", attributes, false, children)
    }

    /// Create a non-void element with the tag name `time`, a list of
    /// attributes and its children.
    pub fn time<E: IntoElement>(&self, attributes: Vec<OwnedAttribute>, children: E) -> (e:
        OwnedElement)
        ensures
            e@ == tag_of("time"@, attribute_views(attributes@), false, children.element()),
    {
        self.tag("time", attributes, false, children)
    }

    /// Create a non-void element with the tag name `html`, a list of
    /// attributes and its children.
    pub fn html<E: IntoElement>(&self, attributes: Vec<OwnedAttribute>, children: E) -> (e:
        OwnedElement)
        ensures
            e@ == tag_of("html"@, attribute_views(attributes@), false, children.element()),
    {
        self.tag("html", attributes, false, children)
    }

    /// Create a non-void element with the tag name `a`, a list of
    /// attributes and its children.
    pub fn a<E: IntoElement>(&self, attributes: Vec<OwnedAttribute>, children: E) -> (e:
        OwnedElement)
        ensures
            e@ == tag_of("a"@, attribute_views(attributes@), false, children.element()),
    {
        self.tag("a", attributes, false, children)
    }

    /// Create a non-void element with the tag name `h1`, a list of
    /// attributes and its children.
    pub fn h1<E: IntoElement>(&self, attributes: Vec<OwnedAttribute>, children: E) -> (e:
        OwnedElement)
        ensures
            e@ == tag_of("h1"@, attribute_views(attributes@), false, children.element()),
    {
        self.tag("h1", attributes, false, children)
    }

    /// Create a non-void element with the tag name `h2`, a list of
    /// attributes and its children.
    pub fn h2<E: IntoElement>(&self, attributes: Vec<OwnedAttribute>, children: E) -> (e:
        OwnedElement)
        ensures
            e@ == tag_of("h2"@, attribute_views(attributes@), false, children.element()),
    {
        self.tag("h2", attributes, false, children)
    }

    /// Create a non-void element with the tag name `h3`, a list of
    /// attributes and its children.
    pub fn h3<E: IntoElement>(&self, attributes: Vec<OwnedAttribute>, children: E) -> (e:
        OwnedElement)
        ensures
            e@ == tag_of("h3"@, attribute_views(attributes@), false, children.element()),
    {
        self.tag("h3", attributes, false, children)
    }

    /// Create a non-void element with the tag name `h4`, a list of
    /// attributes and its children.
    pub fn h4<E: IntoElement>(&self, attributes: Vec<OwnedAttribute>, children: E) -> (e:
        OwnedElement)
        ensures
            e@ == tag_of("h4"@, attribute_views(attributes@), false, children.element()),
    {
        self.tag("h4", attributes, false, children)
    }

    /// Create a non-void element with the tag name `h5`, a list of
    /// attributes and its children.
    pub fn h5<E: IntoElement>(&self, attributes: Vec<OwnedAttribute>, children: E) -> (e:
        OwnedElement)
        ensures
            e@ == tag_of("h5"@, attribute_views(attributes@), false, children.element()),
    {
        self.tag("h5", attributes, false, children)
    }

    /// Create a non-void element with the tag name `h6`, a list of
    /// attributes and its children.
    pub fn h6<E: IntoElement>(&self, attributes: Vec<OwnedAttribute>, children: E) -> (e:
        OwnedElement)
        ensures
            e@ == tag_of("h6"@, attribute_views(attributes@), false, children.element()),
    {
        self.tag("h6", attributes, false, children)
    }

    /// Create a non-void element with the tag name `small`, a list of
    /// attributes and its children.
    pub fn small<E: IntoElement>(&self, attributes: Vec<OwnedAttribute>, children: E) -> (e:
        OwnedElement)
        ensures
            e@ == tag_of("small"@, attribute_views(attributes@), false, children.element()),
    {
        self.tag("small", attributes, false, children)
    }

    /// Create a non-void element with the tag name `sup`, a list of
    /// attributes and its children.
    pub fn sup<E: IntoElement>(&self, attributes: Vec<OwnedAttribute>, children: E) -> (e:
        OwnedElement)
        ensures
            e@ == tag_of("sup"@, attribute_views(attributes@), false, children.element()),
    {
        self.tag("sup", attributes, false, children)
    }

    /// Create a non-void element with the tag name `sub`, a list of
    /// attributes and its children.
    pub fn sub<E: IntoElement>(&self, attributes: Vec<OwnedAttribute>, children: E) -> (e:
        OwnedElement)
        ensures
            e@ == tag_of("sub"@, attribute_views(attributes@), false, children.element()),
    {
        self.tag("sub", attributes, false, children)
    }

    /// Create a non-void element with the tag name `label`, a list of
    /// attributes and its children.
    pub fn label<E: IntoElement>(&self, attributes: Vec<OwnedAttribute>, children: E) -> (e:
        OwnedElement)
        ensures
            e@ == tag_of("label"@, attribute_views(attributes@), false, children.element()),
    {
        self.tag("label", attributes, false, children)
    }

    /// Create a non-void element with the tag name `q`, a list of
    /// attributes and its children.
    pub fn q<E: IntoElement>(&self, attributes: Vec<OwnedAttribute>, children: E) -> (e:
        OwnedElement)
        ensures
            e@ == tag_of("q"@, attribute_views(attributes@), false, children.element()),
    {
        self.tag("q", attributes, false, children)
    }

    /// Create a non-void element with the tag name `s`, a list of
    /// attributes and its children.
    pub fn s<E: IntoElement>(&self, attributes: Vec<OwnedAttribute>, children: E) -> (e:
        OwnedElement)
        ensures
            e@ == tag_of("s"@, attribute_views(attributes@), false, children.element()),
    {
        self.tag("s", attributes, false, children)
    }

    /// Create a non-void element with the tag name `table`, a list of
    /// attributes and its children.
    pub fn table<E: IntoElement>(&self, attributes: Vec<OwnedAttribute>, children: E) -> (e:
        OwnedElement)
        ensures
            e@ == tag_of("table"@, attribute_views(attributes@), false, children.element()),
    {
        self.tag("table", attributes, false, children)
    }

    /// Create a non-void element with the tag name `tr`, a list of
    /// attributes and its children.
    pub fn tr<E: IntoElement>(&self, attributes: Vec<OwnedAttribute>, children: E) -> (e:
        OwnedElement)
        ensures
            e@ == tag_of("tr"@, attribute_views(attributes@), false, children.element()),
    {
        self.tag("tr", attributes, false, children)
    }

    /// Create a non-void element with the tag name `td`, a list of
    /// attributes and its children.
    pub fn td<E: IntoElement>(&self, attributes: Vec<OwnedAttribute>, children: E) -> (e:
        OwnedElement)
        ensures
            e@ == tag_of("td"@, attribute_views(attributes@), false, children.element()),
    {
        self.tag("td", attributes, false, children)
    }

    /// Create a non-void element with the tag name `th`, a list of
    /// attributes and its children.
    pub fn th<E: IntoElement>(&self, attributes: Vec<OwnedAttribute>, children: E) -> (e:
        OwnedElement)
        ensures
            e@ == tag_of("th"@, attribute_views(attributes@), false, children.element()),
    {
        self.tag("th", attributes, false, children)
    }

    /// Create a non-void element with the tag name `tbody`, a list of
    /// attributes and its children.
    pub fn tbody<E: IntoElement>(&self, attributes: Vec<OwnedAttribute>, children: E) -> (e:
        OwnedElement)
        ensures
            e@ == tag_of("tbody"@, attribute_views(attributes@), false, children.element()),
    {
        self.tag("tbody", attributes, false, children)
    }

    /// Create a non-void element with the tag name `thead`, a list of
    /// attributes and its children.
    pub fn thead<E: IntoElement>(&self, attributes: Vec<OwnedAttribute>, children: E) -> (e:
        OwnedElement)
        ensures
            e@ == tag_of("thead"@, attribute_views(attributes@), false, children.element()),
    {
        self.tag("thead", attributes, false, children)
    }

    /// Create a non-void element with the tag name `tfoot`, a list of
    /// attributes and its children.
    pub fn tfoot<E: IntoElement>(&self, attributes: Vec<OwnedAttribute>, children: E) -> (e:
        OwnedElement)
        ensures
            e@ == tag_of("tfoot"@, attribute_views(attributes@), false, children.element()),
    {
        self.tag("tfoot", attributes, false, children)
    }

    /// Create a non-void element with the tag name `colgroup`, a list of
    /// attributes and its children.
    pub fn colgroup<E: IntoElement>(&self, attributes: Vec<OwnedAttribute>, children: E) -> (e:
        OwnedElement)
        ensures
            e@ == tag_of("colgroup"@, attribute_views(attributes@), false, children.element()),
    {
        self.tag("colgroup", attributes, false, children)
    }

    /// Create a non-void element with the tag name `video`, a list of
    /// attributes and its children.
    pub fn video<E: IntoElement>(&self, attributes: Vec<OwnedAttribute>, children: E) -> (e:
        OwnedElement)
        ensures
            e@ == tag_of("video"@, attribute_views(attributes@), false, children.element()),
    {
        self.tag("video", attributes, false, children)
    }

    /// Create a void element with the tag name `area` and a list of attributes.
    pub fn area(&self, attributes: Vec<OwnedAttribute>) -> (e: OwnedElement)
        ensures
            e@ == tag_of("area"@, attribute_views(attributes@), true, ElementView::Empty),
    {
        self.tag("area", attributes, true, OwnedElement::Empty)
    }

    /// Create a void element with the tag name `base` and a list of attributes.
    pub fn base(&self, attributes: Vec<OwnedAttribute>) -> (e: OwnedElement)
        ensures
            e@ == tag_of("base"@, attribute_views(attributes@), true, ElementView::Empty),
    {
        self.tag("base", attributes, true, OwnedElement::Empty)
    }

    /// Create a void element with the tag name `br` and a list of attributes.
    pub fn br(&self, attributes: Vec<OwnedAttribute>) -> (e: OwnedElement)
        ensures
            e@ == tag_of("br"@, attribute_views(attributes@), true, ElementView::Empty),
    {
        self.tag("br", attributes, true, OwnedElement::Empty)
    }

    /// Create a void element with the tag name `col` and a list of attributes.
    pub fn col(&self, attributes: Vec<OwnedAttribute>) -> (e: OwnedElement)
        ensures
            e@ == tag_of("col"@, attribute_views(attributes@), true, ElementView::Empty),
    {
        self.tag("col", attributes, true, OwnedElement::Empty)
    }

    /// Create a void element with the tag name `embed` and a list of attributes.
    pub fn embed(&self, attributes: Vec<OwnedAttribute>) -> (e: OwnedElement)
        ensures
            e@ == tag_of("embed"@, attribute_views(attributes@), true, ElementView::Empty),
    {
        self.tag("embed", attributes, true, OwnedElement::Empty)
    }

    /// Create a void element with the tag name `hr` and a list of attributes.
    pub fn hr(&self, attributes: Vec<OwnedAttribute>) -> (e: OwnedElement)
        ensures
            e@ == tag_of("hr"@, attribute_views(attributes@), true, ElementView::Empty),
    {
        self.tag("hr", attributes, true, OwnedElement::Empty)
    }

    /// Create a void element with the tag name `input` and a list of attributes.
    pub fn input(&self, attributes: Vec<OwnedAttribute>) -> (e: OwnedElement)
        ensures
            e@ == tag_of("input"@, attribute_views(attributes@), true, ElementView::Empty),
    {
        self.tag("input", attributes, true, OwnedElement::Empty)
    }

    /// Create a void element with the tag name `link` and a list of attributes.
    pub fn link(&self, attributes: Vec<OwnedAttribute>) -> (e: OwnedElement)
        ensures
            e@ == tag_of("link"@, attribute_views(attributes@), true, ElementView::Empty),
    {
        self.tag("link", attributes, true, OwnedElement::Empty)
    }

    /// Create a void element with the tag name `meta` and a list of attributes.
    pub fn meta(&self, attributes: Vec<OwnedAttribute>) -> (e: OwnedElement)
        ensures
            e@ == tag_of("meta"@, attribute_views(attributes@), true, ElementView::Empty),
    {
        self.tag("meta", attributes, true, OwnedElement::Empty)
    }

    /// Create a void element with the tag name `param` and a list of attributes.
    pub fn param(&self, attributes: Vec<OwnedAttribute>) -> (e: OwnedElement)
        ensures
            e@ == tag_of("param"@, attribute_views(attributes@), true, ElementView::Empty),
    {
        self.tag("param", attributes, true, OwnedElement::Empty)
    }

    /// Create a void element with the tag name `source` and a list of attributes.
    pub fn source(&self, attributes: Vec<OwnedAttribute>) -> (e: OwnedElement)
        ensures
            e@ == tag_of("source"@, attribute_views(attributes@), true, ElementView::Empty),
    {
        self.tag("source", attributes, true, OwnedElement::Empty)
    }

    /// Create a void element with the tag name `track` and a list of attributes.
    pub fn track(&self, attributes: Vec<OwnedAttribute>) -> (e: OwnedElement)
        ensures
            e@ == tag_of("track"@, attribute_views(attributes@), true, ElementView::Empty),
    {
        self.tag("track", attributes, true, OwnedElement::Empty)
    }

    /// Create a void element with the tag name `wbr` and a list of attributes.
    pub fn wbr(&self, attributes: Vec<OwnedAttribute>) -> (e: OwnedElement)
        ensures
            e@ == tag_of("wbr"@, attribute_views(attributes@), true, ElementView::Empty),
    {
        self.tag("wbr", attributes, true, OwnedElement::Empty)
    }

    /// Create a void element with the tag name `img` and a list of attributes.
    pub fn img(&self, attributes: Vec<OwnedAttribute>) -> (e: OwnedElement)
        ensures
            e@ == tag_of("img"@, attribute_views(attributes@), true, ElementView::Empty),
    {
        self.tag("img", attributes, true, OwnedElement::Empty)
    }
}

} // verus!
