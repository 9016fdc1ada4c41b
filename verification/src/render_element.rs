//! The tree that is rendered, how an authored tree becomes one, and how it
//! is written out as HTML.

use crate::attribute::{attribute_views, duplicate_attributes, AttributeView, OwnedAttribute};
use crate::element::{element_views, lemma_children_views, ElementView, OwnedElement};
use crate::escape::{encode_quoted_attribute, encode_text, escape_attribute, escape_text};
use crate::text::chars_of;
use vstd::prelude::*;
use vstd::string::StringExecFns;

verus! {

/// A renderable element in an HTML document.
///
/// These are constructed from [`OwnedElement`]s using
/// [`RenderElement::from_elements`], which removes the nodes that only
/// served the authoring.
#[derive(Debug, PartialEq, Eq)]
pub enum RenderElement {
    /// A tag element.
    Tag {
        /// The name of the tag.
        name: String,
        /// The attributes of the tag.
        attributes: Vec<OwnedAttribute>,
        /// The children of the tag.
        children: Vec<RenderElement>,
        /// Whether the tag is void.
        void: bool,
    },
    /// A text element.
    Text {
        /// The text of the element.
        text: String,
    },
    /// A raw element.
    Raw {
        /// The raw HTML of the element.
        html: String,
    },
}

/// What a renderable element holds.
pub enum RenderView {
    Tag { name: Seq<char>, attributes: Seq<AttributeView>, children: Seq<RenderView>, void: bool },
    Text { text: Seq<char> },
    Raw { html: Seq<char> },
}

impl View for RenderElement {
    type V = RenderView;

    open spec fn view(&self) -> RenderView
        decreases self,
    {
        match self {
            RenderElement::Tag { name, attributes, children, void } => RenderView::Tag {
                name: name@,
                attributes: attribute_views(attributes@),
                children: Seq::new(
                    children@.len(),
                    |i: int|
                        if 0 <= i < children@.len() {
                            children@[i]@
                        } else {
                            RenderView::Raw { html: Seq::empty() }
                        },
                ),
                void: *void,
            },
            RenderElement::Text { text } => RenderView::Text { text: text@ },
            RenderElement::Raw { html } => RenderView::Raw { html: html@ },
        }
    }
}

/// What a list of renderable elements holds.
pub open spec fn render_views(elements: Seq<RenderElement>) -> Seq<RenderView> {
    Seq::new(elements.len(), |i: int| elements[i]@)
}

/// The children of a tag, as its view has them.
pub proof fn lemma_render_children_views(e: RenderElement)
    ensures
        match e {
            RenderElement::Tag { children, .. } => e@->Tag_children == render_views(children@),
            _ => true,
        },
{
    match e {
        RenderElement::Tag { children, .. } => {
            assert(e@->Tag_children =~= render_views(children@));
        },
        _ => {},
    }
}

/// The text that is nothing but one line feed: it only formats the source
/// and is not rendered.
pub open spec fn line_feed() -> Seq<char> {
    seq!['\n']
}

/// What one authored element becomes: nothing for an empty element or a
/// line feed, its children for a fragment, itself in every other case.
pub open spec fn normalize_one(e: ElementView) -> Seq<RenderView>
    decreases e,
{
    match e {
        ElementView::Empty => Seq::empty(),
        ElementView::Tag { name, attributes, children, void } => seq![
            RenderView::Tag { name, attributes, children: normalize(children), void },
        ],
        ElementView::Fragment { children } => normalize(children),
        ElementView::Text { text } => if text == line_feed() {
            Seq::empty()
        } else {
            seq![RenderView::Text { text }]
        },
        ElementView::Raw { html } => seq![RenderView::Raw { html }],
    }
}

/// What a list of authored elements becomes: what each becomes, in order.
pub open spec fn normalize(elements: Seq<ElementView>) -> Seq<RenderView>
    decreases elements,
{
    if elements.len() == 0 {
        Seq::empty()
    } else {
        normalize(elements.drop_last()) + normalize_one(elements.last())
    }
}

/// A renderable element written as an authored one.
pub open spec fn as_element(r: RenderView) -> ElementView
    decreases r,
{
    match r {
        RenderView::Tag { name, attributes, children, void } => ElementView::Tag {
            name,
            attributes,
            children: as_elements(children),
            void,
        },
        RenderView::Text { text } => ElementView::Text { text },
        RenderView::Raw { html } => ElementView::Raw { html },
    }
}

/// A list of renderable elements written as authored ones.
pub open spec fn as_elements(rs: Seq<RenderView>) -> Seq<ElementView>
    decreases rs,
{
    if rs.len() == 0 {
        Seq::empty()
    } else {
        as_elements(rs.drop_last()).push(as_element(rs.last()))
    }
}

/// Whether no text in the tree is a lone line feed.
pub open spec fn is_normal(r: RenderView) -> bool
    decreases r,
{
    match r {
        RenderView::Tag { children, .. } => all_normal(children),
        RenderView::Text { text } => text != line_feed(),
        RenderView::Raw { .. } => true,
    }
}

/// Whether no text in the trees of a list is a lone line feed.
pub open spec fn all_normal(rs: Seq<RenderView>) -> bool
    decreases rs,
{
    rs.len() == 0 || (all_normal(rs.drop_last()) && is_normal(rs.last()))
}

/// What normalisation yields holds no lone line feed.
pub proof fn lemma_normalize_gives_normal(elements: Seq<ElementView>)
    ensures
        all_normal(normalize(elements)),
    decreases elements, 1int,
{
    if elements.len() > 0 {
        lemma_normalize_gives_normal(elements.drop_last());
        lemma_normalize_one_gives_normal(elements.last());
        lemma_all_normal_concat(normalize(elements.drop_last()), normalize_one(elements.last()));
    }
}

proof fn lemma_normalize_one_gives_normal(e: ElementView)
    ensures
        all_normal(normalize_one(e)),
    decreases e, 0int,
{
    match e {
        ElementView::Empty => {
            assert(normalize_one(e).len() == 0);
        },
        ElementView::Tag { name, attributes, children, void } => {
            lemma_normalize_gives_normal(children);
            let r = RenderView::Tag { name, attributes, children: normalize(children), void };
            assert(is_normal(r));
            lemma_single_normal(r);
        },
        ElementView::Fragment { children } => {
            lemma_normalize_gives_normal(children);
        },
        ElementView::Text { text } => {
            if text != line_feed() {
                lemma_single_normal(RenderView::Text { text });
            } else {
                assert(normalize_one(e).len() == 0);
            }
        },
        ElementView::Raw { html } => {
            lemma_single_normal(RenderView::Raw { html });
        },
    }
}

proof fn lemma_single_normal(r: RenderView)
    requires
        is_normal(r),
    ensures
        all_normal(seq![r]),
{
    let one = seq![r];
    assert(one.len() == 1);
    assert(one.drop_last().len() == 0);
    assert(all_normal(one.drop_last()));
    assert(one.last() == r);
}

proof fn lemma_all_normal_concat(a: Seq<RenderView>, b: Seq<RenderView>)
    requires
        all_normal(a),
        all_normal(b),
    ensures
        all_normal(a + b),
    decreases b.len(),
{
    if b.len() == 0 {
        assert(a + b =~= a);
    } else {
        lemma_all_normal_concat(a, b.drop_last());
        assert((a + b).drop_last() =~= a + b.drop_last());
        assert((a + b).last() == b.last());
    }
}

/// A list without a lone line feed, written as authored elements, is
/// normalised to itself.
pub proof fn lemma_normalize_keeps_normal(rs: Seq<RenderView>)
    requires
        all_normal(rs),
    ensures
        normalize(as_elements(rs)) == rs,
    decreases rs, 1int,
{
    if rs.len() == 0 {
        assert(normalize(as_elements(rs)) =~= rs);
    } else {
        let init = rs.drop_last();
        let last = rs.last();
        lemma_normalize_keeps_normal(init);
        lemma_normalize_one_keeps_normal(last);
        let es = as_elements(rs);
        assert(es.drop_last() =~= as_elements(init));
        assert(es.last() == as_element(last));
        assert(normalize(es) =~= rs);
    }
}

proof fn lemma_normalize_one_keeps_normal(r: RenderView)
    requires
        is_normal(r),
    ensures
        normalize_one(as_element(r)) == seq![r],
    decreases r, 0int,
{
    match r {
        RenderView::Tag { name, attributes, children, void } => {
            lemma_normalize_keeps_normal(children);
        },
        RenderView::Text { text } => {},
        RenderView::Raw { html } => {},
    }
}

/// Normalising twice is normalising once: what normalisation yields,
/// written as authored elements and normalised again, is unchanged.
pub proof fn lemma_normalize_idempotent(elements: Seq<ElementView>)
    ensures
        normalize(as_elements(normalize(elements))) == normalize(elements),
{
    lemma_normalize_gives_normal(elements);
    lemma_normalize_keeps_normal(normalize(elements));
}

/// Whether a tag name is one of the inline tags, around which no line is
/// broken.
pub open spec fn is_inline_tag(name: Seq<char>) -> bool {
    name == "a"@ || name == "abbr"@ || name == "acronym"@ || name == "b"@ || name == "bdo"@
        || name == "big"@ || name == "br"@ || name == "button"@ || name == "cite"@ || name
        == "code"@ || name == "dfn"@ || name == "em"@ || name == "i"@ || name == "img"@ || name
        == "input"@ || name == "kbd"@ || name == "label"@ || name == "map"@ || name == "pre"@
        || name == "object"@ || name == "output"@ || name == "q"@ || name == "samp"@ || name
        == "script"@ || name == "select"@ || name == "small"@ || name == "span"@ || name
        == "strong"@ || name == "sub"@ || name == "sup"@ || name == "textarea"@ || name
        == "time"@ || name == "tt"@ || name == "var"@
}

/// Whether an element is a tag with an inline name.
pub open spec fn is_inline(e: RenderView) -> bool {
    e is Tag && is_inline_tag(e->Tag_name)
}

/// Whether a list holds a text element.
pub open spec fn has_text(elements: Seq<RenderView>) -> bool
    decreases elements.len(),
{
    elements.len() > 0 && (has_text(elements.drop_last()) || elements.last() is Text)
}

/// A line feed, then two spaces for each level of depth.
pub open spec fn indentation(depth: nat) -> Seq<char>
    decreases depth,
{
    if depth == 0 {
        seq!['\n']
    } else {
        indentation((depth - 1) as nat) + seq![' ', ' ']
    }
}

/// Whether a new line is begun before `e`, which follows the siblings
/// `before`: never at depth 0, never once a text has been met, and never
/// before a text, an inline tag or raw HTML.
pub open spec fn breaks_line(before: Seq<RenderView>, e: RenderView, depth: nat) -> bool {
    depth > 0 && !has_text(before) && !(e is Text) && !is_inline(e) && !(e is Raw)
}

/// An attribute as it is rendered behind the tag name.
pub open spec fn rendered_attribute(a: AttributeView) -> Seq<char> {
    match a.value {
        Some(v) => seq![' '] + a.key + seq!['=', '"'] + escape_attribute(v) + seq!['"'],
        None => seq![' '] + a.key,
    }
}

/// The attributes of a tag as they are rendered, in order.
pub open spec fn rendered_attributes(attributes: Seq<AttributeView>) -> Seq<char>
    decreases attributes.len(),
{
    if attributes.len() == 0 {
        Seq::empty()
    } else {
        rendered_attributes(attributes.drop_last()) + rendered_attribute(attributes.last())
    }
}

/// Whether the character at `i` stays when the lines of `s` are joined by
/// line feeds: a final line feed goes, and so does a carriage return
/// directly before a line feed.
pub open spec fn stays_in_lines(s: Seq<char>, i: int) -> bool {
    if s[i] == '\n' {
        i + 1 < s.len()
    } else if s[i] == '\r' {
        !(i + 1 < s.len() && s[i + 1] == '\n')
    } else {
        true
    }
}

/// The first `n` characters of `s` with its lines joined by line feeds.
pub open spec fn joined_lines_upto(s: Seq<char>, n: int) -> Seq<char>
    decreases n,
{
    if n <= 0 {
        Seq::empty()
    } else if stays_in_lines(s, n - 1) {
        joined_lines_upto(s, n - 1).push(s[n - 1])
    } else {
        joined_lines_upto(s, n - 1)
    }
}

/// The lines of `s`, each ended by `\n` or `\r\n` (the last may be left
/// open), joined by single line feeds.
pub open spec fn joined_lines(s: Seq<char>) -> Seq<char> {
    joined_lines_upto(s, s.len() as int)
}

/// What rendering a list of siblings gives: the text, and whether a line
/// was broken before one of them.
pub struct Rendered {
    pub text: Seq<char>,
    pub indented: bool,
}

/// An element rendered at a depth, or the first void tag in it that has
/// children.
pub open spec fn render_one(e: RenderView, depth: nat) -> Result<Seq<char>, RenderView>
    decreases e,
{
    match e {
        RenderView::Tag { name, attributes, children, void } => {
            let start = seq!['<'] + name + rendered_attributes(attributes) + seq!['>'];
            if void {
                if children.len() > 0 {
                    Err(e)
                } else {
                    Ok(start)
                }
            } else {
                match render_many(children, depth + 1) {
                    Err(bad) => Err(bad),
                    Ok(inner) => Ok(
                        start + inner.text + (if inner.indented {
                            indentation(depth)
                        } else {
                            Seq::empty()
                        }) + seq!['<', '/'] + name + seq!['>'],
                    ),
                }
            }
        },
        RenderView::Text { text } => Ok(joined_lines(escape_text(text))),
        RenderView::Raw { html } => Ok(html),
    }
}

/// A list of siblings rendered at a depth, or the first void tag among
/// them and their descendants that has children.
pub open spec fn render_many(elements: Seq<RenderView>, depth: nat) -> Result<Rendered, RenderView>
    decreases elements,
{
    if elements.len() == 0 {
        Ok(Rendered { text: Seq::empty(), indented: false })
    } else {
        let before = elements.drop_last();
        let e = elements.last();
        match render_many(before, depth) {
            Err(bad) => Err(bad),
            Ok(done) => match render_one(e, depth) {
                Err(bad) => Err(bad),
                Ok(text) => {
                    let breaks = breaks_line(before, e, depth);
                    Ok(
                        Rendered {
                            text: done.text + (if breaks {
                                indentation(depth)
                            } else {
                                Seq::empty()
                            }) + text,
                            indented: done.indented || breaks,
                        },
                    )
                },
            },
        }
    }
}

/// Whether an element can be rendered: no void tag in it has children.
pub open spec fn is_renderable(e: RenderView) -> bool
    decreases e,
{
    match e {
        RenderView::Tag { children, void, .. } => if void {
            children.len() == 0
        } else {
            all_renderable(children)
        },
        _ => true,
    }
}

/// Whether every element of a list can be rendered.
pub open spec fn all_renderable(elements: Seq<RenderView>) -> bool
    decreases elements,
{
    elements.len() == 0 || (all_renderable(elements.drop_last()) && is_renderable(elements.last()))
}

/// Rendering an element succeeds exactly when no void tag in it has
/// children, at whatever depth.
pub proof fn lemma_render_one_succeeds(e: RenderView, depth: nat)
    ensures
        render_one(e, depth) is Ok <==> is_renderable(e),
    decreases e, 0int,
{
    match e {
        RenderView::Tag { children, void, .. } => {
            if !void {
                lemma_render_many_succeeds(children, depth + 1);
            }
        },
        _ => {},
    }
}

/// Rendering a list of siblings succeeds exactly when no void tag in them
/// has children, at whatever depth.
pub proof fn lemma_render_many_succeeds(elements: Seq<RenderView>, depth: nat)
    ensures
        render_many(elements, depth) is Ok <==> all_renderable(elements),
    decreases elements, 1int,
{
    if elements.len() > 0 {
        lemma_render_many_succeeds(elements.drop_last(), depth);
        lemma_render_one_succeeds(elements.last(), depth);
    }
}

/// A failure among the first siblings is the failure of the whole list.
proof fn lemma_render_many_fails_early(elements: Seq<RenderView>, n: int, depth: nat)
    requires
        0 <= n <= elements.len(),
        render_many(elements.take(n), depth) is Err,
    ensures
        render_many(elements, depth) == render_many(elements.take(n), depth),
    decreases elements.len() - n,
{
    if n == elements.len() {
        assert(elements.take(n) =~= elements);
    } else {
        assert(elements.drop_last().take(n) =~= elements.take(n));
        lemma_render_many_fails_early(elements.drop_last(), n, depth);
    }
}

/// A void tag was found to have children.
#[derive(Debug, PartialEq, Eq)]
pub struct RenderError {
    /// A copy of the void tag that has children.
    pub element: RenderElement,
}

/// Appends the attributes of a tag as they are rendered.
fn write_attributes_to(out: &mut String, attributes: &Vec<OwnedAttribute>)
    ensures
        final(out)@ == old(out)@ + rendered_attributes(attribute_views(attributes@)),
{
    let ghost views = attribute_views(attributes@);
    let mut i: usize = 0;
    assert(views.take(0) =~= Seq::empty());
    assert(out@ =~= old(out)@ + rendered_attributes(views.take(0)));
    while i < attributes.len()
        invariant
            i <= attributes.len(),
            views == attribute_views(attributes@),
            out@ == old(out)@ + rendered_attributes(views.take(i as int)),
        decreases attributes.len() - i,
    {
        let a = &attributes[i];
        let ghost before = out@;
        out.push(' ');
        out.append(a.key.as_str());
        match &a.value {
            Some(v) => {
                out.push('=');
                out.push('"');
                let escaped = encode_quoted_attribute(v.as_str());
                out.append(escaped.as_str());
                out.push('"');
            },
            None => {},
        }
        proof {
            assert(views[i as int] == a@);
            assert(out@ =~= before + rendered_attribute(views[i as int]));
            assert(views.take(i + 1).drop_last() =~= views.take(i as int));
            assert(views.take(i + 1).last() == views[i as int]);
            assert(out@ =~= old(out)@ + rendered_attributes(views.take(i + 1)));
        }
        i += 1;
    }
    assert(views.take(i as int) =~= views);
}

/// Appends a text as it is rendered: escaped, its lines joined by line
/// feeds.
fn write_text_to(out: &mut String, text: &str)
    ensures
        final(out)@ == old(out)@ + joined_lines(escape_text(text@)),
{
    let escaped = encode_text(text);
    let chars = chars_of(escaped.as_str());
    let n = chars.len();
    let mut i: usize = 0;
    assert(out@ =~= old(out)@ + joined_lines_upto(chars@, 0));
    while i < n
        invariant
            i <= n,
            n == chars.len(),
            out@ == old(out)@ + joined_lines_upto(chars@, i as int),
        decreases n - i,
    {
        let c = chars[i];
        let stays = if c == '\n' {
            i + 1 < n
        } else if c == '\r' {
            !(i + 1 < n && chars[i + 1] == '\n')
        } else {
            true
        };
        if stays {
            out.push(c);
        }
        assert(out@ =~= old(out)@ + joined_lines_upto(chars@, i + 1));
        i += 1;
    }
}

/// The string that begins a line at a depth.
fn indentation_at(depth: usize) -> (indent: String)
    ensures
        indent@ == indentation(depth as nat),
{
    let mut indent = String::new();
    indent.push('\n');
    assert(indent@ =~= indentation(0));
    let mut i: usize = 0;
    while i < depth
        invariant
            i <= depth,
            indent@ == indentation(i as nat),
        decreases depth - i,
    {
        indent.push(' ');
        indent.push(' ');
        assert(indent@ =~= indentation((i + 1) as nat));
        i += 1;
    }
    indent
}

impl RenderElement {
    /// A copy of this element and of all below it.
    pub fn duplicate(&self) -> (copy: RenderElement)
        ensures
            copy@ == self@,
        decreases self,
    {
        match self {
            RenderElement::Tag { name, attributes, children, void } => {
                let copy = RenderElement::Tag {
                    name: name.clone(),
                    attributes: duplicate_attributes(attributes),
                    children: Self::duplicate_all(children),
                    void: *void,
                };
                proof {
                    lemma_render_children_views(*self);
                    lemma_render_children_views(copy);
                }
                copy
            },
            RenderElement::Text { text } => RenderElement::Text { text: text.clone() },
            RenderElement::Raw { html } => RenderElement::Raw { html: html.clone() },
        }
    }

    /// A copy of a list of elements and of all below them.
    pub fn duplicate_all(elements: &Vec<RenderElement>) -> (copy: Vec<RenderElement>)
        ensures
            render_views(copy@) == render_views(elements@),
        decreases elements,
    {
        let mut copy: Vec<RenderElement> = Vec::new();
        let mut i: usize = 0;
        while i < elements.len()
            invariant
                i <= elements.len(),
                copy.len() == i,
                forall|j: int| 0 <= j < i ==> copy@[j]@ == elements@[j]@,
            decreases elements.len() - i,
        {
            let e = elements[i].duplicate();
            copy.push(e);
            i += 1;
        }
        assert(render_views(copy@) =~= render_views(elements@));
        copy
    }

    /// This element written as an authored one.
    pub fn into_element(self) -> (e: OwnedElement)
        ensures
            e@ == as_element(self@),
        decreases self,
    {
        proof {
            lemma_render_children_views(self);
        }
        match self {
            RenderElement::Tag { name, attributes, children, void } => {
                let e = OwnedElement::Tag {
                    name,
                    attributes,
                    children: Self::into_elements(children),
                    void,
                };
                proof {
                    lemma_children_views(e);
                }
                e
            },
            RenderElement::Text { text } => OwnedElement::Text { text },
            RenderElement::Raw { html } => OwnedElement::Raw { html },
        }
    }

    /// A list of elements written as authored ones.
    pub fn into_elements(elements: Vec<RenderElement>) -> (result: Vec<OwnedElement>)
        ensures
            element_views(result@) == as_elements(render_views(elements@)),
        decreases elements,
    {
        let mut result: Vec<OwnedElement> = Vec::new();
        let ghost all = elements@;
        let ghost views = render_views(elements@);
        assert(views.take(0) =~= Seq::empty());
        assert(element_views(result@) =~= as_elements(views.take(0)));
        for r in it: elements
            invariant
                it.seq() == all,
                views == render_views(all),
                element_views(result@) == as_elements(views.take(it.index() as int)),
        {
            let ghost idx = it.index() as int;
            let ghost before = element_views(result@);
            proof {
                assert(r == all[idx]);
                assert(views.take(idx + 1).drop_last() =~= views.take(idx));
                assert(views.take(idx + 1).last() == r@);
                assert(views.take(idx + 1).len() > 0);
            }
            let e = r.into_element();
            result.push(e);
            assert(element_views(result@) =~= before.push(e@));
        }
        assert(views.take(all.len() as int) =~= views);
        result
    }

    /// Convert a list of [`OwnedElement`]s into a list of [`RenderElement`]s.
    ///
    /// Empty elements and lone line feeds are dropped, and the children of
    /// a fragment take the fragment's place.
    pub fn from_elements(elements: Vec<OwnedElement>) -> (result: Vec<RenderElement>)
        ensures
            render_views(result@) == normalize(element_views(elements@)),
        decreases elements,
    {
        let mut result: Vec<RenderElement> = Vec::new();
        let ghost all = elements@;
        let ghost views = element_views(elements@);
        assert(views.take(0) =~= Seq::empty());
        assert(render_views(result@) =~= normalize(views.take(0)));
        for e in it: elements
            invariant
                it.seq() == all,
                views == element_views(all),
                render_views(result@) == normalize(views.take(it.index() as int)),
        {
            let ghost idx = it.index() as int;
            let ghost before = result@;
            proof {
                assert(e == all[idx]);
                assert(views.take(idx + 1).drop_last() =~= views.take(idx));
                assert(views.take(idx + 1).last() == e@);
                lemma_children_views(e);
                assert(views.take(idx + 1).len() > 0);
                assert(normalize(views.take(idx + 1)) == normalize(views.take(idx))
                    + normalize_one(e@));
            }
            let ghost ev = e@;
            match e {
                OwnedElement::Empty => {
                    assert(normalize_one(ev) =~= Seq::<RenderView>::empty());
                    assert(render_views(result@) =~= normalize(views.take(idx + 1)));
                },
                OwnedElement::Tag { name, attributes, children, void } => {
                    let inner = Self::from_elements(children);
                    let tag = RenderElement::Tag { name, attributes, children: inner, void };
                    proof {
                        lemma_render_children_views(tag);
                    }
                    assert(normalize_one(ev) =~= seq![tag@]);
                    result.push(tag);
                    assert(render_views(result@) =~= render_views(before).push(tag@));
                    assert(render_views(result@) =~= normalize(views.take(idx + 1)));
                },
                OwnedElement::Fragment { children } => {
                    let mut inner = Self::from_elements(children);
                    let ghost inner_before = inner@;
                    assert(normalize_one(ev) == render_views(inner_before));
                    result.append(&mut inner);
                    assert(render_views(result@) =~= render_views(before) + render_views(
                        inner_before,
                    ));
                    assert(render_views(result@) =~= normalize(views.take(idx + 1)));
                },
                OwnedElement::Text { text } => {
                    proof {
                        reveal_strlit("\n");
                        assert("\n"@ =~= line_feed());
                    }
                    if text.as_str().eq("\n") {
                        assert(normalize_one(ev) =~= Seq::<RenderView>::empty());
                        assert(render_views(result@) =~= normalize(views.take(idx + 1)));
                    } else {
                        let t = RenderElement::Text { text };
                        assert(normalize_one(ev) =~= seq![t@]);
                        result.push(t);
                        assert(render_views(result@) =~= render_views(before).push(t@));
                        assert(render_views(result@) =~= normalize(views.take(idx + 1)));
                    }
                },
                OwnedElement::Raw { html } => {
                    let r = RenderElement::Raw { html };
                    assert(normalize_one(ev) =~= seq![r@]);
                    result.push(r);
                    assert(render_views(result@) =~= render_views(before).push(r@));
                    assert(render_views(result@) =~= normalize(views.take(idx + 1)));
                },
            }
        }
        assert(views.take(all.len() as int) =~= views);
        result
    }

    /// Get the tag name of the element if it is a [`RenderElement::Tag`].
    pub fn tag(&self) -> (name: Option<&str>)
        ensures
            match name {
                Some(n) => self@ is Tag && n@ == self@->Tag_name,
                None => !(self@ is Tag),
            },
    {
        match self {
            RenderElement::Tag { name, .. } => Some(name.as_str()),
            _ => None,
        }
    }

    /// Returns `true` if the element-with-tag is an inline element.
    pub fn is_inline_element(&self) -> (b: bool)
        ensures
            b == is_inline(self@),
    {
        match self.tag() {
            Some(t) => t.eq("a") || t.eq("abbr") || t.eq("acronym") || t.eq("b") || t.eq("bdo")
                || t.eq("big") || t.eq("br") || t.eq("button") || t.eq("cite") || t.eq("code")
                || t.eq("dfn") || t.eq("em") || t.eq("i") || t.eq("img") || t.eq("input") || t.eq(
                "kbd",
            ) || t.eq("label") || t.eq("map") || t.eq("pre") || t.eq("object") || t.eq("output")
                || t.eq("q") || t.eq("samp") || t.eq("script") || t.eq("select") || t.eq("small")
                || t.eq("span") || t.eq("strong") || t.eq("sub") || t.eq("sup") || t.eq("textarea")
                || t.eq("time") || t.eq("tt") || t.eq("var"),
            None => false,
        }
    }

    /// Returns `true` if the element is [`RenderElement::Raw`].
    #[must_use]
    pub fn is_raw(&self) -> (b: bool)
        ensures
            b == (self@ is Raw),
    {
        matches!(self, RenderElement::Raw { .. })
    }

    /// Returns `true` if the element is [`RenderElement::Text`].
    #[must_use]
    pub fn is_text(&self) -> (b: bool)
        ensures
            b == (self@ is Text),
    {
        matches!(self, RenderElement::Text { .. })
    }

    /// Appends the element as rendered at `depth`, where `indent` begins a
    /// line at that depth.
    fn write_at(&self, out: &mut String, indent: &String, Ghost(depth): Ghost<nat>) -> (result:
        Result<(), RenderError>)
        requires
            indent@ == indentation(depth),
        ensures
            match result {
                Ok(()) => render_one(self@, depth) == Ok::<Seq<char>, RenderView>(
                    final(out)@.skip(old(out)@.len() as int),
                ) && final(out)@ == old(out)@ + final(out)@.skip(old(out)@.len() as int),
                Err(e) => render_one(self@, depth) == Err::<Seq<char>, RenderView>(e.element@)
                    && old(out)@.is_prefix_of(final(out)@),
            },
        decreases self,
    {
        match self {
            RenderElement::Tag { name, attributes, children, void } => {
                proof {
                    lemma_render_children_views(*self);
                }
                out.push('<');
                out.append(name.as_str());
                write_attributes_to(out, attributes);
                out.push('>');
                let ghost start = seq!['<'] + name@ + rendered_attributes(
                    attribute_views(attributes@),
                ) + seq!['>'];
                assert(out@ =~= old(out)@ + start);
                if *void {
                    if children.len() > 0 {
                        return Err(RenderError { element: self.duplicate() });
                    }
                    assert(out@.skip(old(out)@.len() as int) =~= start);
                    return Ok(());
                }
                let mut deeper = indent.clone();
                deeper.push(' ');
                deeper.push(' ');
                assert(deeper@ =~= indentation(depth + 1));
                let ghost before_children = out@;
                match Self::write_many_at(out, children, &deeper, true, Ghost(depth + 1)) {
                    Err(e) => {
                        return Err(e);
                    },
                    Ok(indented) => {
                        let ghost inner = out@.skip(before_children.len() as int);
                        if indented {
                            out.append(indent.as_str());
                        }
                        out.push('<');
                        out.push('/');
                        out.append(name.as_str());
                        out.push('>');
                        assert(out@.skip(old(out)@.len() as int) =~= start + inner + (if indented {
                            indentation(depth)
                        } else {
                            Seq::empty()
                        }) + seq!['<', '/'] + name@ + seq!['>']);
                        assert(out@ =~= old(out)@ + out@.skip(old(out)@.len() as int));
                        return Ok(());
                    },
                }
            },
            RenderElement::Text { text } => {
                write_text_to(out, text.as_str());
                assert(out@.skip(old(out)@.len() as int) =~= joined_lines(escape_text(text@)));
                Ok(())
            },
            RenderElement::Raw { html } => {
                out.append(html.as_str());
                assert(out@.skip(old(out)@.len() as int) =~= html@);
                Ok(())
            },
        }
    }

    /// Appends the siblings as rendered at `depth`, where `indent` begins
    /// a line at that depth, and says whether a line was broken.
    fn write_many_at(
        out: &mut String,
        elements: &Vec<RenderElement>,
        indent: &String,
        nested: bool,
        Ghost(depth): Ghost<nat>,
    ) -> (result: Result<bool, RenderError>)
        requires
            indent@ == indentation(depth),
            nested == (depth > 0),
        ensures
            match result {
                Ok(indented) => render_many(render_views(elements@), depth) == Ok::<
                    Rendered,
                    RenderView,
                >(Rendered { text: final(out)@.skip(old(out)@.len() as int), indented })
                    && final(out)@ == old(out)@ + final(out)@.skip(old(out)@.len() as int),
                Err(e) => render_many(render_views(elements@), depth) == Err::<
                    Rendered,
                    RenderView,
                >(e.element@) && old(out)@.is_prefix_of(final(out)@),
            },
        decreases elements,
    {
        let ghost views = render_views(elements@);
        let mut indented = false;
        let mut met_text = false;
        let mut i: usize = 0;
        assert(views.take(0) =~= Seq::empty());
        assert(out@.skip(old(out)@.len() as int) =~= Seq::empty());
        while i < elements.len()
            invariant
                i <= elements.len(),
                views == render_views(elements@),
                indent@ == indentation(depth),
                nested == (depth > 0),
                met_text == has_text(views.take(i as int)),
                old(out)@.is_prefix_of(out@),
                render_many(views.take(i as int), depth) == Ok::<Rendered, RenderView>(
                    Rendered { text: out@.skip(old(out)@.len() as int), indented },
                ),
            decreases elements.len() - i,
        {
            let e = &elements[i];
            let ghost before = views.take(i as int);
            let ghost done = out@.skip(old(out)@.len() as int);
            proof {
                assert(views.take(i + 1).drop_last() =~= before);
                assert(views.take(i + 1).last() == e@);
            }
            let breaks = nested && !met_text && !e.is_text() && !e.is_inline_element()
                && !e.is_raw();
            assert(breaks == breaks_line(before, e@, depth));
            if e.is_text() {
                met_text = true;
            }
            if breaks {
                out.append(indent.as_str());
                indented = true;
            }
            let ghost mid = out@;
            match e.write_at(out, indent, Ghost(depth)) {
                Err(bad) => {
                    proof {
                        assert(render_many(views.take(i + 1), depth) == Err::<Rendered, RenderView>(
                            bad.element@,
                        ));
                        lemma_render_many_fails_early(views, i + 1, depth);
                    }
                    return Err(bad);
                },
                Ok(()) => {
                    proof {
                        let text = out@.skip(mid.len() as int);
                        assert(out@.skip(old(out)@.len() as int) =~= done + (if breaks {
                            indentation(depth)
                        } else {
                            Seq::empty()
                        }) + text);
                    }
                },
            }
            i += 1;
        }
        assert(views.take(i as int) =~= views);
        assert(out@ =~= old(out)@ + out@.skip(old(out)@.len() as int));
        Ok(indented)
    }

    /// Write the element to the end of a string, as rendered at `depth`.
    ///
    /// On a void tag that has children nothing is promised of what has
    /// been appended but that the string still begins as it did.
    pub fn write(&self, out: &mut String, depth: usize) -> (result: Result<(), RenderError>)
        ensures
            match result {
                Ok(()) => render_one(self@, depth as nat) matches Ok(text)
                    && final(out)@ == old(out)@ + text,
                Err(e) => render_one(self@, depth as nat) == Err::<Seq<char>, RenderView>(
                    e.element@,
                ) && old(out)@.is_prefix_of(final(out)@),
            },
            result is Ok <==> is_renderable(self@),
    {
        proof {
            lemma_render_one_succeeds(self@, depth as nat);
        }
        let indent = indentation_at(depth);
        self.write_at(out, &indent, Ghost(depth as nat))
    }

    /// Write a list of [`RenderElement`]s to the end of a string, as
    /// rendered at `depth`.
    ///
    /// Returns whether or not the result was indented.
    pub fn write_many(out: &mut String, elements: &Vec<RenderElement>, depth: usize) -> (result:
        Result<bool, RenderError>)
        ensures
            match result {
                Ok(indented) => render_many(render_views(elements@), depth as nat) matches Ok(done)
                    && done.indented == indented && final(out)@ == old(out)@ + done.text,
                Err(e) => render_many(render_views(elements@), depth as nat) == Err::<
                    Rendered,
                    RenderView,
                >(e.element@) && old(out)@.is_prefix_of(final(out)@),
            },
            result is Ok <==> all_renderable(render_views(elements@)),
    {
        proof {
            lemma_render_many_succeeds(render_views(elements@), depth as nat);
        }
        let indent = indentation_at(depth);
        Self::write_many_at(out, elements, &indent, depth > 0, Ghost(depth as nat))
    }

    /// Write the element to a string.
    pub fn write_to_string(&self) -> (result: Result<String, RenderError>)
        ensures
            match result {
                Ok(text) => render_one(self@, 0) == Ok::<Seq<char>, RenderView>(text@),
                Err(e) => render_one(self@, 0) == Err::<Seq<char>, RenderView>(e.element@),
            },
            result is Ok <==> is_renderable(self@),
    {
        let mut out = String::new();
        match self.write(&mut out, 0) {
            Ok(()) => {
                assert(out@ =~= render_one(self@, 0)->Ok_0);
                Ok(out)
            },
            Err(e) => Err(e),
        }
    }

    /// Write a list of [`RenderElement`]s to a string.
    pub fn write_many_to_string(elements: &Vec<RenderElement>) -> (result: Result<
        String,
        RenderError,
    >)
        ensures
            match result {
                Ok(text) => render_many(render_views(elements@), 0) matches Ok(done) && done.text
                    == text@,
                Err(e) => render_many(render_views(elements@), 0) == Err::<Rendered, RenderView>(
                    e.element@,
                ),
            },
            result is Ok <==> all_renderable(render_views(elements@)),
    {
        let mut out = String::new();
        match Self::write_many(&mut out, elements, 0) {
            Ok(_) => {
                assert(out@ =~= render_many(render_views(elements@), 0)->Ok_0.text);
                Ok(out)
            },
            Err(e) => Err(e),
        }
    }
}

} // verus!
