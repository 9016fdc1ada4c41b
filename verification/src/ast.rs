//! What the markup parser yields: a tree of elements, fragments, texts and
//! interpolations.

use crate::text::{chars_of, unicode_uppercase};
use vstd::prelude::*;
use vstd::string::{StrSliceExecFns, StringExecFns};

verus! {

/// Represents an attribute value
#[derive(Debug, Clone, PartialEq, Eq)]
pub enum AttributeValue {
    /// A string literal value
    Literal(String),
    /// The source text of an expression (only a code generator gives it a meaning)
    Expression(String),
}

/// What an attribute value holds.
pub enum AttributeValueView {
    Literal(Seq<char>),
    Expression(Seq<char>),
}

impl View for AttributeValue {
    type V = AttributeValueView;

    open spec fn view(&self) -> AttributeValueView {
        match self {
            AttributeValue::Literal(s) => AttributeValueView::Literal(s@),
            AttributeValue::Expression(s) => AttributeValueView::Expression(s@),
        }
    }
}

impl AttributeValue {
    /// The string that a literal value stands for. An expression has none:
    /// it is no input of this function.
    pub fn to_string_value(&self) -> (s: String)
        requires
            self@ is Literal,
        ensures
            s@ == self@->Literal_0,
    {
        match self {
            AttributeValue::Literal(s) => s.clone(),
            AttributeValue::Expression(_) => String::new(),
        }
    }
}

/// Represents an HTML attribute in the AST
#[derive(Debug, Clone, PartialEq, Eq)]
pub enum AstAttribute {
    /// A named attribute with an optional value
    Named {
        name: String,
        value: Option<AttributeValue>,
    },
    /// The source text of an interpolated attribute expression (only a code
    /// generator gives it a meaning)
    Interpolated(String),
}

/// What an attribute of the AST holds.
pub enum AstAttributeView {
    Named { name: Seq<char>, value: Option<AttributeValueView> },
    Interpolated(Seq<char>),
}

impl View for AstAttribute {
    type V = AstAttributeView;

    open spec fn view(&self) -> AstAttributeView {
        match self {
            AstAttribute::Named { name, value } => AstAttributeView::Named {
                name: name@,
                value: match value {
                    Some(v) => Some(v@),
                    None => None,
                },
            },
            AstAttribute::Interpolated(body) => AstAttributeView::Interpolated(body@),
        }
    }
}

impl AstAttribute {
    /// The attribute with the given name and value.
    pub fn named(name: String, value: Option<AttributeValue>) -> (a: AstAttribute)
        ensures
            a@ == (AstAttributeView::Named {
                name: name@,
                value: match value {
                    Some(v) => Some(v@),
                    None => None,
                },
            }),
    {
        AstAttribute::Named { name, value }
    }
}

/// What a list of attributes of the AST holds.
pub open spec fn ast_attribute_views(attributes: Seq<AstAttribute>) -> Seq<AstAttributeView> {
    Seq::new(attributes.len(), |i: int| attributes[i]@)
}

/// Represents a node in the HTML AST
#[derive(Debug, PartialEq, Eq)]
pub enum AstNode {
    /// An HTML element with tag name, attributes, and children
    Element {
        name: String,
        attributes: Vec<AstAttribute>,
        children: Vec<AstNode>,
        void: bool,
    },
    /// A fragment containing multiple children without a wrapper element
    Fragment(Vec<AstNode>),
    /// An interpolated expression, as source text (only a code generator
    /// gives it a meaning)
    Expression { body: String, iterator: bool },
    /// Text content
    Text(String),
}

/// What a node of the AST holds.
pub enum AstNodeView {
    Element {
        name: Seq<char>,
        attributes: Seq<AstAttributeView>,
        children: Seq<AstNodeView>,
        void: bool,
    },
    Fragment(Seq<AstNodeView>),
    Expression { body: Seq<char>, iterator: bool },
    Text(Seq<char>),
}

impl View for AstNode {
    type V = AstNodeView;

    open spec fn view(&self) -> AstNodeView
        decreases self,
    {
        match self {
            AstNode::Element { name, attributes, children, void } => AstNodeView::Element {
                name: name@,
                attributes: ast_attribute_views(attributes@),
                children: Seq::new(
                    children@.len(),
                    |i: int|
                        if 0 <= i < children@.len() {
                            children@[i]@
                        } else {
                            AstNodeView::Text(Seq::empty())
                        },
                ),
                void: *void,
            },
            AstNode::Fragment(children) => AstNodeView::Fragment(
                Seq::new(
                    children@.len(),
                    |i: int|
                        if 0 <= i < children@.len() {
                            children@[i]@
                        } else {
                            AstNodeView::Text(Seq::empty())
                        },
                ),
            ),
            AstNode::Expression { body, iterator } => AstNodeView::Expression {
                body: body@,
                iterator: *iterator,
            },
            AstNode::Text(text) => AstNodeView::Text(text@),
        }
    }
}

/// What a list of nodes of the AST holds.
pub open spec fn ast_node_views(nodes: Seq<AstNode>) -> Seq<AstNodeView> {
    Seq::new(nodes.len(), |i: int| nodes[i]@)
}

/// The children of an element or a fragment, as its view has them.
pub proof fn lemma_ast_children_views(node: AstNode)
    ensures
        match node {
            AstNode::Element { children, .. } => node@->Element_children == ast_node_views(
                children@,
            ),
            AstNode::Fragment(children) => node@->Fragment_0 == ast_node_views(children@),
            _ => true,
        },
{
    match node {
        AstNode::Element { children, .. } => {
            assert(node@->Element_children =~= ast_node_views(children@));
        },
        AstNode::Fragment(children) => {
            assert(node@->Fragment_0 =~= ast_node_views(children@));
        },
        _ => {},
    }
}

/// Whether a tag name refers to a component: it begins with an uppercase
/// letter.
pub open spec fn names_component(name: Seq<char>) -> bool {
    name.len() > 0 && unicode_uppercase(name[0])
}

/// Whether a tag name refers to a custom component rather than to an HTML
/// tag.
pub fn is_custom_component(name: &str) -> (b: bool)
    ensures
        b == names_component(name@),
{
    !name.is_empty() && name.get_char(0).is_uppercase()
}

/// The name of the type that holds the properties of a component: the
/// name of the component, then `Props`.
pub open spec fn props_name_of(component: Seq<char>) -> Seq<char> {
    component + "Props"@
}

/// The name of the type that holds the properties of a component.
pub fn props_name(component: &str) -> (name: String)
    ensures
        name@ == props_name_of(component@),
{
    let mut name = component.to_owned();
    name.append("Props");
    name
}

/// The field of a component's properties that an attribute sets: the name
/// of the attribute with `_` for each `-`.
pub open spec fn prop_field_of(attribute: Seq<char>) -> Seq<char> {
    Seq::new(
        attribute.len(),
        |i: int|
            if attribute[i] == '-' {
                '_'
            } else {
                attribute[i]
            },
    )
}

/// The field of a component's properties that an attribute sets.
pub fn prop_field(attribute: &str) -> (field: String)
    ensures
        field@ == prop_field_of(attribute@),
{
    let chars = chars_of(attribute);
    let mut field = String::new();
    let mut i: usize = 0;
    while i < chars.len()
        invariant
            i <= chars.len(),
            chars@ == attribute@,
            field@ == prop_field_of(chars@.take(i as int)),
        decreases chars.len() - i,
    {
        let c = chars[i];
        if c == '-' {
            field.push('_');
        } else {
            field.push(c);
        }
        assert(field@ =~= prop_field_of(chars@.take(i + 1)));
        i += 1;
    }
    assert(chars@.take(i as int) =~= chars@);
    field
}

impl AstNode {
    /// Check if this node is a custom component (starts with uppercase letter)
    pub fn is_custom_component(&self) -> (b: bool)
        ensures
            b == (self@ is Element && names_component(self@->Element_name)),
    {
        match self {
            AstNode::Element { name, .. } => is_custom_component(name.as_str()),
            _ => false,
        }
    }

    /// Get the element name if this is an element node
    pub fn element_name(&self) -> (name: Option<&str>)
        ensures
            match name {
                Some(n) => self@ is Element && n@ == self@->Element_name,
                None => !(self@ is Element),
            },
    {
        match self {
            AstNode::Element { name, .. } => Some(name.as_str()),
            _ => None,
        }
    }
}

} // verus!
