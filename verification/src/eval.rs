//! From an AST to an authored tree, for markup that comes without code:
//! interpolations have no meaning there and are refused.

use crate::ast::{
    ast_attribute_views, ast_node_views, lemma_ast_children_views, AstAttribute, AstAttributeView,
    AstNode, AstNodeView, AttributeValue, AttributeValueView,
};
use crate::attribute::{attribute_views, AttributeView, OwnedAttribute};
use crate::element::{element_views, lemma_children_views, ElementView, OwnedElement};
use crate::parser::{parse_markup, ParseError, ParseErrorView};
use vstd::prelude::*;
use vstd::string::StringExecFns;

verus! {

/// Error type for AST evaluation
#[derive(Debug, Clone, Copy, PartialEq, Eq, Structural)]
pub enum EvalError {
    /// Interpolation is not supported at runtime
    InterpolationNotSupported,
    /// Expression attributes are not supported at runtime
    ExpressionAttributeNotSupported,
}

/// The words for each evaluation error.
pub open spec fn eval_message_of(e: EvalError) -> Seq<char> {
    match e {
        EvalError::InterpolationNotSupported =>
            "Interpolation is not supported in runtime HTML evaluation"@,
        EvalError::ExpressionAttributeNotSupported =>
            "Expression attributes are not supported in runtime HTML evaluation"@,
    }
}

impl EvalError {
    /// The error in words.
    pub fn message(&self) -> (m: String)
        ensures
            m@ == eval_message_of(*self),
    {
        match self {
            EvalError::InterpolationNotSupported =>
                "Interpolation is not supported in runtime HTML evaluation".to_owned(),
            EvalError::ExpressionAttributeNotSupported =>
                "Expression attributes are not supported in runtime HTML evaluation".to_owned(),
        }
    }
}

/// Error type for runtime HTML parsing
#[derive(Debug, Clone, PartialEq, Eq)]
pub enum ParseHtmlError {
    /// Error parsing the HTML syntax
    Parse(ParseError),
    /// Error evaluating the AST (e.g., interpolation not supported)
    Eval(EvalError),
}

/// What an error of runtime HTML parsing holds.
pub enum ParseHtmlErrorView {
    Parse(ParseErrorView),
    Eval(EvalError),
}

impl View for ParseHtmlError {
    type V = ParseHtmlErrorView;

    open spec fn view(&self) -> ParseHtmlErrorView {
        match self {
            ParseHtmlError::Parse(e) => ParseHtmlErrorView::Parse(e@),
            ParseHtmlError::Eval(e) => ParseHtmlErrorView::Eval(*e),
        }
    }
}

/// The words for an error of runtime HTML parsing: which stage failed,
/// then that stage's own words.
pub open spec fn parse_html_message_of(e: ParseHtmlErrorView) -> Seq<char> {
    match e {
        ParseHtmlErrorView::Parse(p) => "Parse error: "@ + p.message,
        ParseHtmlErrorView::Eval(v) => "Evaluation error: "@ + eval_message_of(v),
    }
}

impl ParseHtmlError {
    /// The error in words.
    pub fn message(&self) -> (m: String)
        ensures
            m@ == parse_html_message_of(self@),
    {
        match self {
            ParseHtmlError::Parse(e) => {
                let mut m = "Parse error: ".to_owned();
                m.append(e.message.as_str());
                m
            },
            ParseHtmlError::Eval(e) => {
                let mut m = "Evaluation error: ".to_owned();
                let words = e.message();
                m.append(words.as_str());
                m
            },
        }
    }
}

/// What an attribute of the AST becomes, or why it has no meaning
/// without code.
pub open spec fn eval_attribute_of(a: AstAttributeView) -> Result<AttributeView, EvalError> {
    match a {
        AstAttributeView::Named { name, value } => match value {
            None => Ok(AttributeView { key: name, value: None }),
            Some(AttributeValueView::Literal(text)) => Ok(
                AttributeView { key: name, value: Some(text) },
            ),
            Some(AttributeValueView::Expression(_)) => Err(
                EvalError::ExpressionAttributeNotSupported,
            ),
        },
        AstAttributeView::Interpolated(_) => Err(EvalError::InterpolationNotSupported),
    }
}

/// What the attributes of a tag become, or the first error among them.
pub open spec fn eval_attributes_of(attributes: Seq<AstAttributeView>) -> Result<
    Seq<AttributeView>,
    EvalError,
>
    decreases attributes.len(),
{
    if attributes.len() == 0 {
        Ok(Seq::empty())
    } else {
        match eval_attributes_of(attributes.drop_last()) {
            Err(e) => Err(e),
            Ok(done) => match eval_attribute_of(attributes.last()) {
                Err(e) => Err(e),
                Ok(a) => Ok(done.push(a)),
            },
        }
    }
}

/// What a node of the AST becomes, or the first error in it: in a tag the
/// attributes come before the children.
pub open spec fn eval_node_of(node: AstNodeView) -> Result<ElementView, EvalError>
    decreases node,
{
    match node {
        AstNodeView::Element { name, attributes, children, void } => match eval_attributes_of(
            attributes,
        ) {
            Err(e) => Err(e),
            Ok(attributes) => match eval_nodes_of(children) {
                Err(e) => Err(e),
                Ok(children) => Ok(ElementView::Tag { name, attributes, children, void }),
            },
        },
        AstNodeView::Fragment(children) => match eval_nodes_of(children) {
            Err(e) => Err(e),
            Ok(children) => Ok(ElementView::Fragment { children }),
        },
        AstNodeView::Expression { .. } => Err(EvalError::InterpolationNotSupported),
        AstNodeView::Text(text) => Ok(ElementView::Text { text }),
    }
}

/// What a list of nodes becomes, or the first error among them.
pub open spec fn eval_nodes_of(nodes: Seq<AstNodeView>) -> Result<Seq<ElementView>, EvalError>
    decreases nodes,
{
    if nodes.len() == 0 {
        Ok(Seq::empty())
    } else {
        match eval_nodes_of(nodes.drop_last()) {
            Err(e) => Err(e),
            Ok(done) => match eval_node_of(nodes.last()) {
                Err(e) => Err(e),
                Ok(e) => Ok(done.push(e)),
            },
        }
    }
}

/// The tree that a markup text without code stands for, or the first
/// error: one of the syntax, or else one of the evaluation.
pub open spec fn parse_html_of(s: Seq<char>) -> Result<ElementView, ParseHtmlErrorView> {
    match parse_markup(s) {
        Err(e) => Err(ParseHtmlErrorView::Parse(e)),
        Ok(node) => match eval_node_of(node) {
            Err(e) => Err(ParseHtmlErrorView::Eval(e)),
            Ok(element) => Ok(element),
        },
    }
}

/// Whether an attribute of the AST has a meaning without code: it is
/// named, and its value, if it has one, is a literal.
pub open spec fn is_static_attribute(a: AstAttributeView) -> bool {
    match a {
        AstAttributeView::Named { value, .. } => !(value matches Some(
            AttributeValueView::Expression(_),
        )),
        AstAttributeView::Interpolated(_) => false,
    }
}

/// Whether a node of the AST has a meaning without code: no interpolation
/// stands in it, neither as a node nor in an attribute.
pub open spec fn is_static(node: AstNodeView) -> bool
    decreases node,
{
    match node {
        AstNodeView::Element { attributes, children, .. } => {
            &&& forall|i: int| 0 <= i < attributes.len() ==> is_static_attribute(attributes[i])
            &&& all_static(children)
        },
        AstNodeView::Fragment(children) => all_static(children),
        AstNodeView::Expression { .. } => false,
        AstNodeView::Text(_) => true,
    }
}

/// Whether every node of a list has a meaning without code.
pub open spec fn all_static(nodes: Seq<AstNodeView>) -> bool
    decreases nodes,
{
    nodes.len() == 0 || (all_static(nodes.drop_last()) && is_static(nodes.last()))
}

proof fn lemma_eval_attributes_succeed(attributes: Seq<AstAttributeView>)
    ensures
        eval_attributes_of(attributes) is Ok <==> forall|i: int|
            0 <= i < attributes.len() ==> is_static_attribute(attributes[i]),
    decreases attributes.len(),
{
    if attributes.len() > 0 {
        let init = attributes.drop_last();
        lemma_eval_attributes_succeed(init);
        if eval_attributes_of(attributes) is Ok {
            assert forall|i: int| 0 <= i < attributes.len() implies is_static_attribute(
                attributes[i],
            ) by {
                if i < init.len() {
                    assert(init[i] == attributes[i]);
                }
            }
        }
        if forall|i: int| 0 <= i < attributes.len() ==> is_static_attribute(attributes[i]) {
            assert forall|i: int| 0 <= i < init.len() implies is_static_attribute(init[i]) by {
                assert(init[i] == attributes[i]);
            }
            assert(is_static_attribute(attributes.last()));
        }
    }
}

/// Evaluating a node succeeds exactly when no interpolation stands in it.
pub proof fn lemma_eval_node_succeeds(node: AstNodeView)
    ensures
        eval_node_of(node) is Ok <==> is_static(node),
    decreases node, 0int,
{
    match node {
        AstNodeView::Element { attributes, children, .. } => {
            lemma_eval_attributes_succeed(attributes);
            lemma_eval_nodes_succeed(children);
        },
        AstNodeView::Fragment(children) => {
            lemma_eval_nodes_succeed(children);
        },
        _ => {},
    }
}

/// Evaluating a list of nodes succeeds exactly when no interpolation
/// stands in them.
pub proof fn lemma_eval_nodes_succeed(nodes: Seq<AstNodeView>)
    ensures
        eval_nodes_of(nodes) is Ok <==> all_static(nodes),
    decreases nodes, 1int,
{
    if nodes.len() > 0 {
        lemma_eval_nodes_succeed(nodes.drop_last());
        lemma_eval_node_succeeds(nodes.last());
    }
}

proof fn lemma_eval_attributes_fail_early(attributes: Seq<AstAttributeView>, n: int)
    requires
        0 <= n <= attributes.len(),
        eval_attributes_of(attributes.take(n)) is Err,
    ensures
        eval_attributes_of(attributes) == eval_attributes_of(attributes.take(n)),
    decreases attributes.len() - n,
{
    if n == attributes.len() {
        assert(attributes.take(n) =~= attributes);
    } else {
        assert(attributes.drop_last().take(n) =~= attributes.take(n));
        lemma_eval_attributes_fail_early(attributes.drop_last(), n);
    }
}

proof fn lemma_eval_nodes_fail_early(nodes: Seq<AstNodeView>, n: int)
    requires
        0 <= n <= nodes.len(),
        eval_nodes_of(nodes.take(n)) is Err,
    ensures
        eval_nodes_of(nodes) == eval_nodes_of(nodes.take(n)),
    decreases nodes.len() - n,
{
    if n == nodes.len() {
        assert(nodes.take(n) =~= nodes);
    } else {
        assert(nodes.drop_last().take(n) =~= nodes.take(n));
        lemma_eval_nodes_fail_early(nodes.drop_last(), n);
    }
}

/// Convert an AST attribute to a runtime Attribute
pub fn eval_attribute(attr: &AstAttribute) -> (r: Result<OwnedAttribute, EvalError>)
    ensures
        match r {
            Ok(a) => eval_attribute_of(attr@) == Ok::<AttributeView, EvalError>(a@),
            Err(e) => eval_attribute_of(attr@) == Err::<AttributeView, EvalError>(e),
        },
{
    match attr {
        AstAttribute::Named { name, value } => match value {
            None => Ok(OwnedAttribute { key: name.clone(), value: None }),
            Some(AttributeValue::Literal(text)) => Ok(
                OwnedAttribute { key: name.clone(), value: Some(text.clone()) },
            ),
            Some(AttributeValue::Expression(_)) => Err(EvalError::ExpressionAttributeNotSupported),
        },
        AstAttribute::Interpolated(_) => Err(EvalError::InterpolationNotSupported),
    }
}

/// Convert the attributes of a tag of the AST to runtime attributes.
pub fn eval_attributes(attributes: &Vec<AstAttribute>) -> (r: Result<
    Vec<OwnedAttribute>,
    EvalError,
>)
    ensures
        match r {
            Ok(done) => eval_attributes_of(ast_attribute_views(attributes@)) == Ok::<
                Seq<AttributeView>,
                EvalError,
            >(attribute_views(done@)),
            Err(e) => eval_attributes_of(ast_attribute_views(attributes@)) == Err::<
                Seq<AttributeView>,
                EvalError,
            >(e),
        },
{
    let ghost views = ast_attribute_views(attributes@);
    let mut done: Vec<OwnedAttribute> = Vec::new();
    let mut i: usize = 0;
    assert(views.take(0) =~= Seq::empty());
    assert(attribute_views(done@) =~= Seq::empty());
    while i < attributes.len()
        invariant
            i <= attributes.len(),
            views == ast_attribute_views(attributes@),
            eval_attributes_of(views.take(i as int)) == Ok::<Seq<AttributeView>, EvalError>(
                attribute_views(done@),
            ),
        decreases attributes.len() - i,
    {
        proof {
            assert(views.take(i + 1).drop_last() =~= views.take(i as int));
            assert(views.take(i + 1).last() == attributes@[i as int]@);
        }
        match eval_attribute(&attributes[i]) {
            Err(e) => {
                proof {
                    lemma_eval_attributes_fail_early(views, i + 1);
                }
                return Err(e);
            },
            Ok(a) => {
                let ghost before = attribute_views(done@);
                done.push(a);
                assert(attribute_views(done@) =~= before.push(a@));
            },
        }
        i += 1;
    }
    assert(views.take(i as int) =~= views);
    Ok(done)
}

/// Convert an AST node to a runtime Element
pub fn eval_node(node: &AstNode) -> (r: Result<OwnedElement, EvalError>)
    ensures
        match r {
            Ok(element) => eval_node_of(node@) == Ok::<ElementView, EvalError>(element@),
            Err(e) => eval_node_of(node@) == Err::<ElementView, EvalError>(e),
        },
        r is Ok <==> is_static(node@),
    decreases node,
{
    proof {
        lemma_ast_children_views(*node);
        lemma_eval_node_succeeds(node@);
    }
    match node {
        AstNode::Element { name, attributes, children, void } => {
            match eval_attributes(attributes) {
                Err(e) => Err(e),
                Ok(attrs) => match eval_nodes(children) {
                    Err(e) => Err(e),
                    Ok(child_elements) => {
                        let element = OwnedElement::Tag {
                            name: name.clone(),
                            attributes: attrs,
                            children: child_elements,
                            void: *void,
                        };
                        proof {
                            lemma_children_views(element);
                        }
                        Ok(element)
                    },
                },
            }
        },
        AstNode::Fragment(children) => match eval_nodes(children) {
            Err(e) => Err(e),
            Ok(child_elements) => {
                let element = OwnedElement::Fragment { children: child_elements };
                proof {
                    lemma_children_views(element);
                }
                Ok(element)
            },
        },
        AstNode::Expression { .. } => Err(EvalError::InterpolationNotSupported),
        AstNode::Text(text) => Ok(OwnedElement::Text { text: text.clone() }),
    }
}

/// Convert a list of AST nodes to runtime elements.
pub fn eval_nodes(nodes: &Vec<AstNode>) -> (r: Result<Vec<OwnedElement>, EvalError>)
    ensures
        match r {
            Ok(done) => eval_nodes_of(ast_node_views(nodes@)) == Ok::<Seq<ElementView>, EvalError>(
                element_views(done@),
            ),
            Err(e) => eval_nodes_of(ast_node_views(nodes@)) == Err::<Seq<ElementView>, EvalError>(
                e,
            ),
        },
    decreases nodes,
{
    let ghost views = ast_node_views(nodes@);
    let mut done: Vec<OwnedElement> = Vec::new();
    let mut i: usize = 0;
    assert(views.take(0) =~= Seq::empty());
    assert(element_views(done@) =~= Seq::empty());
    while i < nodes.len()
        invariant
            i <= nodes.len(),
            views == ast_node_views(nodes@),
            eval_nodes_of(views.take(i as int)) == Ok::<Seq<ElementView>, EvalError>(
                element_views(done@),
            ),
        decreases nodes.len() - i,
    {
        proof {
            assert(views.take(i + 1).drop_last() =~= views.take(i as int));
            assert(views.take(i + 1).last() == nodes@[i as int]@);
        }
        match eval_node(&nodes[i]) {
            Err(e) => {
                proof {
                    lemma_eval_nodes_fail_early(views, i + 1);
                }
                return Err(e);
            },
            Ok(element) => {
                let ghost before = element_views(done@);
                done.push(element);
                assert(element_views(done@) =~= before.push(element@));
            },
        }
        i += 1;
    }
    assert(views.take(i as int) =~= views);
    Ok(done)
}

/// Parse an HTML string into a runtime [`OwnedElement`] tree.
///
/// The error is one of the syntax, or, where the syntax is in order, the
/// first interpolation: without code there is nothing to put in its place.
pub fn parse_html(html: &str) -> (r: Result<OwnedElement, ParseHtmlError>)
    ensures
        match r {
            Ok(element) => parse_html_of(html@) == Ok::<ElementView, ParseHtmlErrorView>(element@),
            Err(e) => parse_html_of(html@) == Err::<ElementView, ParseHtmlErrorView>(e@),
        },
{
    match crate::parser::parse_html(html) {
        Err(e) => Err(ParseHtmlError::Parse(e)),
        Ok(ast) => match eval_node(&ast) {
            Err(e) => Err(ParseHtmlError::Eval(e)),
            Ok(element) => Ok(element),
        },
    }
}

} // verus!
