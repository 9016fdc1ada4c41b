//! Building, normalising and rendering trees of HTML elements, with parsers
//! for attribute strings and for a JSX-like markup.

pub mod ast;
pub mod attribute;
pub mod attribute_parser;
pub mod attribute_text;
pub mod builder;
pub mod document;
pub mod element;
pub mod escape;
pub mod eval;
pub mod parser;
pub mod render_element;
pub mod routing;
pub mod script;
pub mod tags;
pub mod tailwind;
pub mod text;
pub mod util;

pub use ast::{
    is_custom_component, prop_field, props_name, AstAttribute, AstNode, AttributeValue,
};
pub use attribute::{Attribute, IntoAttribute, OwnedAttribute};
pub use attribute_parser::{AttributeParseError, ParseContext};
pub use document::Document;
pub use element::{Element, IntoElement, OwnedElement};
pub use eval::{eval_node, parse_html, EvalError, ParseHtmlError};
pub use parser::{parse_html as parse_html_ast, ParseError, ParseErrorKind};
pub use render_element::{RenderElement, RenderError};
pub use routing::RoutePath;
