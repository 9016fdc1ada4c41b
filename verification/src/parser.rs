//! The markup parser: from a JSX-like text to an AST.
//!
//! ```text
//! node          := element | interpolation | text
//! element       := '<' name attribute* ( '/' '>' | '>' node* '<' '/' name '>' )
//!                | '<' '>' node* '<' '/' '>'
//! attribute     := name ( '=' ( string | interpolation ) )? | interpolation
//! interpolation := '#'? '{' ... '}'
//! text          := string | characters up to the next '<' or interpolation
//! ```
//!
//! Inside a tag, whitespace between the parts is skipped. Positions are
//! counted in characters from the start of the input.

use crate::ast::{
    ast_attribute_views, ast_node_views, lemma_ast_children_views, AstAttribute, AstAttributeView,
    AstNode, AstNodeView, AttributeValue, AttributeValueView,
};
use crate::text::{char_is_ascii_alphanumeric, chars_of, is_ascii_alphanumeric, string_of_range};
use convert_case::{Case, Casing};
use vstd::prelude::*;

verus! {

/// Why a markup text was refused.
#[derive(Debug, Clone, Copy, PartialEq, Eq, Structural)]
pub enum ParseErrorKind {
    /// The input ended inside a node.
    UnexpectedEnd,
    /// A closing tag stands where a node was expected.
    UnexpectedClosingTag,
    /// The closing tag does not name the tag that is open.
    MismatchedClosingTag,
    /// A fragment was closed where it should have been opened.
    FragmentCannotBeVoid,
    /// A tag has no name.
    ExpectedTagName,
    /// Something other than an attribute stands inside a tag.
    ExpectedAttributeName,
    /// An `=` is not followed by a string or an interpolation.
    ExpectedAttributeValue,
    /// A tag is not ended by `>`.
    ExpectedTagEnd,
    /// A string has no closing quote.
    UnterminatedString,
    /// A backslash in a string is followed by a character that it cannot escape.
    UnknownEscape,
    /// An interpolation has no closing brace.
    UnterminatedInterpolation,
    /// Something follows the node.
    TrailingContent,
}

/// Error type for parsing HTML
#[derive(Debug, Clone, PartialEq, Eq)]
pub struct ParseError {
    /// What went wrong, in words.
    pub message: String,
    /// What went wrong.
    pub kind: ParseErrorKind,
    /// Where it went wrong, in characters from the start of the input.
    pub position: usize,
}

/// What a parse error holds.
pub struct ParseErrorView {
    pub message: Seq<char>,
    pub kind: ParseErrorKind,
    pub position: int,
}

impl View for ParseError {
    type V = ParseErrorView;

    open spec fn view(&self) -> ParseErrorView {
        ParseErrorView { message: self.message@, kind: self.kind, position: self.position as int }
    }
}

/// The words for each kind of error.
pub open spec fn message_of(kind: ParseErrorKind) -> Seq<char> {
    match kind {
        ParseErrorKind::UnexpectedEnd => "unexpected end of input"@,
        ParseErrorKind::UnexpectedClosingTag => "unexpected closing tag"@,
        ParseErrorKind::MismatchedClosingTag => "mismatched opening and closing tags"@,
        ParseErrorKind::FragmentCannotBeVoid => "fragment cannot be void"@,
        ParseErrorKind::ExpectedTagName => "expected a tag name"@,
        ParseErrorKind::ExpectedAttributeName => "expected an attribute name"@,
        ParseErrorKind::ExpectedAttributeValue => "expected a string or an interpolation"@,
        ParseErrorKind::ExpectedTagEnd => "expected `>`"@,
        ParseErrorKind::UnterminatedString => "unterminated string"@,
        ParseErrorKind::UnknownEscape => "unknown escape in string"@,
        ParseErrorKind::UnterminatedInterpolation => "unterminated interpolation"@,
        ParseErrorKind::TrailingContent => "unexpected content after the markup"@,
    }
}

/// The error of a kind at a position.
pub open spec fn failure(kind: ParseErrorKind, position: int) -> ParseErrorView {
    ParseErrorView { message: message_of(kind), kind, position }
}

impl ParseErrorKind {
    /// The words for this kind of error.
    pub fn message(&self) -> (m: String)
        ensures
            m@ == message_of(*self),
    {
        match self {
            ParseErrorKind::UnexpectedEnd => "unexpected end of input".to_owned(),
            ParseErrorKind::UnexpectedClosingTag => "unexpected closing tag".to_owned(),
            ParseErrorKind::MismatchedClosingTag => "mismatched opening and closing tags".to_owned(),
            ParseErrorKind::FragmentCannotBeVoid => "fragment cannot be void".to_owned(),
            ParseErrorKind::ExpectedTagName => "expected a tag name".to_owned(),
            ParseErrorKind::ExpectedAttributeName => "expected an attribute name".to_owned(),
            ParseErrorKind::ExpectedAttributeValue => "expected a string or an interpolation".to_owned(),
            ParseErrorKind::ExpectedTagEnd => "expected `>`".to_owned(),
            ParseErrorKind::UnterminatedString => "unterminated string".to_owned(),
            ParseErrorKind::UnknownEscape => "unknown escape in string".to_owned(),
            ParseErrorKind::UnterminatedInterpolation => "unterminated interpolation".to_owned(),
            ParseErrorKind::TrailingContent => "unexpected content after the markup".to_owned(),
        }
    }
}

impl ParseError {
    /// The error of a kind at a position.
    pub fn new(kind: ParseErrorKind, position: usize) -> (e: ParseError)
        ensures
            e@ == failure(kind, position as int),
    {
        ParseError { message: kind.message(), kind, position }
    }
}

/// An attribute name in kebab case, as `convert_case` gives it: the name
/// split into words at its boundaries, in lower case, joined by hyphens.
pub uninterp spec fn kebab_case(name: Seq<char>) -> Seq<char>;

/// `convert_case::Casing::to_case` with `Case::Kebab`: the result is named,
/// not spelled out. It is asked for names only.
#[verifier::external_body]
fn to_kebab_case(name: &str) -> (converted: String)
    requires
        forall|i: int| 0 <= i < name@.len() ==> is_name_char(#[trigger] name@[i]),
    ensures
        converted@ == kebab_case(name@),
{
    name.to_case(Case::Kebab)
}

/// Whitespace that is skipped inside a tag and around the markup.
pub open spec fn is_space(c: char) -> bool {
    c == ' ' || c == '\t' || c == '\n' || c == '\r'
}

/// A character that may begin a name: an ASCII letter or `_`.
pub open spec fn is_name_start(c: char) -> bool {
    ('a' <= c && c <= 'z') || ('A' <= c && c <= 'Z') || c == '_'
}

/// A character that may stand in a name: an ASCII letter or digit, or `_`.
pub open spec fn is_name_char(c: char) -> bool {
    is_ascii_alphanumeric(c) || c == '_'
}

/// The first position from `pos` on that holds no whitespace.
pub open spec fn skip_space(s: Seq<char>, pos: int) -> int
    decreases s.len() - pos,
{
    if 0 <= pos < s.len() && is_space(s[pos]) {
        skip_space(s, pos + 1)
    } else {
        pos
    }
}

/// The first position from `pos` on that holds no name character.
pub open spec fn name_end(s: Seq<char>, pos: int) -> int
    decreases s.len() - pos,
{
    if 0 <= pos < s.len() && is_name_char(s[pos]) {
        name_end(s, pos + 1)
    } else {
        pos
    }
}

/// Whether a name with the prefix `r#` begins at `pos`.
pub open spec fn has_raw_prefix(s: Seq<char>, pos: int) -> bool {
    0 <= pos && pos + 2 < s.len() && s[pos] == 'r' && s[pos + 1] == '#' && is_name_start(
        s[pos + 2],
    )
}

/// Whether a name begins at `pos`.
pub open spec fn has_name(s: Seq<char>, pos: int) -> bool {
    has_raw_prefix(s, pos) || (0 <= pos < s.len() && is_name_start(s[pos]))
}

/// Where the name at `pos` begins once a prefix `r#` is left out.
pub open spec fn name_start(s: Seq<char>, pos: int) -> int {
    if has_raw_prefix(s, pos) {
        pos + 2
    } else {
        pos
    }
}

/// Where the name at `pos` ends.
pub open spec fn name_stop(s: Seq<char>, pos: int) -> int {
    name_end(s, name_start(s, pos))
}

/// The name at `pos`, without a prefix `r#`.
pub open spec fn name_at(s: Seq<char>, pos: int) -> Seq<char> {
    s.subrange(name_start(s, pos), name_stop(s, pos))
}

/// The character that a backslash and `c` stand for in a string, if any.
pub open spec fn unescaped(c: char) -> Option<char> {
    if c == '"' || c == '\\' || c == '\'' {
        Some(c)
    } else if c == 'n' {
        Some('\n')
    } else if c == 't' {
        Some('\t')
    } else if c == 'r' {
        Some('\r')
    } else if c == '0' {
        Some('\0')
    } else {
        None
    }
}

/// The rest of the string opened at `open`, read from `pos` on, behind the
/// characters `acc` that it is known to hold: its value and the position
/// behind its closing quote.
pub open spec fn string_from(s: Seq<char>, open: int, pos: int, acc: Seq<char>) -> Result<
    (Seq<char>, int),
    ParseErrorView,
>
    decreases s.len() - pos,
{
    if pos < 0 || pos >= s.len() {
        Err(failure(ParseErrorKind::UnterminatedString, open))
    } else if s[pos] == '"' {
        Ok((acc, pos + 1))
    } else if s[pos] == '\\' {
        if pos + 1 >= s.len() {
            Err(failure(ParseErrorKind::UnterminatedString, open))
        } else {
            match unescaped(s[pos + 1]) {
                None => Err(failure(ParseErrorKind::UnknownEscape, pos)),
                Some(c) => string_from(s, open, pos + 2, acc.push(c)),
            }
        }
    } else {
        string_from(s, open, pos + 1, acc.push(s[pos]))
    }
}

/// The string whose opening quote is at `pos`.
pub open spec fn string_at(s: Seq<char>, pos: int) -> Result<(Seq<char>, int), ParseErrorView> {
    string_from(s, pos, pos + 1, Seq::empty())
}

/// The position of the brace that closes `depth + 1` open ones, from `pos`
/// on, or the length of the input if there is none.
pub open spec fn brace_end(s: Seq<char>, pos: int, depth: nat) -> int
    decreases s.len() - pos,
{
    if pos < 0 || pos >= s.len() {
        s.len() as int
    } else if s[pos] == '{' {
        brace_end(s, pos + 1, depth + 1)
    } else if s[pos] == '}' {
        if depth == 0 {
            pos
        } else {
            brace_end(s, pos + 1, (depth - 1) as nat)
        }
    } else {
        brace_end(s, pos + 1, depth)
    }
}

/// The interpolation whose opening brace is at `pos`: what stands between
/// the braces, and the position behind the closing one.
pub open spec fn interpolation_at(s: Seq<char>, pos: int) -> Result<
    (Seq<char>, int),
    ParseErrorView,
> {
    let end = brace_end(s, pos + 1, 0);
    if end >= s.len() {
        Err(failure(ParseErrorKind::UnterminatedInterpolation, pos))
    } else {
        Ok((s.subrange(pos + 1, end), end + 1))
    }
}

/// Whether an interpolation begins at `pos`: `{`, or `#` directly before
/// `{`.
pub open spec fn starts_interpolation(s: Seq<char>, pos: int) -> bool {
    0 <= pos < s.len() && (s[pos] == '{' || (s[pos] == '#' && pos + 1 < s.len() && s[pos + 1]
        == '{'))
}

/// The attribute at `pos`.
pub open spec fn attribute_at(s: Seq<char>, pos: int) -> Result<
    (AstAttributeView, int),
    ParseErrorView,
> {
    if 0 <= pos < s.len() && s[pos] == '{' {
        match interpolation_at(s, pos) {
            Err(e) => Err(e),
            Ok((body, next)) => Ok((AstAttributeView::Interpolated(body), next)),
        }
    } else if !has_name(s, pos) {
        Err(failure(ParseErrorKind::ExpectedAttributeName, pos))
    } else {
        let name = kebab_case(name_at(s, pos));
        let after = name_stop(s, pos);
        let eq = skip_space(s, after);
        if 0 <= eq < s.len() && s[eq] == '=' {
            let start = skip_space(s, eq + 1);
            if 0 <= start < s.len() && s[start] == '{' {
                match interpolation_at(s, start) {
                    Err(e) => Err(e),
                    Ok((body, next)) => Ok(
                        (
                            AstAttributeView::Named {
                                name,
                                value: Some(AttributeValueView::Expression(body)),
                            },
                            next,
                        ),
                    ),
                }
            } else if 0 <= start < s.len() && s[start] == '"' {
                match string_at(s, start) {
                    Err(e) => Err(e),
                    Ok((value, next)) => Ok(
                        (
                            AstAttributeView::Named {
                                name,
                                value: Some(AttributeValueView::Literal(value)),
                            },
                            next,
                        ),
                    ),
                }
            } else {
                Err(failure(ParseErrorKind::ExpectedAttributeValue, start))
            }
        } else {
            Ok((AstAttributeView::Named { name, value: None }, after))
        }
    }
}

/// How many characters are left from `pos` on.
pub open spec fn left(s: Seq<char>, pos: int) -> nat {
    if pos < s.len() {
        (s.len() - pos) as nat
    } else {
        0
    }
}

/// A position that lies behind `pos`: `next` itself, as whatever is read
/// takes characters (`lemma_node_takes_characters` shows it of nodes). It
/// is written out only so that the definitions below are seen to end.
pub open spec fn behind(pos: int, next: int) -> int {
    if next > pos {
        next
    } else {
        pos + 1
    }
}

/// The attributes of a tag from `pos` on, behind the attributes `acc`, and
/// the position of the `>` or `/` that ends them.
pub open spec fn attributes_from(s: Seq<char>, pos: int, acc: Seq<AstAttributeView>) -> Result<
    (Seq<AstAttributeView>, int),
    ParseErrorView,
>
    decreases left(s, pos),
{
    let at = skip_space(s, pos);
    if at < 0 || at < pos || at >= s.len() {
        Err(failure(ParseErrorKind::UnexpectedEnd, at))
    } else if s[at] == '>' || s[at] == '/' {
        Ok((acc, at))
    } else {
        match attribute_at(s, at) {
            Err(e) => Err(e),
            Ok((attribute, next)) => attributes_from(s, behind(at, next), acc.push(attribute)),
        }
    }
}

/// Whether a closing tag begins at `pos`: `<`, then `/` behind whitespace.
pub open spec fn closes_at(s: Seq<char>, pos: int) -> bool {
    0 <= pos < s.len() && s[pos] == '<' && {
        let slash = skip_space(s, pos + 1);
        0 <= slash < s.len() && s[slash] == '/'
    }
}

/// Where a text that begins before `pos` ends: at the next `<` or
/// interpolation, or at the end of the input.
pub open spec fn text_end(s: Seq<char>, pos: int) -> int
    decreases s.len() - pos,
{
    if pos < 0 || pos >= s.len() || s[pos] == '<' || starts_interpolation(s, pos) {
        pos
    } else {
        text_end(s, pos + 1)
    }
}

/// The closing tag at `pos` for the open tag `name` (`None` for a
/// fragment): the position behind it.
pub open spec fn closing_at(s: Seq<char>, pos: int, name: Option<Seq<char>>) -> Result<
    int,
    ParseErrorView,
> {
    let slash = skip_space(s, pos + 1);
    let at = skip_space(s, slash + 1);
    match name {
        None => {
            if 0 <= at < s.len() && s[at] == '>' {
                Ok(at + 1)
            } else if has_name(s, at) {
                Err(failure(ParseErrorKind::MismatchedClosingTag, at))
            } else {
                Err(failure(ParseErrorKind::ExpectedTagEnd, at))
            }
        },
        Some(open) => {
            if !has_name(s, at) || name_at(s, at) != open {
                Err(failure(ParseErrorKind::MismatchedClosingTag, at))
            } else {
                let end = skip_space(s, name_stop(s, at));
                if 0 <= end < s.len() && s[end] == '>' {
                    Ok(end + 1)
                } else {
                    Err(failure(ParseErrorKind::ExpectedTagEnd, end))
                }
            }
        },
    }
}

/// The node at `pos`, and the position behind it.
pub open spec fn node_at(s: Seq<char>, pos: int) -> Result<(AstNodeView, int), ParseErrorView>
    decreases left(s, pos), 1int,
{
    if pos < 0 || pos >= s.len() {
        Err(failure(ParseErrorKind::UnexpectedEnd, pos))
    } else if s[pos] == '<' {
        element_at(s, pos)
    } else if s[pos] == '{' {
        match interpolation_at(s, pos) {
            Err(e) => Err(e),
            Ok((body, next)) => Ok((AstNodeView::Expression { body, iterator: false }, next)),
        }
    } else if starts_interpolation(s, pos) {
        match interpolation_at(s, pos + 1) {
            Err(e) => Err(e),
            Ok((body, next)) => Ok((AstNodeView::Expression { body, iterator: true }, next)),
        }
    } else if s[pos] == '"' {
        match string_at(s, pos) {
            Err(e) => Err(e),
            Ok((text, next)) => Ok((AstNodeView::Text(text), next)),
        }
    } else {
        let end = text_end(s, pos + 1);
        Ok((AstNodeView::Text(s.subrange(pos, end)), end))
    }
}

/// The element or fragment whose `<` is at `pos`, and the position behind
/// it.
pub open spec fn element_at(s: Seq<char>, pos: int) -> Result<(AstNodeView, int), ParseErrorView>
    decreases left(s, pos), 0int,
{
    let at = skip_space(s, pos + 1);
    if pos < 0 || pos >= s.len() || at < 0 || at >= s.len() {
        Err(failure(ParseErrorKind::UnexpectedEnd, at))
    } else if s[at] == '/' {
        let end = skip_space(s, at + 1);
        if 0 <= end < s.len() && s[end] == '>' {
            Err(failure(ParseErrorKind::FragmentCannotBeVoid, pos))
        } else {
            Err(failure(ParseErrorKind::UnexpectedClosingTag, pos))
        }
    } else if s[at] == '>' {
        match children_from(s, behind(pos, at + 1), Seq::empty()) {
            Err(e) => Err(e),
            Ok((children, close)) => match closing_at(s, close, None) {
                Err(e) => Err(e),
                Ok(next) => Ok((AstNodeView::Fragment(children), next)),
            },
        }
    } else if !has_name(s, at) {
        Err(failure(ParseErrorKind::ExpectedTagName, at))
    } else {
        let name = name_at(s, at);
        match attributes_from(s, name_stop(s, at), Seq::empty()) {
            Err(e) => Err(e),
            Ok((attributes, end)) => {
                if 0 <= end < s.len() && s[end] == '/' {
                    let close = skip_space(s, end + 1);
                    if 0 <= close < s.len() && s[close] == '>' {
                        Ok(
                            (
                                AstNodeView::Element {
                                    name,
                                    attributes,
                                    children: Seq::empty(),
                                    void: true,
                                },
                                close + 1,
                            ),
                        )
                    } else {
                        Err(failure(ParseErrorKind::ExpectedTagEnd, close))
                    }
                } else {
                    match children_from(s, behind(pos, end + 1), Seq::empty()) {
                        Err(e) => Err(e),
                        Ok((children, close)) => match closing_at(s, close, Some(name)) {
                            Err(e) => Err(e),
                            Ok(next) => Ok(
                                (
                                    AstNodeView::Element {
                                        name,
                                        attributes,
                                        children,
                                        void: false,
                                    },
                                    next,
                                ),
                            ),
                        },
                    }
                }
            },
        }
    }
}

/// The children of an open tag from `pos` on, behind the children `acc`,
/// and the position of the closing tag that ends them.
pub open spec fn children_from(s: Seq<char>, pos: int, acc: Seq<AstNodeView>) -> Result<
    (Seq<AstNodeView>, int),
    ParseErrorView,
>
    decreases left(s, pos), 2int,
{
    if pos < 0 || pos >= s.len() {
        Err(failure(ParseErrorKind::UnexpectedEnd, pos))
    } else if closes_at(s, pos) {
        Ok((acc, pos))
    } else {
        match node_at(s, pos) {
            Err(e) => Err(e),
            Ok((node, next)) => children_from(s, behind(pos, next), acc.push(node)),
        }
    }
}

/// The one node that a markup text holds, with whitespace around it left
/// out, or the first error in it.
pub open spec fn parse_markup(s: Seq<char>) -> Result<AstNodeView, ParseErrorView> {
    match node_at(s, skip_space(s, 0)) {
        Err(e) => Err(e),
        Ok((node, next)) => {
            let end = skip_space(s, next);
            if 0 <= end < s.len() {
                Err(failure(ParseErrorKind::TrailingContent, end))
            } else {
                Ok(node)
            }
        },
    }
}


proof fn lemma_skip_space_bounds(s: Seq<char>, pos: int)
    requires
        0 <= pos <= s.len(),
    ensures
        pos <= skip_space(s, pos) <= s.len(),
    decreases s.len() - pos,
{
    if pos < s.len() && is_space(s[pos]) {
        lemma_skip_space_bounds(s, pos + 1);
    }
}

proof fn lemma_name_end_bounds(s: Seq<char>, pos: int)
    requires
        0 <= pos <= s.len(),
    ensures
        pos <= name_end(s, pos) <= s.len(),
    decreases s.len() - pos,
{
    if pos < s.len() && is_name_char(s[pos]) {
        lemma_name_end_bounds(s, pos + 1);
    }
}

proof fn lemma_name_bounds(s: Seq<char>, pos: int)
    requires
        has_name(s, pos),
    ensures
        pos < name_stop(s, pos) <= s.len(),
{
    let start = name_start(s, pos);
    assert(is_name_char(s[start]));
    assert(name_end(s, start) == name_end(s, start + 1));
    lemma_name_end_bounds(s, start + 1);
}

proof fn lemma_string_bounds(s: Seq<char>, open: int, pos: int, acc: Seq<char>)
    requires
        0 <= pos,
    ensures
        string_from(s, open, pos, acc) matches Ok((_, next)) ==> pos < next <= s.len(),
    decreases s.len() - pos,
{
    if pos < s.len() && s[pos] != '"' {
        if s[pos] == '\\' {
            if pos + 1 < s.len() {
                match unescaped(s[pos + 1]) {
                    Some(c) => {
                        lemma_string_bounds(s, open, pos + 2, acc.push(c));
                    },
                    None => {},
                }
            }
        } else {
            lemma_string_bounds(s, open, pos + 1, acc.push(s[pos]));
        }
    }
}

proof fn lemma_brace_end_bounds(s: Seq<char>, pos: int, depth: nat)
    requires
        0 <= pos <= s.len(),
    ensures
        pos <= brace_end(s, pos, depth) <= s.len(),
    decreases s.len() - pos,
{
    if pos < s.len() {
        if s[pos] == '{' {
            lemma_brace_end_bounds(s, pos + 1, depth + 1);
        } else if s[pos] == '}' {
            if depth > 0 {
                lemma_brace_end_bounds(s, pos + 1, (depth - 1) as nat);
            }
        } else {
            lemma_brace_end_bounds(s, pos + 1, depth);
        }
    }
}

proof fn lemma_interpolation_bounds(s: Seq<char>, pos: int)
    requires
        0 <= pos < s.len(),
    ensures
        interpolation_at(s, pos) matches Ok((_, next)) ==> pos < next <= s.len(),
{
    lemma_brace_end_bounds(s, pos + 1, 0);
}

proof fn lemma_attribute_bounds(s: Seq<char>, pos: int)
    requires
        0 <= pos < s.len(),
    ensures
        attribute_at(s, pos) matches Ok((_, next)) ==> pos < next <= s.len(),
{
    if s[pos] == '{' {
        lemma_interpolation_bounds(s, pos);
    } else if has_name(s, pos) {
        lemma_name_bounds(s, pos);
        let after = name_stop(s, pos);
        lemma_skip_space_bounds(s, after);
        let eq = skip_space(s, after);
        if eq < s.len() && s[eq] == '=' {
            lemma_skip_space_bounds(s, eq + 1);
            let start = skip_space(s, eq + 1);
            if start < s.len() && s[start] == '{' {
                lemma_interpolation_bounds(s, start);
            } else if start < s.len() && s[start] == '"' {
                lemma_string_bounds(s, start, start + 1, Seq::empty());
            }
        }
    }
}

proof fn lemma_attributes_bounds(s: Seq<char>, pos: int, acc: Seq<AstAttributeView>)
    requires
        0 <= pos <= s.len(),
    ensures
        attributes_from(s, pos, acc) matches Ok((_, end)) ==> pos <= end < s.len() && (s[end]
            == '>' || s[end] == '/'),
    decreases left(s, pos),
{
    lemma_skip_space_bounds(s, pos);
    let at = skip_space(s, pos);
    if at < s.len() && s[at] != '>' && s[at] != '/' {
        lemma_attribute_bounds(s, at);
        match attribute_at(s, at) {
            Ok((attribute, next)) => {
                lemma_attributes_bounds(s, behind(at, next), acc.push(attribute));
            },
            Err(_) => {},
        }
    }
}

proof fn lemma_text_end_bounds(s: Seq<char>, pos: int)
    requires
        0 <= pos <= s.len(),
    ensures
        pos <= text_end(s, pos) <= s.len(),
    decreases s.len() - pos,
{
    if pos < s.len() && s[pos] != '<' && !starts_interpolation(s, pos) {
        lemma_text_end_bounds(s, pos + 1);
    }
}

proof fn lemma_closing_bounds(s: Seq<char>, pos: int, name: Option<Seq<char>>)
    requires
        closes_at(s, pos),
    ensures
        closing_at(s, pos, name) matches Ok(next) ==> pos < next <= s.len(),
{
    lemma_skip_space_bounds(s, pos + 1);
    let slash = skip_space(s, pos + 1);
    lemma_skip_space_bounds(s, slash + 1);
    let at = skip_space(s, slash + 1);
    if has_name(s, at) {
        lemma_name_bounds(s, at);
        lemma_skip_space_bounds(s, name_stop(s, at));
    }
}

/// A node takes characters: where one is read, the position behind it
/// lies behind the position where it begins, and inside the input.
pub proof fn lemma_node_takes_characters(s: Seq<char>, pos: int)
    requires
        0 <= pos,
    ensures
        node_at(s, pos) matches Ok((_, next)) ==> pos < next <= s.len(),
    decreases left(s, pos), 1int,
{
    if pos < s.len() {
        if s[pos] == '<' {
            lemma_element_takes_characters(s, pos);
        } else if s[pos] == '{' {
            lemma_interpolation_bounds(s, pos);
        } else if starts_interpolation(s, pos) {
            lemma_interpolation_bounds(s, pos + 1);
        } else if s[pos] == '"' {
            lemma_string_bounds(s, pos, pos + 1, Seq::empty());
        } else {
            lemma_text_end_bounds(s, pos + 1);
        }
    }
}

proof fn lemma_element_takes_characters(s: Seq<char>, pos: int)
    requires
        0 <= pos < s.len(),
    ensures
        element_at(s, pos) matches Ok((_, next)) ==> pos < next <= s.len(),
    decreases left(s, pos), 0int,
{
    lemma_skip_space_bounds(s, pos + 1);
    let at = skip_space(s, pos + 1);
    if at < s.len() && s[at] != '/' {
        if s[at] == '>' {
            lemma_children_end_at_closing_tag(s, at + 1, Seq::empty());
            match children_from(s, at + 1, Seq::empty()) {
                Ok((_, close)) => {
                    lemma_closing_bounds(s, close, None);
                },
                Err(_) => {},
            }
        } else if has_name(s, at) {
            lemma_name_bounds(s, at);
            lemma_attributes_bounds(s, name_stop(s, at), Seq::empty());
            match attributes_from(s, name_stop(s, at), Seq::empty()) {
                Ok((_, end)) => {
                    if s[end] == '/' {
                        lemma_skip_space_bounds(s, end + 1);
                    } else {
                        lemma_children_end_at_closing_tag(s, end + 1, Seq::empty());
                        match children_from(s, end + 1, Seq::empty()) {
                            Ok((_, close)) => {
                                lemma_closing_bounds(s, close, Some(name_at(s, at)));
                            },
                            Err(_) => {},
                        }
                    }
                },
                Err(_) => {},
            }
        }
    }
}

/// The children of an open tag end where a closing tag begins, at or
/// behind the position where they begin.
pub proof fn lemma_children_end_at_closing_tag(s: Seq<char>, pos: int, acc: Seq<AstNodeView>)
    requires
        0 <= pos,
    ensures
        children_from(s, pos, acc) matches Ok((_, close)) ==> pos <= close < s.len() && closes_at(
            s,
            close,
        ),
    decreases left(s, pos), 2int,
{
    if pos < s.len() && !closes_at(s, pos) {
        lemma_node_takes_characters(s, pos);
        match node_at(s, pos) {
            Ok((node, next)) => {
                lemma_children_end_at_closing_tag(s, next, acc.push(node));
            },
            Err(_) => {},
        }
    }
}

/// Whether what was read is what the grammar states: a string and the
/// position behind it, or the error.
pub open spec fn read_text_as(
    r: Result<(String, usize), ParseError>,
    stated: Result<(Seq<char>, int), ParseErrorView>,
) -> bool {
    match r {
        Ok((text, next)) => stated == Ok::<(Seq<char>, int), ParseErrorView>(
            (text@, next as int),
        ),
        Err(e) => stated == Err::<(Seq<char>, int), ParseErrorView>(e@),
    }
}

/// Whether what was read is what the grammar states: an attribute and the
/// position behind it, or the error.
pub open spec fn read_attribute_as(
    r: Result<(AstAttribute, usize), ParseError>,
    stated: Result<(AstAttributeView, int), ParseErrorView>,
) -> bool {
    match r {
        Ok((attribute, next)) => stated == Ok::<(AstAttributeView, int), ParseErrorView>(
            (attribute@, next as int),
        ),
        Err(e) => stated == Err::<(AstAttributeView, int), ParseErrorView>(e@),
    }
}

/// Whether what was read is what the grammar states: attributes and the
/// position that ends them, or the error.
pub open spec fn read_attributes_as(
    r: Result<(Vec<AstAttribute>, usize), ParseError>,
    stated: Result<(Seq<AstAttributeView>, int), ParseErrorView>,
) -> bool {
    match r {
        Ok((attributes, next)) => stated == Ok::<(Seq<AstAttributeView>, int), ParseErrorView>(
            (ast_attribute_views(attributes@), next as int),
        ),
        Err(e) => stated == Err::<(Seq<AstAttributeView>, int), ParseErrorView>(e@),
    }
}

/// Whether what was read is what the grammar states: a node and the
/// position behind it, or the error.
pub open spec fn read_node_as(
    r: Result<(AstNode, usize), ParseError>,
    stated: Result<(AstNodeView, int), ParseErrorView>,
) -> bool {
    match r {
        Ok((node, next)) => stated == Ok::<(AstNodeView, int), ParseErrorView>(
            (node@, next as int),
        ),
        Err(e) => stated == Err::<(AstNodeView, int), ParseErrorView>(e@),
    }
}

/// Whether what was read is what the grammar states: nodes and the
/// position that ends them, or the error.
pub open spec fn read_nodes_as(
    r: Result<(Vec<AstNode>, usize), ParseError>,
    stated: Result<(Seq<AstNodeView>, int), ParseErrorView>,
) -> bool {
    match r {
        Ok((nodes, next)) => stated == Ok::<(Seq<AstNodeView>, int), ParseErrorView>(
            (ast_node_views(nodes@), next as int),
        ),
        Err(e) => stated == Err::<(Seq<AstNodeView>, int), ParseErrorView>(e@),
    }
}

fn char_is_space(c: char) -> (b: bool)
    ensures
        b == is_space(c),
{
    c == ' ' || c == '\t' || c == '\n' || c == '\r'
}

fn char_is_name_start(c: char) -> (b: bool)
    ensures
        b == is_name_start(c),
{
    ('a' <= c && c <= 'z') || ('A' <= c && c <= 'Z') || c == '_'
}

fn char_is_name_char(c: char) -> (b: bool)
    ensures
        b == is_name_char(c),
{
    char_is_ascii_alphanumeric(c) || c == '_'
}

fn unescape(c: char) -> (u: Option<char>)
    ensures
        u == unescaped(c),
{
    if c == '"' || c == '\\' || c == '\'' {
        Some(c)
    } else if c == 'n' {
        Some('\n')
    } else if c == 't' {
        Some('\t')
    } else if c == 'r' {
        Some('\r')
    } else if c == '0' {
        Some('\0')
    } else {
        None
    }
}

fn skip_spaces(chars: &Vec<char>, pos: usize) -> (next: usize)
    requires
        pos <= chars.len(),
    ensures
        next == skip_space(chars@, pos as int),
        pos <= next <= chars.len(),
{
    let mut i: usize = pos;
    while i < chars.len() && char_is_space(chars[i])
        invariant
            pos <= i <= chars.len(),
            skip_space(chars@, pos as int) == skip_space(chars@, i as int),
        decreases chars.len() - i,
    {
        i += 1;
    }
    i
}

fn find_name_end(chars: &Vec<char>, pos: usize) -> (next: usize)
    requires
        pos <= chars.len(),
    ensures
        next == name_end(chars@, pos as int),
        pos <= next <= chars.len(),
        forall|k: int| pos <= k < next ==> is_name_char(#[trigger] chars@[k]),
{
    let mut i: usize = pos;
    while i < chars.len() && char_is_name_char(chars[i])
        invariant
            pos <= i <= chars.len(),
            name_end(chars@, pos as int) == name_end(chars@, i as int),
            forall|k: int| pos <= k < i ==> is_name_char(#[trigger] chars@[k]),
        decreases chars.len() - i,
    {
        i += 1;
    }
    i
}

fn find_text_end(chars: &Vec<char>, pos: usize) -> (next: usize)
    requires
        pos <= chars.len(),
    ensures
        next == text_end(chars@, pos as int),
        pos <= next <= chars.len(),
{
    let n = chars.len();
    let mut i: usize = pos;
    while i < n
        invariant
            pos <= i <= n,
            n == chars.len(),
            text_end(chars@, pos as int) == text_end(chars@, i as int),
        decreases n - i,
    {
        let c = chars[i];
        if c == '<' || c == '{' || (c == '#' && i + 1 < n && chars[i + 1] == '{') {
            return i;
        }
        i += 1;
    }
    i
}

/// The name at `pos`, if one begins there, and the position behind it.
fn read_name(chars: &Vec<char>, pos: usize) -> (r: Option<(String, usize)>)
    requires
        pos <= chars.len(),
    ensures
        match r {
            Some((name, next)) => has_name(chars@, pos as int) && name@ == name_at(
                chars@,
                pos as int,
            ) && next == name_stop(chars@, pos as int) && pos < next <= chars.len()
                && forall|i: int| 0 <= i < name@.len() ==> is_name_char(#[trigger] name@[i]),
            None => !has_name(chars@, pos as int),
        },
{
    let n = chars.len();
    let start = if n - pos > 2 && chars[pos] == 'r' && chars[pos + 1] == '#' && char_is_name_start(
        chars[pos + 2],
    ) {
        pos + 2
    } else if pos < n && char_is_name_start(chars[pos]) {
        pos
    } else {
        return None;
    };
    assert(start == name_start(chars@, pos as int));
    assert(name_end(chars@, start as int) == name_end(chars@, start + 1));
    let end = find_name_end(chars, start + 1);
    let name = string_of_range(chars, start, end);
    assert forall|i: int| 0 <= i < name@.len() implies is_name_char(#[trigger] name@[i]) by {
        assert(name@[i] == chars@[start + i]);
    }
    Some((name, end))
}

/// The string whose opening quote is at `open`.
fn read_string(chars: &Vec<char>, open: usize) -> (r: Result<(String, usize), ParseError>)
    requires
        open < chars.len(),
    ensures
        read_text_as(r, string_at(chars@, open as int)),
        r matches Ok((_, next)) ==> open < next <= chars.len(),
{
    let n = chars.len();
    let mut value = String::new();
    let mut i: usize = open + 1;
    while i < n
        invariant
            open < i <= n,
            n == chars.len(),
            string_at(chars@, open as int) == string_from(chars@, open as int, i as int, value@),
        decreases n - i,
    {
        let c = chars[i];
        if c == '"' {
            return Ok((value, i + 1));
        }
        if c == '\\' {
            if i + 1 >= n {
                return Err(ParseError::new(ParseErrorKind::UnterminatedString, open));
            }
            match unescape(chars[i + 1]) {
                None => {
                    return Err(ParseError::new(ParseErrorKind::UnknownEscape, i));
                },
                Some(u) => {
                    value.push(u);
                    i += 2;
                },
            }
        } else {
            value.push(c);
            i += 1;
        }
    }
    Err(ParseError::new(ParseErrorKind::UnterminatedString, open))
}

/// The interpolation whose opening brace is at `pos`.
fn read_interpolation(chars: &Vec<char>, pos: usize) -> (r: Result<(String, usize), ParseError>)
    requires
        pos < chars.len(),
    ensures
        read_text_as(r, interpolation_at(chars@, pos as int)),
        r matches Ok((_, next)) ==> pos < next <= chars.len(),
{
    let n = chars.len();
    let mut depth: usize = 0;
    let mut i: usize = pos + 1;
    while i < n
        invariant
            pos < i <= n,
            n == chars.len(),
            depth <= i - pos - 1,
            brace_end(chars@, pos + 1, 0) == brace_end(chars@, i as int, depth as nat),
        decreases n - i,
    {
        let c = chars[i];
        if c == '{' {
            depth += 1;
        } else if c == '}' {
            if depth == 0 {
                return Ok((string_of_range(chars, pos + 1, i), i + 1));
            }
            depth -= 1;
        }
        i += 1;
    }
    Err(ParseError::new(ParseErrorKind::UnterminatedInterpolation, pos))
}

/// The attribute at `pos`.
fn read_attribute(chars: &Vec<char>, pos: usize) -> (r: Result<(AstAttribute, usize), ParseError>)
    requires
        pos < chars.len(),
    ensures
        read_attribute_as(r, attribute_at(chars@, pos as int)),
        r matches Ok((_, next)) ==> pos < next <= chars.len(),
{
    let n = chars.len();
    if chars[pos] == '{' {
        return match read_interpolation(chars, pos) {
            Err(e) => Err(e),
            Ok((body, next)) => Ok((AstAttribute::Interpolated(body), next)),
        };
    }
    match read_name(chars, pos) {
        None => Err(ParseError::new(ParseErrorKind::ExpectedAttributeName, pos)),
        Some((written, after)) => {
            let name = to_kebab_case(written.as_str());
            let eq = skip_spaces(chars, after);
            if eq < n && chars[eq] == '=' {
                let start = skip_spaces(chars, eq + 1);
                if start < n && chars[start] == '{' {
                    match read_interpolation(chars, start) {
                        Err(e) => Err(e),
                        Ok((body, next)) => Ok(
                            (AstAttribute::named(name, Some(AttributeValue::Expression(body))), next),
                        ),
                    }
                } else if start < n && chars[start] == '"' {
                    match read_string(chars, start) {
                        Err(e) => Err(e),
                        Ok((value, next)) => Ok(
                            (AstAttribute::named(name, Some(AttributeValue::Literal(value))), next),
                        ),
                    }
                } else {
                    Err(ParseError::new(ParseErrorKind::ExpectedAttributeValue, start))
                }
            } else {
                Ok((AstAttribute::named(name, None), after))
            }
        },
    }
}

/// The attributes of a tag from `pos` on, and the position of the `>` or
/// `/` that ends them.
fn read_attributes(chars: &Vec<char>, pos: usize) -> (r: Result<
    (Vec<AstAttribute>, usize),
    ParseError,
>)
    requires
        pos <= chars.len(),
    ensures
        read_attributes_as(r, attributes_from(chars@, pos as int, Seq::empty())),
        r matches Ok((_, end)) ==> pos <= end < chars.len() && (chars@[end as int] == '>'
            || chars@[end as int] == '/'),
{
    let n = chars.len();
    let mut attributes: Vec<AstAttribute> = Vec::new();
    let mut i: usize = pos;
    assert(ast_attribute_views(attributes@) =~= Seq::empty());
    loop
        invariant
            pos <= i <= n,
            n == chars.len(),
            attributes_from(chars@, pos as int, Seq::empty()) == attributes_from(
                chars@,
                i as int,
                ast_attribute_views(attributes@),
            ),
        decreases n - i,
    {
        let at = skip_spaces(chars, i);
        if at >= n {
            return Err(ParseError::new(ParseErrorKind::UnexpectedEnd, at));
        }
        let c = chars[at];
        if c == '>' || c == '/' {
            return Ok((attributes, at));
        }
        match read_attribute(chars, at) {
            Err(e) => {
                return Err(e);
            },
            Ok((attribute, next)) => {
                let ghost before = ast_attribute_views(attributes@);
                attributes.push(attribute);
                assert(ast_attribute_views(attributes@) =~= before.push(attribute@));
                i = next;
            },
        }
    }
}

/// Whether a closing tag begins at `pos`.
fn is_closing(chars: &Vec<char>, pos: usize) -> (b: bool)
    requires
        pos < chars.len(),
    ensures
        b == closes_at(chars@, pos as int),
{
    if chars[pos] != '<' {
        return false;
    }
    let slash = skip_spaces(chars, pos + 1);
    slash < chars.len() && chars[slash] == '/'
}

/// The closing tag at `pos` for the open tag `name` (`None` for a
/// fragment): the position behind it.
fn read_closing(chars: &Vec<char>, pos: usize, name: Option<&String>) -> (r: Result<
    usize,
    ParseError,
>)
    requires
        pos < chars.len(),
        closes_at(chars@, pos as int),
    ensures
        match r {
            Ok(next) => closing_at(
                chars@,
                pos as int,
                match name {
                    Some(open) => Some(open@),
                    None => None,
                },
            ) == Ok::<int, ParseErrorView>(next as int) && pos < next <= chars.len(),
            Err(e) => closing_at(
                chars@,
                pos as int,
                match name {
                    Some(open) => Some(open@),
                    None => None,
                },
            ) == Err::<int, ParseErrorView>(e@),
        },
{
    let n = chars.len();
    let slash = skip_spaces(chars, pos + 1);
    let at = skip_spaces(chars, slash + 1);
    match name {
        None => {
            if at < n && chars[at] == '>' {
                Ok(at + 1)
            } else {
                match read_name(chars, at) {
                    Some(_) => Err(ParseError::new(ParseErrorKind::MismatchedClosingTag, at)),
                    None => Err(ParseError::new(ParseErrorKind::ExpectedTagEnd, at)),
                }
            }
        },
        Some(open) => {
            match read_name(chars, at) {
                None => Err(ParseError::new(ParseErrorKind::MismatchedClosingTag, at)),
                Some((closing, after)) => {
                    if !closing.eq(open) {
                        Err(ParseError::new(ParseErrorKind::MismatchedClosingTag, at))
                    } else {
                        let end = skip_spaces(chars, after);
                        if end < n && chars[end] == '>' {
                            Ok(end + 1)
                        } else {
                            Err(ParseError::new(ParseErrorKind::ExpectedTagEnd, end))
                        }
                    }
                },
            }
        },
    }
}

/// The node at `pos`, and the position behind it.
fn read_node(chars: &Vec<char>, pos: usize) -> (r: Result<(AstNode, usize), ParseError>)
    requires
        pos <= chars.len(),
    ensures
        read_node_as(r, node_at(chars@, pos as int)),
        r matches Ok((_, next)) ==> pos < next <= chars.len(),
    decreases chars.len() - pos, 1int,
{
    let n = chars.len();
    if pos >= n {
        return Err(ParseError::new(ParseErrorKind::UnexpectedEnd, pos));
    }
    let c = chars[pos];
    if c == '<' {
        read_element(chars, pos)
    } else if c == '{' {
        match read_interpolation(chars, pos) {
            Err(e) => Err(e),
            Ok((body, next)) => Ok((AstNode::Expression { body, iterator: false }, next)),
        }
    } else if c == '#' && pos + 1 < n && chars[pos + 1] == '{' {
        match read_interpolation(chars, pos + 1) {
            Err(e) => Err(e),
            Ok((body, next)) => Ok((AstNode::Expression { body, iterator: true }, next)),
        }
    } else if c == '"' {
        match read_string(chars, pos) {
            Err(e) => Err(e),
            Ok((text, next)) => Ok((AstNode::Text(text), next)),
        }
    } else {
        let end = find_text_end(chars, pos + 1);
        Ok((AstNode::Text(string_of_range(chars, pos, end)), end))
    }
}

/// The element or fragment whose `<` is at `pos`, and the position behind
/// it.
fn read_element(chars: &Vec<char>, pos: usize) -> (r: Result<(AstNode, usize), ParseError>)
    requires
        pos < chars.len(),
    ensures
        read_node_as(r, element_at(chars@, pos as int)),
        r matches Ok((_, next)) ==> pos < next <= chars.len(),
    decreases chars.len() - pos, 0int,
{
    let n = chars.len();
    let at = skip_spaces(chars, pos + 1);
    if at >= n {
        return Err(ParseError::new(ParseErrorKind::UnexpectedEnd, at));
    }
    let c = chars[at];
    if c == '/' {
        let end = skip_spaces(chars, at + 1);
        if end < n && chars[end] == '>' {
            return Err(ParseError::new(ParseErrorKind::FragmentCannotBeVoid, pos));
        }
        return Err(ParseError::new(ParseErrorKind::UnexpectedClosingTag, pos));
    }
    if c == '>' {
        return match read_children(chars, at + 1) {
            Err(e) => Err(e),
            Ok((children, close)) => match read_closing(chars, close, None) {
                Err(e) => Err(e),
                Ok(next) => {
                    let node = AstNode::Fragment(children);
                    proof {
                        lemma_ast_children_views(node);
                    }
                    Ok((node, next))
                },
            },
        };
    }
    match read_name(chars, at) {
        None => Err(ParseError::new(ParseErrorKind::ExpectedTagName, at)),
        Some((name, after)) => match read_attributes(chars, after) {
            Err(e) => Err(e),
            Ok((attributes, end)) => {
                if chars[end] == '/' {
                    let close = skip_spaces(chars, end + 1);
                    if close < n && chars[close] == '>' {
                        let node = AstNode::Element {
                            name,
                            attributes,
                            children: Vec::new(),
                            void: true,
                        };
                        proof {
                            lemma_ast_children_views(node);
                            assert(node@->Element_children =~= Seq::empty());
                        }
                        Ok((node, close + 1))
                    } else {
                        Err(ParseError::new(ParseErrorKind::ExpectedTagEnd, close))
                    }
                } else {
                    match read_children(chars, end + 1) {
                        Err(e) => Err(e),
                        Ok((children, close)) => match read_closing(chars, close, Some(&name)) {
                            Err(e) => Err(e),
                            Ok(next) => {
                                let node = AstNode::Element {
                                    name,
                                    attributes,
                                    children,
                                    void: false,
                                };
                                proof {
                                    lemma_ast_children_views(node);
                                }
                                Ok((node, next))
                            },
                        },
                    }
                }
            },
        },
    }
}

/// The children of an open tag from `pos` on, and the position of the
/// closing tag that ends them.
fn read_children(chars: &Vec<char>, pos: usize) -> (r: Result<(Vec<AstNode>, usize), ParseError>)
    requires
        pos <= chars.len(),
    ensures
        read_nodes_as(r, children_from(chars@, pos as int, Seq::empty())),
        r matches Ok((_, close)) ==> pos <= close < chars.len() && closes_at(
            chars@,
            close as int,
        ),
    decreases chars.len() - pos, 2int,
{
    let n = chars.len();
    let mut children: Vec<AstNode> = Vec::new();
    let mut i: usize = pos;
    assert(ast_node_views(children@) =~= Seq::empty());
    loop
        invariant
            pos <= i <= n,
            n == chars.len(),
            children_from(chars@, pos as int, Seq::empty()) == children_from(
                chars@,
                i as int,
                ast_node_views(children@),
            ),
        decreases n - i,
    {
        if i >= n {
            return Err(ParseError::new(ParseErrorKind::UnexpectedEnd, i));
        }
        if is_closing(chars, i) {
            return Ok((children, i));
        }
        match read_node(chars, i) {
            Err(e) => {
                return Err(e);
            },
            Ok((node, next)) => {
                let ghost before = ast_node_views(children@);
                children.push(node);
                assert(ast_node_views(children@) =~= before.push(node@));
                i = next;
            },
        }
    }
}

/// Parse an HTML string into an AST.
///
/// The text holds one node, with whitespace around it; anything else
/// behind the node is an error.
pub fn parse_html(html: &str) -> (r: Result<AstNode, ParseError>)
    ensures
        match r {
            Ok(node) => parse_markup(html@) == Ok::<AstNodeView, ParseErrorView>(node@),
            Err(e) => parse_markup(html@) == Err::<AstNodeView, ParseErrorView>(e@),
        },
{
    let chars = chars_of(html);
    let start = skip_spaces(&chars, 0);
    match read_node(&chars, start) {
        Err(e) => Err(e),
        Ok((node, next)) => {
            let end = skip_spaces(&chars, next);
            if end < chars.len() {
                Err(ParseError::new(ParseErrorKind::TrailingContent, end))
            } else {
                Ok(node)
            }
        },
    }
}

} // verus!
