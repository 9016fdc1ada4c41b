//! Escaping of text and of attribute values for HTML.

use vstd::prelude::*;

verus! {

/// A character as it stands in HTML text: `&`, `<` and `>` become
/// entities, every other character stays.
pub open spec fn escaped_text_char(c: char) -> Seq<char> {
    if c == '&' {
        seq!['&', 'a', 'm', 'p', ';']
    } else if c == '<' {
        seq!['&', 'l', 't', ';']
    } else if c == '>' {
        seq!['&', 'g', 't', ';']
    } else {
        seq![c]
    }
}

/// A character as it stands in a quoted attribute value: as in text, and
/// both kinds of quote become entities too.
pub open spec fn escaped_attribute_char(c: char) -> Seq<char> {
    if c == '"' {
        seq!['&', 'q', 'u', 'o', 't', ';']
    } else if c == '\'' {
        seq!['&', '#', 'x', '2', '7', ';']
    } else {
        escaped_text_char(c)
    }
}

/// A string escaped for HTML text, character by character.
pub open spec fn escape_text(s: Seq<char>) -> Seq<char>
    decreases s.len(),
{
    if s.len() == 0 {
        Seq::empty()
    } else {
        escape_text(s.drop_last()) + escaped_text_char(s.last())
    }
}

/// A string escaped for a quoted attribute value, character by character.
pub open spec fn escape_attribute(s: Seq<char>) -> Seq<char>
    decreases s.len(),
{
    if s.len() == 0 {
        Seq::empty()
    } else {
        escape_attribute(s.drop_last()) + escaped_attribute_char(s.last())
    }
}

/// `html_escape::encode_text`: the text with `&`, `<` and `>` replaced by
/// `&amp;`, `&lt;` and `&gt;`, and nothing else changed.
#[verifier::external_body]
pub(crate) fn encode_text(text: &str) -> (escaped: String)
    ensures
        escaped@ == escape_text(text@),
{
    html_escape::encode_text(text).into_owned()
}

/// `html_escape::encode_quoted_attribute`: the text with `&`, `<`, `>`,
/// `"` and `'` replaced by `&amp;`, `&lt;`, `&gt;`, `&quot;` and `&#x27;`,
/// and nothing else changed.
#[verifier::external_body]
pub(crate) fn encode_quoted_attribute(text: &str) -> (escaped: String)
    ensures
        escaped@ == escape_attribute(text@),
{
    html_escape::encode_quoted_attribute(text).into_owned()
}

} // verus!
