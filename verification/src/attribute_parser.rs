//! The parser that reads attributes from an attribute string such as
//! `id="main" disabled class='wide'`: a scanner that takes one character
//! at a time.

use crate::attribute::{attribute_views, AttributeView, OwnedAttribute};
use crate::text::{
    char_is_ascii_alphanumeric, char_is_blank, chars_of, decimal, is_ascii_alphanumeric, is_blank,
    push_decimal, unicode_whitespace,
};
use vstd::prelude::*;
use vstd::string::StringExecFns;

verus! {

/// What was being read when an attribute string turned out malformed.
#[derive(Debug, Clone, Copy, PartialEq, Eq, Structural)]
#[allow(clippy::enum_variant_names)]
pub enum ParseContext {
    /// Expected an attribute name but found something else
    ExpectedAttributeName,
    /// Expected an attribute value but found something else
    ExpectedAttributeValue,
    /// Expected a quote or valid unquoted value character but found something else
    ExpectedQuoteOrValue,
}

/// Error type for attribute parsing failures
#[derive(Debug, Clone, PartialEq, Eq)]
pub enum AttributeParseError {
    /// The attribute value has an unclosed quote
    UnclosedQuote {
        /// The quote character that was not closed (either ' or ")
        quote: char,
        /// The position of the unclosed quote in the input string, counted in characters
        position: usize,
        /// The partial attribute value that was parsed
        partial_value: String,
    },
    /// The attribute syntax is invalid
    InvalidSyntax {
        /// The unexpected character that caused the error
        unexpected: char,
        /// The position where the error occurred, counted in characters
        position: usize,
        /// What was being parsed when the error occurred
        context: ParseContext,
    },
}

/// What an attribute parsing failure holds.
pub enum AttributeParseErrorView {
    UnclosedQuote { quote: char, position: int, partial_value: Seq<char> },
    InvalidSyntax { unexpected: char, position: int, context: ParseContext },
}

impl View for AttributeParseError {
    type V = AttributeParseErrorView;

    open spec fn view(&self) -> AttributeParseErrorView {
        match self {
            AttributeParseError::UnclosedQuote { quote, position, partial_value } => {
                AttributeParseErrorView::UnclosedQuote {
                    quote: *quote,
                    position: *position as int,
                    partial_value: partial_value@,
                }
            },
            AttributeParseError::InvalidSyntax { unexpected, position, context } => {
                AttributeParseErrorView::InvalidSyntax {
                    unexpected: *unexpected,
                    position: *position as int,
                    context: *context,
                }
            },
        }
    }
}

/// What the parser was waiting for, in words.
pub open spec fn context_words(context: ParseContext) -> Seq<char> {
    match context {
        ParseContext::ExpectedAttributeName => "expecting attribute name"@,
        ParseContext::ExpectedAttributeValue => "expecting attribute value"@,
        ParseContext::ExpectedQuoteOrValue => "expecting quote or valid value character"@,
    }
}

/// An attribute parsing failure in words.
pub open spec fn attribute_error_message(e: AttributeParseErrorView) -> Seq<char> {
    match e {
        AttributeParseErrorView::UnclosedQuote { quote, position, partial_value } => {
            "Unclosed quote '"@ + seq![quote] + "' at position "@ + decimal(position as nat)
                + " with partial value '"@ + partial_value + "'"@
        },
        AttributeParseErrorView::InvalidSyntax { unexpected, position, context } => {
            "Invalid syntax at position "@ + decimal(position as nat) + ": unexpected character '"@
                + seq![unexpected] + "' while "@ + context_words(context)
        },
    }
}

impl ParseContext {
    /// What the parser was waiting for, in words.
    pub fn words(&self) -> (w: &'static str)
        ensures
            w@ == context_words(*self),
    {
        match self {
            ParseContext::ExpectedAttributeName => "expecting attribute name",
            ParseContext::ExpectedAttributeValue => "expecting attribute value",
            ParseContext::ExpectedQuoteOrValue => "expecting quote or valid value character",
        }
    }
}

impl AttributeParseError {
    /// The failure in words.
    pub fn message(&self) -> (m: String)
        ensures
            m@ == attribute_error_message(self@),
    {
        let mut m = String::new();
        match self {
            AttributeParseError::UnclosedQuote { quote, position, partial_value } => {
                m.append("Unclosed quote '");
                m.push(*quote);
                m.append("' at position ");
                push_decimal(&mut m, *position as u64);
                m.append(" with partial value '");
                m.append(partial_value.as_str());
                m.append("'");
                assert(m@ =~= attribute_error_message(self@));
            },
            AttributeParseError::InvalidSyntax { unexpected, position, context } => {
                m.append("Invalid syntax at position ");
                push_decimal(&mut m, *position as u64);
                m.append(": unexpected character '");
                m.push(*unexpected);
                m.append("' while ");
                m.append(context.words());
                assert(m@ =~= attribute_error_message(self@));
            },
        }
        m
    }
}

/// Where the scanner of an attribute string stands.
#[derive(Debug, Clone, Copy, PartialEq, Eq, Structural)]
pub enum ScanState {
    /// Between attributes.
    BeforeAttribute,
    /// Inside a name.
    InName,
    /// After a name and a blank, with an `=` known to follow.
    BeforeEquals,
    /// After the `=`, before the value.
    AfterEquals,
    /// Inside a quoted value.
    InQuotedValue,
    /// Inside an unquoted value.
    InUnquotedValue,
}

/// The scanner of an attribute string: its state, the attributes finished
/// so far, the name and value being read, and the quote that is open.
pub struct Scan {
    pub state: ScanState,
    pub done: Seq<AttributeView>,
    pub key: Seq<char>,
    pub value: Seq<char>,
    pub quote: char,
    pub quote_at: int,
}

/// A character that may stand in an unquoted value.
pub open spec fn is_unquoted_value_char(c: char) -> bool {
    is_ascii_alphanumeric(c) || c == '-' || c == '_'
}

/// Whitespace that the look ahead for an `=` passes over: a blank, or any
/// other character that Unicode counts as whitespace.
pub open spec fn is_passed_over(c: char) -> bool {
    is_blank(c) || unicode_whitespace(c)
}

/// Whether, from `from` on, an `=` comes before any character that is not
/// whitespace.
pub open spec fn equals_ahead(s: Seq<char>, from: int) -> bool
    decreases s.len() - from,
{
    if from < 0 || from >= s.len() {
        false
    } else if s[from] == '=' {
        true
    } else if !is_passed_over(s[from]) {
        false
    } else {
        equals_ahead(s, from + 1)
    }
}

/// The scanner before the first character.
pub open spec fn scan_start() -> Scan {
    Scan {
        state: ScanState::BeforeAttribute,
        done: Seq::empty(),
        key: Seq::empty(),
        value: Seq::empty(),
        quote: '"',
        quote_at: 0,
    }
}

/// The scanner after an attribute is finished.
pub open spec fn scan_emit(m: Scan, value: Option<Seq<char>>) -> Scan {
    Scan {
        state: ScanState::BeforeAttribute,
        done: m.done.push(AttributeView { key: m.key, value }),
        key: Seq::empty(),
        value: Seq::empty(),
        ..m
    }
}

/// One step of the scanner, on the character at `pos`.
pub open spec fn scan_step(m: Scan, s: Seq<char>, pos: int) -> Result<Scan, AttributeParseErrorView>
    recommends
        0 <= pos < s.len(),
{
    let c = s[pos];
    match m.state {
        ScanState::BeforeAttribute => {
            if is_blank(c) {
                Ok(m)
            } else if c == '=' {
                Err(
                    AttributeParseErrorView::InvalidSyntax {
                        unexpected: c,
                        position: pos,
                        context: ParseContext::ExpectedAttributeName,
                    },
                )
            } else {
                Ok(Scan { state: ScanState::InName, key: m.key.push(c), ..m })
            }
        },
        ScanState::InName => {
            if is_blank(c) {
                if equals_ahead(s, pos + 1) {
                    Ok(Scan { state: ScanState::BeforeEquals, ..m })
                } else {
                    Ok(scan_emit(m, None))
                }
            } else if c == '=' {
                Ok(Scan { state: ScanState::AfterEquals, value: Seq::empty(), ..m })
            } else {
                Ok(Scan { key: m.key.push(c), ..m })
            }
        },
        ScanState::BeforeEquals => {
            if is_blank(c) {
                Ok(m)
            } else if c == '=' {
                Ok(Scan { state: ScanState::AfterEquals, value: Seq::empty(), ..m })
            } else {
                Err(
                    AttributeParseErrorView::InvalidSyntax {
                        unexpected: c,
                        position: pos,
                        context: ParseContext::ExpectedAttributeValue,
                    },
                )
            }
        },
        ScanState::AfterEquals => {
            if is_blank(c) {
                Ok(m)
            } else if c == '"' || c == '\'' {
                Ok(Scan { state: ScanState::InQuotedValue, quote: c, quote_at: pos, ..m })
            } else if is_unquoted_value_char(c) {
                Ok(Scan { state: ScanState::InUnquotedValue, value: m.value.push(c), ..m })
            } else {
                Err(
                    AttributeParseErrorView::InvalidSyntax {
                        unexpected: c,
                        position: pos,
                        context: ParseContext::ExpectedQuoteOrValue,
                    },
                )
            }
        },
        ScanState::InQuotedValue => {
            if c == m.quote {
                Ok(scan_emit(m, Some(m.value)))
            } else {
                Ok(Scan { value: m.value.push(c), ..m })
            }
        },
        ScanState::InUnquotedValue => {
            if is_blank(c) {
                Ok(scan_emit(m, Some(m.value)))
            } else if is_unquoted_value_char(c) {
                Ok(Scan { value: m.value.push(c), ..m })
            } else {
                Err(
                    AttributeParseErrorView::InvalidSyntax {
                        unexpected: c,
                        position: pos,
                        context: ParseContext::ExpectedQuoteOrValue,
                    },
                )
            }
        },
    }
}

/// What the scanner yields at the end of the input: an open quote is an
/// error, and a name or value still being read is a last attribute.
pub open spec fn scan_finish(m: Scan) -> Result<Seq<AttributeView>, AttributeParseErrorView> {
    match m.state {
        ScanState::BeforeAttribute => Ok(m.done),
        ScanState::InName | ScanState::BeforeEquals => Ok(
            m.done.push(AttributeView { key: m.key, value: None }),
        ),
        ScanState::AfterEquals | ScanState::InUnquotedValue => Ok(
            m.done.push(AttributeView { key: m.key, value: Some(m.value) }),
        ),
        ScanState::InQuotedValue => Err(
            AttributeParseErrorView::UnclosedQuote {
                quote: m.quote,
                position: m.quote_at,
                partial_value: m.value,
            },
        ),
    }
}

/// The scanner run from `pos` to the end of the input.
pub open spec fn scan_run(m: Scan, s: Seq<char>, pos: int) -> Result<
    Seq<AttributeView>,
    AttributeParseErrorView,
>
    decreases s.len() - pos,
{
    if pos < 0 || pos >= s.len() {
        scan_finish(m)
    } else {
        match scan_step(m, s, pos) {
            Ok(next) => scan_run(next, s, pos + 1),
            Err(e) => Err(e),
        }
    }
}

/// The attributes that an attribute string holds, or the first error in it.
pub open spec fn parse_attributes(s: Seq<char>) -> Result<Seq<AttributeView>, AttributeParseErrorView> {
    scan_run(scan_start(), s, 0)
}

/// Whether an `=` comes before any character that is not whitespace, from
/// `from` on.
fn equals_follows(chars: &Vec<char>, from: usize) -> (found: bool)
    requires
        from <= chars.len(),
    ensures
        found == equals_ahead(chars@, from as int),
{
    let mut j: usize = from;
    while j < chars.len()
        invariant
            from <= j <= chars.len(),
            equals_ahead(chars@, from as int) == equals_ahead(chars@, j as int),
        decreases chars.len() - j,
    {
        let c = chars[j];
        if c == '=' {
            return true;
        }
        if !(char_is_blank(c) || c.is_whitespace()) {
            return false;
        }
        j += 1;
    }
    false
}

fn char_is_unquoted_value_char(c: char) -> (b: bool)
    ensures
        b == is_unquoted_value_char(c),
{
    char_is_ascii_alphanumeric(c) || c == '-' || c == '_'
}

impl OwnedAttribute {
    /// Parse a string of attributes into a vector of attributes.
    ///
    /// The attributes come in the order of the input, and a key that occurs
    /// twice gives two attributes. On a malformed string the error says
    /// where, in characters from the start, and no attribute is returned.
    pub fn parse_from_str(s: &str) -> (result: Result<Vec<OwnedAttribute>, AttributeParseError>)
        ensures
            match result {
                Ok(attributes) => parse_attributes(s@) == Ok::<
                    Seq<AttributeView>,
                    AttributeParseErrorView,
                >(attribute_views(attributes@)),
                Err(e) => parse_attributes(s@) == Err::<Seq<AttributeView>, AttributeParseErrorView>(
                    e@,
                ),
            },
            result matches Ok(attributes) ==> forall|i: int|
                0 <= i < attributes.len() ==> is_attribute_name((#[trigger] attributes[i]).key@),
    {
        let chars = chars_of(s);
        let n = chars.len();
        let mut attributes: Vec<OwnedAttribute> = Vec::new();
        let mut key = String::new();
        let mut value = String::new();
        let mut quote: char = '"';
        let mut quote_at: usize = 0;
        let mut state = ScanState::BeforeAttribute;
        let mut i: usize = 0;
        assert(attribute_views(attributes@) =~= Seq::empty());
        while i < n
            invariant
                i <= n,
                n == chars.len(),
                chars@ == s@,
                parse_attributes(s@) == scan_run(
                    Scan {
                        state,
                        done: attribute_views(attributes@),
                        key: key@,
                        value: value@,
                        quote,
                        quote_at: quote_at as int,
                    },
                    s@,
                    i as int,
                ),
            decreases n - i,
        {
            let c = chars[i];
            let ghost before = Scan {
                state,
                done: attribute_views(attributes@),
                key: key@,
                value: value@,
                quote,
                quote_at: quote_at as int,
            };
            let ghost done_before = attributes@;
            match state {
                ScanState::BeforeAttribute => {
                    if char_is_blank(c) {
                    } else if c == '=' {
                        return Err(
                            AttributeParseError::InvalidSyntax {
                                unexpected: c,
                                position: i,
                                context: ParseContext::ExpectedAttributeName,
                            },
                        );
                    } else {
                        key.push(c);
                        state = ScanState::InName;
                    }
                },
                ScanState::InName => {
                    if char_is_blank(c) {
                        if equals_follows(&chars, i + 1) {
                            state = ScanState::BeforeEquals;
                        } else {
                            attributes.push(OwnedAttribute { key, value: None });
                            key = String::new();
                            value = String::new();
                            state = ScanState::BeforeAttribute;
                        }
                    } else if c == '=' {
                        state = ScanState::AfterEquals;
                        value = String::new();
                    } else {
                        key.push(c);
                    }
                },
                ScanState::BeforeEquals => {
                    if char_is_blank(c) {
                    } else if c == '=' {
                        state = ScanState::AfterEquals;
                        value = String::new();
                    } else {
                        return Err(
                            AttributeParseError::InvalidSyntax {
                                unexpected: c,
                                position: i,
                                context: ParseContext::ExpectedAttributeValue,
                            },
                        );
                    }
                },
                ScanState::AfterEquals => {
                    if char_is_blank(c) {
                    } else if c == '"' || c == '\'' {
                        quote = c;
                        quote_at = i;
                        state = ScanState::InQuotedValue;
                    } else if char_is_unquoted_value_char(c) {
                        value.push(c);
                        state = ScanState::InUnquotedValue;
                    } else {
                        return Err(
                            AttributeParseError::InvalidSyntax {
                                unexpected: c,
                                position: i,
                                context: ParseContext::ExpectedQuoteOrValue,
                            },
                        );
                    }
                },
                ScanState::InQuotedValue => {
                    if c == quote {
                        attributes.push(OwnedAttribute { key, value: Some(value) });
                        key = String::new();
                        value = String::new();
                        state = ScanState::BeforeAttribute;
                    } else {
                        value.push(c);
                    }
                },
                ScanState::InUnquotedValue => {
                    if char_is_blank(c) {
                        attributes.push(OwnedAttribute { key, value: Some(value) });
                        key = String::new();
                        value = String::new();
                        state = ScanState::BeforeAttribute;
                    } else if char_is_unquoted_value_char(c) {
                        value.push(c);
                    } else {
                        return Err(
                            AttributeParseError::InvalidSyntax {
                                unexpected: c,
                                position: i,
                                context: ParseContext::ExpectedQuoteOrValue,
                            },
                        );
                    }
                },
            }
            proof {
                let after = Scan {
                    state,
                    done: attribute_views(attributes@),
                    key: key@,
                    value: value@,
                    quote,
                    quote_at: quote_at as int,
                };
                if attributes@.len() > done_before.len() {
                    assert(attribute_views(attributes@) =~= attribute_views(done_before).push(
                        attributes@.last()@,
                    ));
                }
                assert(scan_step(before, s@, i as int) == Ok::<Scan, AttributeParseErrorView>(after));
            }
            i += 1;
        }
        let ghost before = attribute_views(attributes@);
        match state {
            ScanState::BeforeAttribute => {},
            ScanState::InName | ScanState::BeforeEquals => {
                attributes.push(OwnedAttribute { key, value: None });
                assert(attribute_views(attributes@) =~= before.push(attributes@.last()@));
            },
            ScanState::AfterEquals | ScanState::InUnquotedValue => {
                attributes.push(OwnedAttribute { key, value: Some(value) });
                assert(attribute_views(attributes@) =~= before.push(attributes@.last()@));
            },
            ScanState::InQuotedValue => {
                return Err(
                    AttributeParseError::UnclosedQuote {
                        quote,
                        position: quote_at,
                        partial_value: value,
                    },
                );
            },
        }
        proof {
            lemma_parsed_keys_are_names(s@);
            assert forall|i: int| 0 <= i < attributes.len() implies is_attribute_name(
                (#[trigger] attributes[i]).key@,
            ) by {
                assert(attribute_views(attributes@)[i].key == attributes[i].key@);
            }
        }
        Ok(attributes)
    }
}

/// A key that can be written and read again: not empty, without a blank
/// and without `=`.
pub open spec fn is_attribute_name(key: Seq<char>) -> bool {
    &&& key.len() > 0
    &&& forall|i: int| 0 <= i < key.len() ==> !is_blank(#[trigger] key[i]) && key[i] != '='
}

/// Whether the scanner holds only attribute names: as the keys of the
/// attributes that are finished, and, once a name was begun, as the key
/// being read.
pub open spec fn scan_holds_names(m: Scan) -> bool {
    &&& forall|i: int| 0 <= i < m.done.len() ==> is_attribute_name((#[trigger] m.done[i]).key)
    &&& m.state != ScanState::BeforeAttribute ==> is_attribute_name(m.key)
    &&& m.state == ScanState::BeforeAttribute ==> m.key.len() == 0
}

/// A step of the scanner keeps it holding only attribute names.
pub proof fn lemma_step_holds_names(m: Scan, s: Seq<char>, pos: int)
    requires
        scan_holds_names(m),
        0 <= pos < s.len(),
        scan_step(m, s, pos) is Ok,
    ensures
        scan_holds_names(scan_step(m, s, pos)->Ok_0),
{
    let next = scan_step(m, s, pos)->Ok_0;
    if next.key.len() > m.key.len() {
        assert(next.key == m.key.push(s[pos]));
        assert forall|i: int| 0 <= i < next.key.len() implies !is_blank(#[trigger] next.key[i])
            && next.key[i] != '=' by {
            if i < m.key.len() {
                assert(next.key[i] == m.key[i]);
            }
        }
    }
    if next.done.len() > m.done.len() {
        assert(next.done == m.done.push(next.done.last()));
        assert forall|i: int| 0 <= i < next.done.len() implies is_attribute_name(
            (#[trigger] next.done[i]).key,
        ) by {
            if i < m.done.len() {
                assert(next.done[i] == m.done[i]);
            }
        }
    }
}

proof fn lemma_run_holds_names(m: Scan, s: Seq<char>, pos: int)
    requires
        scan_holds_names(m),
        0 <= pos,
        scan_run(m, s, pos) is Ok,
    ensures
        forall|i: int|
            0 <= i < scan_run(m, s, pos)->Ok_0.len() ==> is_attribute_name(
                (#[trigger] scan_run(m, s, pos)->Ok_0[i]).key,
            ),
    decreases s.len() - pos,
{
    if pos >= s.len() {
        let attributes = scan_finish(m)->Ok_0;
        assert forall|i: int| 0 <= i < attributes.len() implies is_attribute_name(
            (#[trigger] attributes[i]).key,
        ) by {
            if i < m.done.len() {
                assert(attributes[i] == m.done[i]);
            }
        }
    } else {
        lemma_step_holds_names(m, s, pos);
        lemma_run_holds_names(scan_step(m, s, pos)->Ok_0, s, pos + 1);
    }
}

/// Every key that the parser yields is an attribute name: it is not
/// empty, and holds no blank and no `=`.
pub proof fn lemma_parsed_keys_are_names(s: Seq<char>)
    requires
        parse_attributes(s) is Ok,
    ensures
        forall|i: int|
            0 <= i < parse_attributes(s)->Ok_0.len() ==> is_attribute_name(
                (#[trigger] parse_attributes(s)->Ok_0[i]).key,
            ),
{
    lemma_run_holds_names(scan_start(), s, 0);
}

} // verus!
