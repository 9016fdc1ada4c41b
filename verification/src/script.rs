//! What a scripting language hands over when it builds elements, and what
//! the library makes of it: attributes from the entries of a table, and
//! children from a value.

use crate::attribute::{AttributeView, OwnedAttribute};
use crate::element::{element_views, ElementView, OwnedElement};
use vstd::prelude::*;
use vstd::string::StringExecFns;

verus! {

/// The key of an entry of a table of attributes.
#[derive(Debug, Clone, PartialEq, Eq)]
pub enum ScriptKey {
    /// An integer: the entry stands in the list part of the table.
    Index,
    /// A string.
    Name(String),
    /// Anything else, which is no key of an attribute.
    Other,
}

/// What a key holds.
pub enum ScriptKeyView {
    Index,
    Name(Seq<char>),
    Other,
}

impl View for ScriptKey {
    type V = ScriptKeyView;

    open spec fn view(&self) -> ScriptKeyView {
        match self {
            ScriptKey::Index => ScriptKeyView::Index,
            ScriptKey::Name(name) => ScriptKeyView::Name(name@),
            ScriptKey::Other => ScriptKeyView::Other,
        }
    }
}

/// A value handed over as the children of an element.
#[derive(Debug, PartialEq, Eq)]
pub enum ScriptValue {
    /// A string.
    Text(String),
    /// A table that reads as one element.
    Element(OwnedElement),
    /// Any other table: the values of its list part.
    List(Vec<ScriptValue>),
    /// Anything else, by the name of its type.
    Other(String),
}

/// What a value holds.
pub enum ScriptValueView {
    Text(Seq<char>),
    Element(ElementView),
    List(Seq<ScriptValueView>),
    Other(Seq<char>),
}

impl View for ScriptValue {
    type V = ScriptValueView;

    open spec fn view(&self) -> ScriptValueView
        decreases self,
    {
        match self {
            ScriptValue::Text(text) => ScriptValueView::Text(text@),
            ScriptValue::Element(e) => ScriptValueView::Element(e@),
            ScriptValue::List(items) => ScriptValueView::List(
                Seq::new(
                    items@.len(),
                    |i: int|
                        if 0 <= i < items@.len() {
                            items@[i]@
                        } else {
                            ScriptValueView::Other(Seq::empty())
                        },
                ),
            ),
            ScriptValue::Other(name) => ScriptValueView::Other(name@),
        }
    }
}

/// What a list of values holds.
pub open spec fn script_views(values: Seq<ScriptValue>) -> Seq<ScriptValueView> {
    Seq::new(values.len(), |i: int| values[i]@)
}

/// Why a value was refused.
#[derive(Debug, Clone, PartialEq, Eq)]
pub enum ScriptError {
    /// The key of an attribute is neither an integer nor a string.
    InvalidAttributeKey,
    /// A value inside a list of children is neither a string nor a table.
    InvalidChild { kind: String },
    /// The children are neither a string nor a table.
    InvalidChildren { kind: String },
}

/// What an error holds.
pub enum ScriptErrorView {
    InvalidAttributeKey,
    InvalidChild { kind: Seq<char> },
    InvalidChildren { kind: Seq<char> },
}

impl View for ScriptError {
    type V = ScriptErrorView;

    open spec fn view(&self) -> ScriptErrorView {
        match self {
            ScriptError::InvalidAttributeKey => ScriptErrorView::InvalidAttributeKey,
            ScriptError::InvalidChild { kind } => ScriptErrorView::InvalidChild {
                kind: kind@,
            },
            ScriptError::InvalidChildren { kind } => ScriptErrorView::InvalidChildren {
                kind: kind@,
            },
        }
    }
}

/// An error in words.
pub open spec fn script_message_of(e: ScriptErrorView) -> Seq<char> {
    match e {
        ScriptErrorView::InvalidAttributeKey => "Invalid attribute key"@,
        ScriptErrorView::InvalidChild { kind } => "Invalid child type (child): "@ + kind,
        ScriptErrorView::InvalidChildren { kind } => "Invalid child type (children): "@
            + kind,
    }
}

impl ScriptError {
    /// The error in words.
    pub fn message(&self) -> (m: String)
        ensures
            m@ == script_message_of(self@),
    {
        match self {
            ScriptError::InvalidAttributeKey => "Invalid attribute key".to_owned(),
            ScriptError::InvalidChild { kind } => {
                let mut m = "Invalid child type (child): ".to_owned();
                m.append(kind.as_str());
                m
            },
            ScriptError::InvalidChildren { kind } => {
                let mut m = "Invalid child type (children): ".to_owned();
                m.append(kind.as_str());
                m
            },
        }
    }
}

/// The attribute that an entry of a table stands for: under an integer
/// key the value names a boolean attribute, under a string key it is the
/// value of the attribute of that name.
pub open spec fn attribute_of_entry(key: ScriptKeyView, value: Seq<char>) -> Result<
    AttributeView,
    ScriptErrorView,
> {
    match key {
        ScriptKeyView::Index => Ok(AttributeView { key: value, value: None }),
        ScriptKeyView::Name(name) => Ok(AttributeView { key: name, value: Some(value) }),
        ScriptKeyView::Other => Err(ScriptErrorView::InvalidAttributeKey),
    }
}

/// The attribute that an entry of a table stands for.
pub fn attribute_from_entry(key: ScriptKey, value: String) -> (r: Result<
    OwnedAttribute,
    ScriptError,
>)
    ensures
        match r {
            Ok(a) => attribute_of_entry(key@, value@) == Ok::<AttributeView, ScriptErrorView>(a@),
            Err(e) => attribute_of_entry(key@, value@) == Err::<AttributeView, ScriptErrorView>(
                e@,
            ),
        },
{
    match key {
        ScriptKey::Index => Ok(OwnedAttribute { key: value, value: None }),
        ScriptKey::Name(name) => Ok(OwnedAttribute { key: name, value: Some(value) }),
        ScriptKey::Other => Err(ScriptError::InvalidAttributeKey),
    }
}

/// The children that a value stands for: a string is one text, a table
/// that reads as an element is that element, any other table stands for
/// what its values stand for, in order, and anything else is refused.
/// `nested` says whether the value stands inside a list.
pub open spec fn children_of(value: ScriptValueView, nested: bool) -> Result<
    Seq<ElementView>,
    ScriptErrorView,
>
    decreases value,
{
    match value {
        ScriptValueView::Text(text) => Ok(seq![ElementView::Text { text }]),
        ScriptValueView::Element(e) => Ok(seq![e]),
        ScriptValueView::List(items) => children_of_all(items),
        ScriptValueView::Other(kind) => if nested {
            Err(ScriptErrorView::InvalidChild { kind })
        } else {
            Err(ScriptErrorView::InvalidChildren { kind })
        },
    }
}

/// The children that the values of a list stand for, in order, or the
/// first error among them.
pub open spec fn children_of_all(items: Seq<ScriptValueView>) -> Result<
    Seq<ElementView>,
    ScriptErrorView,
>
    decreases items,
{
    if items.len() == 0 {
        Ok(Seq::empty())
    } else {
        match children_of_all(items.drop_last()) {
            Err(e) => Err(e),
            Ok(done) => match children_of(items.last(), true) {
                Err(e) => Err(e),
                Ok(more) => Ok(done + more),
            },
        }
    }
}

proof fn lemma_children_fail_early(items: Seq<ScriptValueView>, n: int)
    requires
        0 <= n <= items.len(),
        children_of_all(items.take(n)) is Err,
    ensures
        children_of_all(items) == children_of_all(items.take(n)),
    decreases items.len() - n,
{
    if n == items.len() {
        assert(items.take(n) =~= items);
    } else {
        assert(items.drop_last().take(n) =~= items.take(n));
        lemma_children_fail_early(items.drop_last(), n);
    }
}

/// The children that a value stands for.
pub fn process_children_value(value: ScriptValue) -> (r: Result<Vec<OwnedElement>, ScriptError>)
    ensures
        match r {
            Ok(children) => children_of(value@, false) == Ok::<Seq<ElementView>, ScriptErrorView>(
                element_views(children@),
            ),
            Err(e) => children_of(value@, false) == Err::<Seq<ElementView>, ScriptErrorView>(e@),
        },
{
    children_from_value(value, false)
}

fn children_from_value(value: ScriptValue, nested: bool) -> (r: Result<
    Vec<OwnedElement>,
    ScriptError,
>)
    ensures
        match r {
            Ok(children) => children_of(value@, nested) == Ok::<
                Seq<ElementView>,
                ScriptErrorView,
            >(element_views(children@)),
            Err(e) => children_of(value@, nested) == Err::<Seq<ElementView>, ScriptErrorView>(e@),
        },
    decreases value,
{
    match value {
        ScriptValue::Text(text) => {
            let mut one: Vec<OwnedElement> = Vec::new();
            let e = OwnedElement::Text { text };
            one.push(e);
            assert(element_views(one@) =~= seq![e@]);
            Ok(one)
        },
        ScriptValue::Element(e) => {
            let mut one: Vec<OwnedElement> = Vec::new();
            one.push(e);
            assert(element_views(one@) =~= seq![e@]);
            Ok(one)
        },
        ScriptValue::List(items) => {
            assert(value@->List_0 =~= script_views(items@));
            children_from_values(items)
        },
        ScriptValue::Other(kind) => {
            if nested {
                Err(ScriptError::InvalidChild { kind })
            } else {
                Err(ScriptError::InvalidChildren { kind })
            }
        },
    }
}

fn children_from_values(items: Vec<ScriptValue>) -> (r: Result<Vec<OwnedElement>, ScriptError>)
    ensures
        match r {
            Ok(children) => children_of_all(script_views(items@)) == Ok::<
                Seq<ElementView>,
                ScriptErrorView,
            >(element_views(children@)),
            Err(e) => children_of_all(script_views(items@)) == Err::<
                Seq<ElementView>,
                ScriptErrorView,
            >(e@),
        },
    decreases items,
{
    let ghost all = items@;
    let ghost views = script_views(items@);
    let mut output: Vec<OwnedElement> = Vec::new();
    assert(views.take(0) =~= Seq::empty());
    assert(element_views(output@) =~= Seq::empty());
    for item in it: items
        invariant
            it.seq() == all,
            views == script_views(all),
            children_of_all(views.take(it.index() as int)) == Ok::<
                Seq<ElementView>,
                ScriptErrorView,
            >(element_views(output@)),
    {
        let ghost idx = it.index() as int;
        proof {
            assert(item == all[idx]);
            assert(views.take(idx + 1).drop_last() =~= views.take(idx));
            assert(views.take(idx + 1).last() == item@);
        }
        match children_from_value(item, true) {
            Err(e) => {
                proof {
                    lemma_children_fail_early(views, idx + 1);
                }
                return Err(e);
            },
            Ok(more) => {
                let ghost before = element_views(output@);
                let ghost added = element_views(more@);
                let mut more = more;
                output.append(&mut more);
                assert(element_views(output@) =~= before + added);
            },
        }
    }
    assert(views.take(all.len() as int) =~= views);
    Ok(output)
}

} // verus!
