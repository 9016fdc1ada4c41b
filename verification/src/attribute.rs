//! Attributes: a key, and a value unless the attribute is a boolean one.

use vstd::prelude::*;

verus! {

/// A key-value pair for an HTML attribute. Without a value it is a boolean
/// attribute, written as the bare key.
///
/// A key is meant not to be empty. The constructors take any key; what the
/// attribute parser yields has a key that is an attribute name.
#[derive(Debug, Clone, PartialEq, Eq)]
pub struct OwnedAttribute {
    /// The key of the attribute.
    pub key: String,
    /// The value of the attribute.
    pub value: Option<String>,
}

/// The name under which trees are authored: an attribute owns its strings.
pub type Attribute = OwnedAttribute;

/// What an attribute holds.
pub struct AttributeView {
    pub key: Seq<char>,
    pub value: Option<Seq<char>>,
}

impl View for OwnedAttribute {
    type V = AttributeView;

    open spec fn view(&self) -> AttributeView {
        AttributeView {
            key: self.key@,
            value: match self.value {
                Some(v) => Some(v@),
                None => None,
            },
        }
    }
}

/// What a list of attributes holds.
pub open spec fn attribute_views(attributes: Seq<OwnedAttribute>) -> Seq<AttributeView> {
    attributes.map_values(|a: OwnedAttribute| a@)
}

impl OwnedAttribute {
    /// Create a new attribute with a key and value.
    pub fn new(key: &str, value: &str) -> (a: Self)
        ensures
            a@ == (AttributeView { key: key@, value: Some(value@) }),
    {
        OwnedAttribute { key: key.to_owned(), value: Some(value.to_owned()) }
    }

    /// Create a boolean attribute (no value).
    pub fn boolean(key: &str) -> (a: Self)
        ensures
            a@ == (AttributeView { key: key@, value: None }),
    {
        OwnedAttribute { key: key.to_owned(), value: None }
    }

    /// Create an attribute with an optional value.
    pub fn with_optional_value(key: &str, value: Option<&str>) -> (a: Self)
        ensures
            a@.key == key@,
            match value {
                Some(v) => a@.value == Some(v@),
                None => a@.value is None,
            },
    {
        match value {
            Some(v) => OwnedAttribute { key: key.to_owned(), value: Some(v.to_owned()) },
            None => OwnedAttribute { key: key.to_owned(), value: None },
        }
    }

    /// A copy of this attribute.
    pub fn duplicate(&self) -> (a: Self)
        ensures
            a@ == self@,
    {
        match &self.value {
            Some(v) => OwnedAttribute { key: self.key.clone(), value: Some(v.clone()) },
            None => OwnedAttribute { key: self.key.clone(), value: None },
        }
    }
}

/// A copy of a list of attributes.
pub fn duplicate_attributes(attributes: &Vec<OwnedAttribute>) -> (copy: Vec<OwnedAttribute>)
    ensures
        attribute_views(copy@) == attribute_views(attributes@),
{
    let mut copy: Vec<OwnedAttribute> = Vec::new();
    let mut i: usize = 0;
    while i < attributes.len()
        invariant
            i <= attributes.len(),
            attribute_views(copy@) == attribute_views(attributes@).take(i as int),
        decreases attributes.len() - i,
    {
        let ghost before = copy@;
        let a = attributes[i].duplicate();
        copy.push(a);
        assert(attribute_views(copy@) =~= attribute_views(before).push(attributes@[i as int]@));
        assert(attribute_views(attributes@).take(i + 1) =~= attribute_views(attributes@).take(
            i as int,
        ).push(attributes@[i as int]@));
        i += 1;
    }
    assert(attribute_views(attributes@).take(i as int) =~= attribute_views(attributes@));
    copy
}

/// Trait for types that can be converted into an attribute: an attribute
/// itself, a key alone for a boolean attribute, or a pair of key and
/// value.
pub trait IntoAttribute: Sized {
    /// What the attribute will hold.
    spec fn attribute(self) -> AttributeView;

    /// Convert this value into an attribute.
    fn into_attribute(self) -> (a: OwnedAttribute)
        ensures
            a@ == self.attribute(),
    ;
}

impl IntoAttribute for OwnedAttribute {
    open spec fn attribute(self) -> AttributeView {
        self@
    }

    fn into_attribute(self) -> (a: OwnedAttribute) {
        self
    }
}

impl<'a> IntoAttribute for &'a str {
    open spec fn attribute(self) -> AttributeView {
        AttributeView { key: self@, value: None }
    }

    fn into_attribute(self) -> (a: OwnedAttribute) {
        OwnedAttribute::boolean(self)
    }
}

impl<'a, 'b> IntoAttribute for (&'a str, &'b str) {
    open spec fn attribute(self) -> AttributeView {
        AttributeView { key: self.0@, value: Some(self.1@) }
    }

    fn into_attribute(self) -> (a: OwnedAttribute) {
        OwnedAttribute::new(self.0, self.1)
    }
}

impl<'a> IntoAttribute for (&'a str, String) {
    open spec fn attribute(self) -> AttributeView {
        AttributeView { key: self.0@, value: Some(self.1@) }
    }

    fn into_attribute(self) -> (a: OwnedAttribute) {
        OwnedAttribute { key: self.0.to_owned(), value: Some(self.1) }
    }
}

impl<'a> IntoAttribute for (String, &'a str) {
    open spec fn attribute(self) -> AttributeView {
        AttributeView { key: self.0@, value: Some(self.1@) }
    }

    fn into_attribute(self) -> (a: OwnedAttribute) {
        OwnedAttribute { key: self.0, value: Some(self.1.to_owned()) }
    }
}

impl IntoAttribute for (String, String) {
    open spec fn attribute(self) -> AttributeView {
        AttributeView { key: self.0@, value: Some(self.1@) }
    }

    fn into_attribute(self) -> (a: OwnedAttribute) {
        OwnedAttribute { key: self.0, value: Some(self.1) }
    }
}

} // verus!
