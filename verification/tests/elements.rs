use paxhtml::builder::Builder;
use paxhtml::script::{
    attribute_from_entry, process_children_value, ScriptError, ScriptKey, ScriptValue,
};
use paxhtml::tags::{NON_VOID_TAGS, VOID_TAGS};
use paxhtml::text::{push_decimal, push_signed_decimal};
use paxhtml::util::{slug_of_lowercase, slugify};
use paxhtml::{
    prop_field, props_name, Attribute, Element, IntoAttribute, IntoElement, OwnedAttribute,
    OwnedElement, RoutePath,
};

fn text(s: &str) -> Element {
    Element::Text { text: String::from(s) }
}

#[test]
fn from_iter_collapses() {
    assert_eq!(Element::from_iter(vec![]), Element::Empty);
    assert_eq!(Element::from_iter(vec![text("a")]), text("a"));
    assert_eq!(
        Element::from_iter(vec![text("a"), Element::Empty]),
        Element::Fragment { children: vec![text("a"), Element::Empty] }
    );
}

#[test]
fn owned_names_are_the_same_types() {
    let attribute: OwnedAttribute = Attribute::new("a", "b");
    assert_eq!(attribute, OwnedAttribute::new("a", "b"));
    assert_eq!(OwnedAttribute::boolean("a"), Attribute::boolean("a"));
    let element: OwnedElement = Element::text("a");
    assert_eq!(element, OwnedElement::Text { text: String::from("a") });
}

#[test]
fn element_constructors_and_tests() {
    assert_eq!(Element::text("a<b"), text("a<b"));
    assert_eq!(Element::raw("<b>"), Element::Raw { html: String::from("<b>") });
    assert_eq!(Element::default(), Element::Empty);
    let tag = Builder::new().div(vec![Attribute::boolean("x")], "a");
    assert_eq!(tag.tag(), Some("div"));
    assert_eq!(tag.attrs(), Some(&[Attribute::boolean("x")][..]));
    assert_eq!(text("a").tag(), None);
    assert_eq!(text("a").attrs(), None);
    assert!(Element::Empty.is_empty() && !text("a").is_empty());
    assert!(tag.is_tag() && !text("a").is_tag());
    assert!(Element::Fragment { children: vec![] }.is_fragment() && !tag.is_fragment());
    assert!(text("a").is_text() && !tag.is_text());
    assert!(Element::raw("a").is_raw() && !text("a").is_raw());
    assert_eq!(tag.duplicate(), tag);
}

#[test]
fn inner_text_joins_texts_and_leaves_raw_out() {
    let b = Builder::new();
    let tree = b.div(
        vec![b.attr(("title", "not text"))],
        vec![
            b.text("a"),
            b.raw("<i>raw</i>"),
            b.fragment(vec![b.p(vec![], "b"), Element::Empty, b.text("c")]),
            b.br(vec![]),
        ],
    );
    assert_eq!(tree.inner_text(), "abc");
    assert_eq!(Element::Empty.inner_text(), "");
    assert_eq!(Element::raw("x").inner_text(), "");
    assert_eq!(text("x").inner_text(), "x");
}

#[test]
fn into_attribute_conversions() {
    assert_eq!(Attribute::new("a", "b").into_attribute(), Attribute::new("a", "b"));
    assert_eq!("a".into_attribute(), Attribute::boolean("a"));
    assert_eq!(("a", "b").into_attribute(), Attribute::new("a", "b"));
    assert_eq!(("a", String::from("b")).into_attribute(), Attribute::new("a", "b"));
    assert_eq!((String::from("a"), "b").into_attribute(), Attribute::new("a", "b"));
    assert_eq!((String::from("a"), String::from("b")).into_attribute(), Attribute::new("a", "b"));
}

#[test]
fn into_element_conversions() {
    assert_eq!(text("a").into_element(), text("a"));
    assert_eq!("a".into_element(), text("a"));
    assert_eq!(String::from("a").into_element(), text("a"));
    assert_eq!((&String::from("a")).into_element(), text("a"));
    assert_eq!(Some("a").into_element(), text("a"));
    assert_eq!(None::<Element>.into_element(), Element::Empty);
    assert_eq!(Vec::<Element>::new().into_element(), Element::Empty);
    assert_eq!(vec![text("a")].into_element(), text("a"));
    assert_eq!(
        vec![text("a"), text("b")].into_element(),
        Element::Fragment { children: vec![text("a"), text("b")] }
    );
}

#[test]
fn builder_tag_takes_the_children_of_a_fragment() {
    let b = Builder::new();
    let expected = |children: Vec<Element>, void: bool| Element::Tag {
        name: String::from("x"),
        attributes: vec![Attribute::new("k", "v")],
        children,
        void,
    };
    let attrs = || vec![Attribute::new("k", "v")];
    assert_eq!(b.tag("x", attrs(), false, Element::Empty), expected(vec![], false));
    assert_eq!(b.tag("x", attrs(), false, "a"), expected(vec![text("a")], false));
    assert_eq!(
        b.tag("x", attrs(), false, vec![text("a"), text("b")]),
        expected(vec![text("a"), text("b")], false)
    );
    // A void tag may be given children: rendering finds out.
    assert_eq!(b.tag("x", attrs(), true, "a"), expected(vec![text("a")], true));
}

#[test]
fn builder_methods() {
    let b = Builder::new();
    assert_eq!(b.text("a"), text("a"));
    assert_eq!(b.raw("a"), Element::raw("a"));
    assert_eq!(b.attr("a"), Attribute::boolean("a"));
    assert_eq!(b.fragment(vec![]), Element::Empty);
    assert_eq!(
        b.doctype(vec![b.attr("html")]),
        Element::Tag {
            name: String::from("!DOCTYPE"),
            attributes: vec![Attribute::boolean("html")],
            children: vec![],
            void: true,
        }
    );
    assert_eq!(
        b.img(vec![b.attr(("src", "a.png"))]),
        Element::Tag {
            name: String::from("img"),
            attributes: vec![Attribute::new("src", "a.png")],
            children: vec![],
            void: true,
        }
    );
    assert_eq!(
        b.sub(vec![], "2"),
        Element::Tag {
            name: String::from("sub"),
            attributes: vec![],
            children: vec![text("2")],
            void: false,
        }
    );
    assert_eq!(b.document(vec![b.text("\n")]).children, vec![]);
}

#[test]
fn tag_lists() {
    assert_eq!(NON_VOID_TAGS.len(), 45);
    assert_eq!(VOID_TAGS.len(), 14);
    assert_eq!(NON_VOID_TAGS[0], "head");
    assert_eq!(NON_VOID_TAGS[44], "video");
    assert_eq!(VOID_TAGS[0], "area");
    assert_eq!(VOID_TAGS[13], "img");
    assert!(NON_VOID_TAGS.iter().all(|name| !VOID_TAGS.contains(name)));
}

#[test]
fn route_url_paths() {
    let segments = |names: &[&str]| names.iter().map(|s| String::from(*s)).collect::<Vec<_>>();
    assert_eq!(RoutePath::new(vec![], None).url_path(), "/");
    assert_eq!(RoutePath::new(segments(&["blog", "post"]), None).url_path(), "/blog/post/");
    assert_eq!(
        RoutePath::new(segments(&["blog", "post"]), Some("feed.xml")).url_path(),
        "/blog/post/feed.xml"
    );
    assert_eq!(RoutePath::new(vec![], Some("robots.txt")).url_path(), "/robots.txt");
    assert_eq!(RoutePath::new(segments(&["a/"]), None).url_path(), "/a/");
    assert_eq!(RoutePath::new(segments(&[""]), None).url_path(), "/");
    assert_eq!(RoutePath::new(segments(&["", "a"]), None).url_path(), "//a/");
    assert_eq!(
        RoutePath::new(segments(&["blog"]), None).abs_url("https://example.com"),
        "https://example.com/blog/"
    );
}

#[test]
fn route_file_names() {
    let route = RoutePath::new(vec![String::from("blog")], None);
    assert_eq!(route.filename(), "index.html");
    assert!(!route.has_filename());
    assert_eq!(route.segments(), &vec![String::from("blog")]);
    let named = route.with_filename("feed.xml");
    assert_eq!(named.filename(), "feed.xml");
    assert!(named.has_filename());
    assert_eq!(named, RoutePath::new(vec![String::from("blog")], Some("feed.xml")));
}

#[test]
fn slugs() {
    assert_eq!(slugify("Hello World"), "hello-world");
    assert_eq!(slugify("AB"), "ab");
    assert_eq!(slugify("a - b"), "a---b");
    assert_eq!(slugify("Rust 2021: what's new?"), "rust-2021-whats-new");
    assert_eq!(slugify("Çà et là_1"), "-et-l1");
    assert_eq!(slugify(""), "");
    assert_eq!(slug_of_lowercase("AB c"), "-c");
}

#[test]
fn decimals() {
    let show = |n: u64| {
        let mut out = String::from("n=");
        push_decimal(&mut out, n);
        out
    };
    assert_eq!(show(0), "n=0");
    assert_eq!(show(7), "n=7");
    assert_eq!(show(10), "n=10");
    assert_eq!(show(1234567890), "n=1234567890");
    assert_eq!(show(u64::MAX), "n=18446744073709551615");
    let signed = |n: i64| {
        let mut out = String::new();
        push_signed_decimal(&mut out, n);
        out
    };
    assert_eq!(signed(0), "0");
    assert_eq!(signed(-1), "-1");
    assert_eq!(signed(42), "42");
    assert_eq!(signed(i64::MIN), "-9223372036854775808");
    assert_eq!(signed(i64::MAX), "9223372036854775807");
}

#[test]
fn script_attributes() {
    assert_eq!(
        attribute_from_entry(ScriptKey::Index, String::from("disabled")),
        Ok(Attribute::boolean("disabled"))
    );
    assert_eq!(
        attribute_from_entry(ScriptKey::Name(String::from("id")), String::from("x")),
        Ok(Attribute::new("id", "x"))
    );
    assert_eq!(
        attribute_from_entry(ScriptKey::Other, String::from("x")),
        Err(ScriptError::InvalidAttributeKey)
    );
    assert_eq!(ScriptError::InvalidAttributeKey.message(), "Invalid attribute key");
}

#[test]
fn script_children() {
    let s = |t: &str| ScriptValue::Text(String::from(t));
    assert_eq!(process_children_value(s("a")), Ok(vec![text("a")]));
    assert_eq!(
        process_children_value(ScriptValue::Element(Element::Empty)),
        Ok(vec![Element::Empty])
    );
    assert_eq!(
        process_children_value(ScriptValue::List(vec![
            s("a"),
            ScriptValue::List(vec![s("b"), ScriptValue::List(vec![]), s("c")]),
            ScriptValue::Element(Element::raw("d")),
        ])),
        Ok(vec![text("a"), text("b"), text("c"), Element::raw("d")])
    );
    assert_eq!(process_children_value(ScriptValue::List(vec![])), Ok(vec![]));
    let nested = process_children_value(ScriptValue::List(vec![
        s("a"),
        ScriptValue::List(vec![ScriptValue::Other(String::from("number"))]),
        ScriptValue::Other(String::from("boolean")),
    ]));
    assert_eq!(nested, Err(ScriptError::InvalidChild { kind: String::from("number") }));
    assert_eq!(nested.unwrap_err().message(), "Invalid child type (child): number");
    let top = process_children_value(ScriptValue::Other(String::from("nil")));
    assert_eq!(top, Err(ScriptError::InvalidChildren { kind: String::from("nil") }));
    assert_eq!(top.unwrap_err().message(), "Invalid child type (children): nil");
}

#[test]
fn component_names() {
    assert_eq!(props_name("Card"), "CardProps");
    assert_eq!(prop_field("my-attribute"), "my_attribute");
    assert_eq!(prop_field("a--b_c"), "a__b_c");
    assert_eq!(prop_field(""), "");
}
