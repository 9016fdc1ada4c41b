use paxhtml::builder::Builder;
use paxhtml::{Attribute, Document, Element, OwnedElement, RenderElement};

#[test]
fn test_inline_code() {
    let b = Builder::new();
    let input = b.document(vec![b.p(
        vec![],
        vec![
            b.text("This is an example of "),
            b.code(vec![], b.text("inline code")),
            b.text(" in a paragraph."),
        ],
    )]);

    let output = input.write_to_string().unwrap();
    assert_eq!(
        output,
        "<p>This is an example of <code>inline code</code> in a paragraph.</p>"
    );
}

#[test]
fn test_empty_ul_with_tags_class() {
    let b = Builder::new();
    let input = b.document(vec![b.ul(vec![b.attr(("class", "tags"))], Vec::<Element>::new())]);
    let output = input.write_to_string().unwrap();
    assert_eq!(output, "<ul class=\"tags\"></ul>");
}

#[test]
fn test_void_element() {
    let b = Builder::new();
    let input = b.document(vec![b.br(vec![])]);
    let output = input.write_to_string().unwrap();
    assert_eq!(output, "<br>");
}

#[test]
fn should_indent_successive_p_tags_in_a_fragment() {
    let b = Builder::new();
    let input_elements = b.document(vec![b.div(
        vec![],
        vec![b.p(vec![], b.text("Hello")), b.p(vec![], b.text("World"))],
    )]);
    let output = input_elements.write_to_string().unwrap();
    assert_eq!(output, "<div>\n  <p>Hello</p>\n  <p>World</p>\n</div>");
}

#[test]
fn test_new_with_doctype() {
    let b = Builder::new();
    let input = b.document_with_doctype(b.html(vec![], b.body(vec![], b.text("Hello"))));
    let output = input.write_to_string().unwrap();
    assert_eq!(output, "<!DOCTYPE html><html>\n  <body>Hello</body>\n</html>");
}

#[test]
fn wont_indent_text_surrounded_by_tags() {
    let b = Builder::new();
    let element = b.h3(
        vec![],
        vec![
            b.small(vec![], b.text("test ")),
            b.text("tested"),
            b.small(vec![], b.text("!")),
        ],
    );
    let render_elements = RenderElement::from_elements(vec![element]);
    let output = RenderElement::write_many_to_string(&render_elements).unwrap();
    assert_eq!(output, r#"<h3><small>test </small>tested<small>!</small></h3>"#.trim());
}

#[test]
fn wont_indent_inline_elements() {
    let b = Builder::new();
    let elements = vec![
        b.text("test "),
        b.a(vec![b.attr(("href", "https://example.com"))], vec![b.text("tested")]),
        b.text("!"),
    ];
    let render_elements = RenderElement::from_elements(elements);
    let output = RenderElement::write_many_to_string(&render_elements).unwrap();
    assert_eq!(output, r#"test <a href="https://example.com">tested</a>!"#);
}

fn render(elements: Vec<Element>) -> String {
    Document::new(elements).write_to_string().unwrap()
}

#[test]
fn text_is_escaped() {
    let b = Builder::new();
    assert_eq!(
        render(vec![b.p(vec![], b.text("1 < 2 && 3 > 2 \"quoted\" 'single'"))]),
        "<p>1 &lt; 2 &amp;&amp; 3 &gt; 2 \"quoted\" 'single'</p>"
    );
}

#[test]
fn attribute_values_are_escaped() {
    let b = Builder::new();
    assert_eq!(
        render(vec![b.div(
            vec![b.attr(("title", "a \"b\" & <c> 'd'")), b.attr("hidden")],
            Element::Empty,
        )]),
        "<div title=\"a &quot;b&quot; &amp; &lt;c&gt; &#x27;d&#x27;\" hidden></div>"
    );
}

#[test]
fn attribute_keys_and_boolean_attributes_are_not_escaped() {
    let b = Builder::new();
    assert_eq!(
        render(vec![b.tag("x", vec![b.attr("a<b"), b.attr(("c&d", "e"))], false, Element::Empty)]),
        "<x a<b c&d=\"e\"></x>"
    );
}

#[test]
fn raw_is_written_as_it_is() {
    let b = Builder::new();
    assert_eq!(
        render(vec![b.div(vec![], vec![b.raw("<b>&amp;</b>\n"), b.p(vec![], b.text("x"))])]),
        "<div><b>&amp;</b>\n\n  <p>x</p>\n</div>"
    );
}

#[test]
fn raw_is_not_preceded_by_a_line_break() {
    let b = Builder::new();
    assert_eq!(
        render(vec![b.div(vec![], vec![b.raw("<hr>"), b.raw("<hr>")])]),
        "<div><hr><hr></div>"
    );
}

#[test]
fn no_line_break_after_a_text_sibling() {
    let b = Builder::new();
    assert_eq!(
        render(vec![b.div(
            vec![],
            vec![b.p(vec![], b.text("a")), b.text("b"), b.p(vec![], b.text("c"))],
        )]),
        "<div>\n  <p>a</p>b<p>c</p>\n</div>"
    );
}

#[test]
fn top_level_siblings_are_not_indented() {
    let b = Builder::new();
    assert_eq!(
        render(vec![b.p(vec![], b.text("a")), b.p(vec![], b.text("b"))]),
        "<p>a</p><p>b</p>"
    );
}

#[test]
fn nested_blocks_are_indented_by_depth() {
    let b = Builder::new();
    assert_eq!(
        render(vec![b.div(
            vec![],
            b.ul(vec![], vec![b.li(vec![], b.text("a")), b.li(vec![], b.text("b"))]),
        )]),
        "<div>\n  <ul>\n    <li>a</li>\n    <li>b</li>\n  </ul>\n</div>"
    );
}

#[test]
fn write_at_a_depth() {
    let b = Builder::new();
    let elements = RenderElement::from_elements(vec![b.div(vec![], b.p(vec![], b.text("a")))]);
    let mut out = String::from(">");
    let indented = RenderElement::write_many(&mut out, &elements, 2).unwrap();
    assert!(indented);
    assert_eq!(out, ">\n    <div>\n      <p>a</p>\n    </div>");
    let mut one = String::new();
    elements[0].write(&mut one, 1).unwrap();
    assert_eq!(one, "<div>\n    <p>a</p>\n  </div>");
    assert_eq!(elements[0].write_to_string().unwrap(), "<div>\n  <p>a</p>\n</div>");
}

#[test]
fn write_many_says_whether_it_indented() {
    let b = Builder::new();
    let inline = RenderElement::from_elements(vec![b.span(vec![], b.text("a"))]);
    let mut out = String::new();
    assert!(!RenderElement::write_many(&mut out, &inline, 3).unwrap());
    let block = RenderElement::from_elements(vec![b.p(vec![], b.text("a"))]);
    assert!(!RenderElement::write_many(&mut out, &block, 0).unwrap());
    assert!(RenderElement::write_many(&mut out, &block, 1).unwrap());
}

#[test]
fn text_lines_are_joined_by_line_feeds() {
    let b = Builder::new();
    assert_eq!(render(vec![b.text("a\r\nb\nc\n")]), "a\nb\nc");
    assert_eq!(render(vec![b.text("a\n\n")]), "a\n");
    assert_eq!(render(vec![b.text("a\rb\r")]), "a\rb\r");
    assert_eq!(render(vec![b.text("\r\r\n")]), "\r");
    assert_eq!(render(vec![b.text("")]), "");
}

#[test]
fn void_element_with_children_is_an_error() {
    let b = Builder::new();
    let bad = b.tag("br", vec![b.attr("x")], true, b.text("inside"));
    let elements = RenderElement::from_elements(vec![b.div(vec![], vec![b.p(vec![], "ok"), bad])]);
    let error = RenderElement::write_many_to_string(&elements).unwrap_err();
    assert_eq!(
        error.element,
        RenderElement::Tag {
            name: String::from("br"),
            attributes: vec![Attribute::boolean("x")],
            children: vec![RenderElement::Text { text: String::from("inside") }],
            void: true,
        }
    );
    let mut out = String::from("kept");
    assert!(Document::new(vec![b.tag("hr", vec![], true, "x")]).write(&mut out).is_err());
    assert!(out.starts_with("kept"));
}

#[test]
fn inline_elements() {
    for name in [
        "a", "abbr", "acronym", "b", "bdo", "big", "br", "button", "cite", "code", "dfn", "em",
        "i", "img", "input", "kbd", "label", "map", "pre", "object", "output", "q", "samp",
        "script", "select", "small", "span", "strong", "sub", "sup", "textarea", "time", "tt",
        "var",
    ] {
        let e = RenderElement::Tag {
            name: String::from(name),
            attributes: vec![],
            children: vec![],
            void: false,
        };
        assert!(e.is_inline_element(), "{}", name);
        assert_eq!(e.tag(), Some(name));
        assert!(!e.is_raw());
    }
    for name in ["div", "p", "A", "spans", ""] {
        let e = RenderElement::Tag {
            name: String::from(name),
            attributes: vec![],
            children: vec![],
            void: false,
        };
        assert!(!e.is_inline_element(), "{}", name);
    }
    let text = RenderElement::Text { text: String::from("a") };
    assert!(!text.is_inline_element());
    assert!(text.is_text());
    assert_eq!(text.tag(), None);
    assert!(RenderElement::Raw { html: String::from("a") }.is_raw());
}

#[test]
fn normalization_drops_and_splices() {
    let b = Builder::new();
    let elements = vec![
        Element::Empty,
        b.text("\n"),
        OwnedElement::Fragment {
            children: vec![
                b.text("a"),
                OwnedElement::Fragment { children: vec![b.raw("b"), Element::Empty] },
            ],
        },
        b.text("\n\n"),
        OwnedElement::Tag {
            name: String::from("p"),
            attributes: vec![],
            children: vec![b.text("\n"), OwnedElement::Fragment { children: vec![b.text("c")] }],
            void: false,
        },
    ];
    assert_eq!(
        RenderElement::from_elements(elements),
        vec![
            RenderElement::Text { text: String::from("a") },
            RenderElement::Raw { html: String::from("b") },
            RenderElement::Text { text: String::from("\n\n") },
            RenderElement::Tag {
                name: String::from("p"),
                attributes: vec![],
                children: vec![RenderElement::Text { text: String::from("c") }],
                void: false,
            },
        ]
    );
}

#[test]
fn normalization_is_idempotent() {
    let b = Builder::new();
    let elements = vec![
        b.text("\n"),
        b.div(
            vec![b.attr(("id", "x"))],
            vec![Element::Empty, b.text("a"), b.fragment(vec![b.raw("b"), b.br(vec![])])],
        ),
        b.fragment(vec![b.text("c"), b.text("\n")]),
    ];
    let once = RenderElement::from_elements(elements);
    let again = RenderElement::from_elements(RenderElement::into_elements(
        RenderElement::duplicate_all(&once),
    ));
    assert_eq!(again, once);
    assert_eq!(once.len(), 2);
}

#[test]
fn render_elements_are_copied_whole() {
    let b = Builder::new();
    let once = RenderElement::from_elements(vec![b.div(vec![b.attr("x")], b.p(vec![], "a"))]);
    assert_eq!(once[0].duplicate(), once[0]);
    assert_eq!(RenderElement::duplicate_all(&once), once);
}
