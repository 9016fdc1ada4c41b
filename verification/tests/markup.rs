use paxhtml::{
    eval_node, is_custom_component, parse_html, parse_html_ast, AstAttribute, AstNode,
    AttributeValue, Document, Element, EvalError, ParseError, ParseErrorKind, ParseHtmlError,
    RenderElement,
};

#[test]
fn test_parse_simple_element() {
    let html = r#"<div class="container">"Hello"</div>"#;
    let result = parse_html_ast(html).unwrap();

    match result {
        AstNode::Element { name, children, .. } => {
            assert_eq!(name, "div");
            assert_eq!(children.len(), 1);
            match &children[0] {
                AstNode::Text(text) => assert_eq!(text, "Hello"),
                _ => panic!("Expected text node"),
            }
        }
        _ => panic!("Expected element"),
    }
}

#[test]
fn test_parse_void_element() {
    let html = r#"<input r#type="text" />"#;
    let result = parse_html_ast(html).unwrap();

    match result {
        AstNode::Element { name, void, attributes, .. } => {
            assert_eq!(name, "input");
            assert!(void);
            assert_eq!(attributes.len(), 1);
        }
        _ => panic!("Expected element"),
    }
}

#[test]
fn test_parse_nested_elements() {
    let html = r#"<div><p>"Hello"</p><span>"World"</span></div>"#;
    let result = parse_html_ast(html).unwrap();

    match result {
        AstNode::Element { children, .. } => {
            assert_eq!(children.len(), 2);
        }
        _ => panic!("Expected element"),
    }
}

#[test]
fn test_parse_fragment() {
    let html = r#"<><div>"First"</div><div>"Second"</div></>"#;
    let result = parse_html_ast(html).unwrap();

    match result {
        AstNode::Fragment(children) => {
            assert_eq!(children.len(), 2);
        }
        _ => panic!("Expected fragment"),
    }
}

#[test]
fn test_parse_attribute_without_value() {
    let html = r#"<input disabled />"#;
    let result = parse_html_ast(html).unwrap();

    match result {
        AstNode::Element { attributes, .. } => {
            assert_eq!(attributes.len(), 1);
            match &attributes[0] {
                AstAttribute::Named { name, value } => {
                    assert_eq!(name, "disabled");
                    assert!(value.is_none());
                }
                _ => panic!("Expected named attribute"),
            }
        }
        _ => panic!("Expected element"),
    }
}

#[test]
fn test_eval_simple_element() {
    let html = r#"<div class="container">"Hello"</div>"#;
    let ast = parse_html_ast(html).unwrap();
    let element = eval_node(&ast).unwrap();

    match element {
        Element::Tag { name, attributes, children, void } => {
            assert_eq!(name.as_str(), "div");
            assert!(!void);
            assert_eq!(attributes.len(), 1);
            assert_eq!(attributes[0].key.as_str(), "class");
            assert_eq!(
                attributes[0].value.as_ref().map(|s| s.as_str()),
                Some("container")
            );
            assert_eq!(children.len(), 1);
            match &children[0] {
                Element::Text { text } => assert_eq!(text.as_str(), "Hello"),
                _ => panic!("Expected text element"),
            }
        }
        _ => panic!("Expected tag element"),
    }
}

#[test]
fn test_eval_void_element() {
    let html = r#"<input r#type="text" />"#;
    let ast = parse_html_ast(html).unwrap();
    let element = eval_node(&ast).unwrap();

    match element {
        Element::Tag { name, void, .. } => {
            assert_eq!(name.as_str(), "input");
            assert!(void);
        }
        _ => panic!("Expected tag element"),
    }
}

#[test]
fn test_eval_nested_elements() {
    let html = r#"<div><p>"Hello"</p><span>"World"</span></div>"#;
    let ast = parse_html_ast(html).unwrap();
    let element = eval_node(&ast).unwrap();

    match element {
        Element::Tag { children, .. } => {
            assert_eq!(children.len(), 2);
        }
        _ => panic!("Expected tag element"),
    }
}

#[test]
fn test_eval_fragment() {
    let html = r#"<><div>"First"</div><div>"Second"</div></>"#;
    let ast = parse_html_ast(html).unwrap();
    let element = eval_node(&ast).unwrap();

    match element {
        Element::Fragment { children } => {
            assert_eq!(children.len(), 2);
        }
        _ => panic!("Expected fragment"),
    }
}

#[test]
fn test_eval_attribute_without_value() {
    let html = r#"<input disabled />"#;
    let ast = parse_html_ast(html).unwrap();
    let element = eval_node(&ast).unwrap();

    match element {
        Element::Tag { attributes, .. } => {
            assert_eq!(attributes.len(), 1);
            assert_eq!(attributes[0].key.as_str(), "disabled");
            assert_eq!(attributes[0].value, None);
        }
        _ => panic!("Expected tag element"),
    }
}

#[test]
fn test_runtime_parse_simple_html() {
    let html = r#"<div class="container"><p>"Hello, world!"</p></div>"#;
    let element = parse_html(html).unwrap();
    let doc = Document::new(vec![element]);
    let output = doc.write_to_string().unwrap();

    assert!(output.contains(r#"<div class="container">"#));
    assert!(output.contains("<p>Hello, world!</p>"));
}

#[test]
fn test_runtime_parse_nested_structure() {
    let html = r#"<ul><li>"First"</li><li>"Second"</li><li>"Third"</li></ul>"#;
    let element = parse_html(html).unwrap();
    let doc = Document::new(vec![element]);
    let output = doc.write_to_string().unwrap();

    assert!(output.contains("<ul>"));
    assert!(output.contains("<li>First</li>"));
    assert!(output.contains("<li>Second</li>"));
    assert!(output.contains("<li>Third</li>"));
}

#[test]
fn test_runtime_parse_void_elements() {
    let html = r#"<input r#type="text" placeholder="Enter name" />"#;
    let element = parse_html(html).unwrap();
    let doc = Document::new(vec![element]);
    let output = doc.write_to_string().unwrap();

    // Check for the essential parts - void elements are rendered without self-closing slash
    assert!(output.contains("<input"));
    assert!(output.contains(r#"type="text""#));
    assert!(output.contains(r#"placeholder="Enter name""#));
    assert_eq!(output, r#"<input type="text" placeholder="Enter name">"#);
}

#[test]
fn test_runtime_parse_fragment() {
    let html = r#"<><div>"First"</div><div>"Second"</div></>"#;
    let element = parse_html(html).unwrap();
    let doc = Document::new(vec![element]);
    let output = doc.write_to_string().unwrap();

    assert!(output.contains("<div>First</div>"));
    assert!(output.contains("<div>Second</div>"));
}

#[test]
fn test_runtime_parse_attributes_without_values() {
    let html = r#"<input disabled checked />"#;
    let element = parse_html(html).unwrap();
    let doc = Document::new(vec![element]);
    let output = doc.write_to_string().unwrap();

    assert!(output.contains("disabled"));
    assert!(output.contains("checked"));
}

#[test]
fn test_runtime_parse_custom_element_name() {
    // Custom elements (uppercase) should still be parsed as regular tags at runtime
    let html = r#"<MyComponent foo="bar">"content"</MyComponent>"#;
    let element = parse_html(html).unwrap();
    let doc = Document::new(vec![element]);
    let output = doc.write_to_string().unwrap();

    // Custom components are left as regular HTML elements at runtime
    assert!(output.contains(r#"<MyComponent foo="bar">"#));
    assert!(output.contains("content"));
    assert!(output.contains("</MyComponent>"));
}

#[test]
fn test_runtime_parse_rejects_interpolation() {
    let html = r#"<div>{some_expr}</div>"#;
    let result = parse_html(html);

    // Interpolation has no meaning without code
    assert!(result.is_err());
}

fn text(s: &str) -> AstNode {
    AstNode::Text(String::from(s))
}

fn element(name: &str, attributes: Vec<AstAttribute>, children: Vec<AstNode>) -> AstNode {
    AstNode::Element { name: String::from(name), attributes, children, void: false }
}

fn named(name: &str, value: Option<AttributeValue>) -> AstAttribute {
    AstAttribute::Named { name: String::from(name), value }
}

fn failure(kind: ParseErrorKind, position: usize) -> ParseError {
    ParseError::new(kind, position)
}

#[test]
fn interpolation_is_refused_with_its_own_error() {
    let error = parse_html("<div>{expr}</div>").unwrap_err();
    assert_eq!(error, ParseHtmlError::Eval(EvalError::InterpolationNotSupported));
    assert!(error.message().contains("Interpolation"));
    assert_eq!(
        error.message(),
        "Evaluation error: Interpolation is not supported in runtime HTML evaluation"
    );
}

#[test]
fn expression_attribute_is_refused_with_its_own_error() {
    let error = parse_html("<div class={x}></div>").unwrap_err();
    assert_eq!(error, ParseHtmlError::Eval(EvalError::ExpressionAttributeNotSupported));
    assert_eq!(
        error.message(),
        "Evaluation error: Expression attributes are not supported in runtime HTML evaluation"
    );
    assert_eq!(
        parse_html("<div {attrs}></div>").unwrap_err(),
        ParseHtmlError::Eval(EvalError::InterpolationNotSupported)
    );
}

#[test]
fn attributes_are_evaluated_before_children() {
    assert_eq!(
        parse_html("<div class={x}>{y}</div>").unwrap_err(),
        ParseHtmlError::Eval(EvalError::ExpressionAttributeNotSupported)
    );
    assert_eq!(
        parse_html("<div><p>{y}</p><p class={x}></p></div>").unwrap_err(),
        ParseHtmlError::Eval(EvalError::InterpolationNotSupported)
    );
}

#[test]
fn syntax_errors_come_before_evaluation_errors() {
    let error = parse_html("<div>{y}</p>").unwrap_err();
    assert_eq!(
        error,
        ParseHtmlError::Parse(failure(ParseErrorKind::MismatchedClosingTag, 10))
    );
    assert_eq!(error.message(), "Parse error: mismatched opening and closing tags");
}

#[test]
fn void_tag_with_one_attribute() {
    assert_eq!(
        parse_html_ast("<input type=\"text\" />").unwrap(),
        AstNode::Element {
            name: String::from("input"),
            attributes: vec![named("type", Some(AttributeValue::Literal(String::from("text"))))],
            children: vec![],
            void: true,
        }
    );
}

#[test]
fn any_tag_is_void_if_self_closed_and_none_otherwise() {
    assert_eq!(
        parse_html_ast("<div/>").unwrap(),
        AstNode::Element {
            name: String::from("div"),
            attributes: vec![],
            children: vec![],
            void: true,
        }
    );
    assert_eq!(parse_html_ast("<br></br>").unwrap(), element("br", vec![], vec![]));
}

#[test]
fn fragment_gives_two_render_elements() {
    let parsed = parse_html("<><div>First</div><div>Second</div></>").unwrap();
    let rendered = RenderElement::from_elements(vec![parsed]);
    assert_eq!(rendered.len(), 2);
    assert_eq!(
        RenderElement::write_many_to_string(&rendered).unwrap(),
        "<div>First</div><div>Second</div>"
    );
}

#[test]
fn text_runs_up_to_the_next_tag_or_interpolation() {
    assert_eq!(
        parse_html_ast("<p>Hello, <b>world</b> and {name}#{items}# done</p>").unwrap(),
        element(
            "p",
            vec![],
            vec![
                text("Hello, "),
                element("b", vec![], vec![text("world")]),
                text(" and "),
                AstNode::Expression { body: String::from("name"), iterator: false },
                AstNode::Expression { body: String::from("items"), iterator: true },
                text("# done"),
            ]
        )
    );
}

#[test]
fn whitespace_between_children_is_text() {
    assert_eq!(
        parse_html_ast("<div>\n<p>a</p>\n</div>").unwrap(),
        element(
            "div",
            vec![],
            vec![text("\n"), element("p", vec![], vec![text("a")]), text("\n")]
        )
    );
    let rendered = RenderElement::from_elements(vec![
        parse_html("<div>\n<p>a</p>\n</div>").unwrap(),
    ]);
    assert_eq!(
        RenderElement::write_many_to_string(&rendered).unwrap(),
        "<div>\n  <p>a</p>\n</div>"
    );
}

#[test]
fn whitespace_around_the_markup_and_inside_tags_is_skipped() {
    assert_eq!(
        parse_html_ast(" \n < div  a = \"1\"\tb >x< / div > \r\n").unwrap(),
        element(
            "div",
            vec![
                named("a", Some(AttributeValue::Literal(String::from("1")))),
                named("b", None),
            ],
            vec![text("x")]
        )
    );
}

#[test]
fn strings_hold_escapes() {
    assert_eq!(
        parse_html_ast(r#"<p a="x\"y\\z\n\t\r\0\'">"<b>{no}</b>"</p>"#).unwrap(),
        element(
            "p",
            vec![named("a", Some(AttributeValue::Literal(String::from("x\"y\\z\n\t\r\0'"))))],
            vec![text("<b>{no}</b>")]
        )
    );
}

#[test]
fn attribute_names_become_kebab_case() {
    assert_eq!(
        parse_html_ast("<div myAttribute=\"x\" r#type dataFooBar={1 + {2}} {rest} />").unwrap(),
        AstNode::Element {
            name: String::from("div"),
            attributes: vec![
                named("my-attribute", Some(AttributeValue::Literal(String::from("x")))),
                named("type", None),
                named("data-foo-bar", Some(AttributeValue::Expression(String::from("1 + {2}")))),
                AstAttribute::Interpolated(String::from("rest")),
            ],
            children: vec![],
            void: true,
        }
    );
}

#[test]
fn tag_names_are_kept_as_written() {
    assert_eq!(
        parse_html_ast("<MyComponent></MyComponent>").unwrap(),
        element("MyComponent", vec![], vec![])
    );
    assert_eq!(parse_html_ast("<r#type></r#type>").unwrap(), element("type", vec![], vec![]));
    assert_eq!(parse_html_ast("<r#type></type>").unwrap(), element("type", vec![], vec![]));
}

#[test]
fn top_level_text_and_interpolation() {
    assert_eq!(parse_html_ast("  hello world ").unwrap(), text("hello world "));
    assert_eq!(parse_html_ast("\"quoted\"  ").unwrap(), text("quoted"));
    assert_eq!(
        parse_html_ast("{ a { b } c }").unwrap(),
        AstNode::Expression { body: String::from(" a { b } c "), iterator: false }
    );
    assert_eq!(
        parse_html_ast("#{xs}").unwrap(),
        AstNode::Expression { body: String::from("xs"), iterator: true }
    );
}

#[test]
fn markup_errors() {
    let cases: Vec<(&str, ParseErrorKind, usize)> = vec![
        ("", ParseErrorKind::UnexpectedEnd, 0),
        ("   ", ParseErrorKind::UnexpectedEnd, 3),
        ("<", ParseErrorKind::UnexpectedEnd, 1),
        ("<div", ParseErrorKind::UnexpectedEnd, 4),
        ("<div>", ParseErrorKind::UnexpectedEnd, 5),
        ("<div>text", ParseErrorKind::UnexpectedEnd, 9),
        ("<div><p></p>", ParseErrorKind::UnexpectedEnd, 12),
        ("</div>", ParseErrorKind::UnexpectedClosingTag, 0),
        ("</>", ParseErrorKind::FragmentCannotBeVoid, 0),
        ("< / >", ParseErrorKind::FragmentCannotBeVoid, 0),
        ("<div></span>", ParseErrorKind::MismatchedClosingTag, 7),
        ("<div></>", ParseErrorKind::MismatchedClosingTag, 7),
        ("<div></Div>", ParseErrorKind::MismatchedClosingTag, 7),
        ("<></div>", ParseErrorKind::MismatchedClosingTag, 4),
        ("<1>", ParseErrorKind::ExpectedTagName, 1),
        ("<-a></-a>", ParseErrorKind::ExpectedTagName, 1),
        ("<div =>", ParseErrorKind::ExpectedAttributeName, 5),
        ("<div data-x=\"1\"/>", ParseErrorKind::ExpectedAttributeName, 9),
        ("<div a=1/>", ParseErrorKind::ExpectedAttributeValue, 7),
        ("<div a='1'/>", ParseErrorKind::ExpectedAttributeValue, 7),
        ("<div a=>", ParseErrorKind::ExpectedAttributeValue, 7),
        ("<div a=", ParseErrorKind::ExpectedAttributeValue, 7),
        ("<div / >x", ParseErrorKind::TrailingContent, 8),
        ("<div /x>", ParseErrorKind::ExpectedTagEnd, 6),
        ("<div></div x>", ParseErrorKind::ExpectedTagEnd, 11),
        ("<></ !>", ParseErrorKind::ExpectedTagEnd, 5),
        ("<div a=\"x></div>", ParseErrorKind::UnterminatedString, 7),
        ("<div>\"x</div>", ParseErrorKind::UnterminatedString, 5),
        ("<div a=\"x\\", ParseErrorKind::UnterminatedString, 7),
        ("<div a=\"x\\q\"/>", ParseErrorKind::UnknownEscape, 9),
        ("<div>{a {b}</div>", ParseErrorKind::UnterminatedInterpolation, 5),
        ("<div {a/>", ParseErrorKind::UnterminatedInterpolation, 5),
        ("<div a={a/>", ParseErrorKind::UnterminatedInterpolation, 7),
        ("#{a", ParseErrorKind::UnterminatedInterpolation, 1),
        ("<div/> <p/>", ParseErrorKind::TrailingContent, 7),
        ("text<p/>", ParseErrorKind::TrailingContent, 4),
        ("\"a\" b", ParseErrorKind::TrailingContent, 4),
    ];
    for (input, kind, position) in cases {
        assert_eq!(parse_html_ast(input), Err(failure(kind, position)), "{:?}", input);
    }
}

#[test]
fn markup_error_messages() {
    let cases: Vec<(ParseErrorKind, &str)> = vec![
        (ParseErrorKind::UnexpectedEnd, "unexpected end of input"),
        (ParseErrorKind::UnexpectedClosingTag, "unexpected closing tag"),
        (ParseErrorKind::MismatchedClosingTag, "mismatched opening and closing tags"),
        (ParseErrorKind::FragmentCannotBeVoid, "fragment cannot be void"),
        (ParseErrorKind::ExpectedTagName, "expected a tag name"),
        (ParseErrorKind::ExpectedAttributeName, "expected an attribute name"),
        (ParseErrorKind::ExpectedAttributeValue, "expected a string or an interpolation"),
        (ParseErrorKind::ExpectedTagEnd, "expected `>`"),
        (ParseErrorKind::UnterminatedString, "unterminated string"),
        (ParseErrorKind::UnknownEscape, "unknown escape in string"),
        (ParseErrorKind::UnterminatedInterpolation, "unterminated interpolation"),
        (ParseErrorKind::TrailingContent, "unexpected content after the markup"),
    ];
    for (kind, words) in cases {
        assert_eq!(kind.message(), words);
        assert_eq!(ParseError::new(kind, 3).message, words);
        assert_eq!(ParseError::new(kind, 3).position, 3);
    }
}

#[test]
fn custom_components_begin_with_an_uppercase_letter() {
    assert!(is_custom_component("MyComponent"));
    assert!(is_custom_component("Écran"));
    assert!(!is_custom_component("div"));
    assert!(!is_custom_component("_Div"));
    assert!(!is_custom_component(""));
    let node = parse_html_ast("<Card/>").unwrap();
    assert!(node.is_custom_component());
    assert_eq!(node.element_name(), Some("Card"));
    assert!(!text("Card").is_custom_component());
    assert_eq!(text("Card").element_name(), None);
    assert!(!parse_html_ast("<card/>").unwrap().is_custom_component());
}

#[test]
fn literal_attribute_values_have_a_string_value() {
    assert_eq!(AttributeValue::Literal(String::from("a b")).to_string_value(), "a b");
}

#[test]
fn evaluation_keeps_names_values_and_order() {
    let parsed = parse_html("<a href=\"x\" download><b>1</b>2<></></a>").unwrap();
    assert_eq!(
        parsed,
        Element::Tag {
            name: String::from("a"),
            attributes: vec![
                paxhtml::Attribute::new("href", "x"),
                paxhtml::Attribute::boolean("download"),
            ],
            children: vec![
                Element::Tag {
                    name: String::from("b"),
                    attributes: vec![],
                    children: vec![Element::Text { text: String::from("1") }],
                    void: false,
                },
                Element::Text { text: String::from("2") },
                Element::Fragment { children: vec![] },
            ],
            void: false,
        }
    );
}
