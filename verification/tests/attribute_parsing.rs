use paxhtml::attribute_text::write_attributes;
use paxhtml::{Attribute, AttributeParseError, ParseContext};

#[test]
fn test_parse_single_attribute() {
    let attributes = Attribute::parse_from_str("id=\"test\"").unwrap();
    assert_eq!(attributes.len(), 1);
    assert_eq!(attributes[0].key.as_str(), "id");
    assert_eq!(attributes[0].value.as_ref().map(|s| s.as_str()), Some("test"));
}

#[test]
fn test_parse_multiple_attributes() {
    let attributes = Attribute::parse_from_str("id=\"test\" class=\"btn btn-primary\"").unwrap();
    assert_eq!(attributes.len(), 2);
    assert_eq!(attributes[0].key.as_str(), "id");
    assert_eq!(attributes[0].value.as_ref().map(|s| s.as_str()), Some("test"));
    assert_eq!(attributes[1].key.as_str(), "class");
    assert_eq!(
        attributes[1].value.as_ref().map(|s| s.as_str()),
        Some("btn btn-primary")
    );
}

#[test]
fn test_parse_boolean_attribute() {
    let attributes = Attribute::parse_from_str("disabled").unwrap();
    assert_eq!(attributes.len(), 1);
    assert_eq!(attributes[0].key.as_str(), "disabled");
    assert_eq!(attributes[0].value, None);
}

#[test]
fn test_parse_mixed_attributes() {
    let attributes = Attribute::parse_from_str("id=\"test\" disabled class=\"btn\"").unwrap();
    assert_eq!(attributes.len(), 3);
    assert_eq!(attributes[0].key.as_str(), "id");
    assert_eq!(attributes[0].value.as_ref().map(|s| s.as_str()), Some("test"));
    assert_eq!(attributes[1].key.as_str(), "disabled");
    assert_eq!(attributes[1].value, None);
    assert_eq!(attributes[2].key.as_str(), "class");
    assert_eq!(attributes[2].value.as_ref().map(|s| s.as_str()), Some("btn"));
}

#[test]
fn test_parse_error_unclosed_quote() {
    let result = Attribute::parse_from_str("id=\"test");
    match result {
        Err(AttributeParseError::UnclosedQuote { quote, position, partial_value }) => {
            assert_eq!(quote, '"');
            assert_eq!(position, 3);
            assert_eq!(partial_value, "test");
        }
        _ => panic!("Expected UnclosedQuote error"),
    }
}

#[test]
fn test_parse_error_invalid_syntax() {
    let result = Attribute::parse_from_str("=value");
    match result {
        Err(AttributeParseError::InvalidSyntax { unexpected, position, context }) => {
            assert_eq!(unexpected, '=');
            assert_eq!(position, 0);
            assert_eq!(context, ParseContext::ExpectedAttributeName);
        }
        _ => panic!("Expected InvalidSyntax error"),
    }
}

#[test]
fn test_parse_with_single_quotes() {
    let attributes = Attribute::parse_from_str("id='test'").unwrap();
    assert_eq!(attributes.len(), 1);
    assert_eq!(attributes[0].key.as_str(), "id");
    assert_eq!(attributes[0].value.as_ref().map(|s| s.as_str()), Some("test"));
}

#[test]
fn test_parse_with_whitespace() {
    let attributes = Attribute::parse_from_str("  id=\"test\"  \n  class=\"btn\"  ").unwrap();
    assert_eq!(attributes.len(), 2);
    assert_eq!(attributes[0].key.as_str(), "id");
    assert_eq!(attributes[0].value.as_ref().map(|s| s.as_str()), Some("test"));
    assert_eq!(attributes[1].key.as_str(), "class");
    assert_eq!(attributes[1].value.as_ref().map(|s| s.as_str()), Some("btn"));
}

#[test]
fn test_parse_error_unclosed_quote_with_context() {
    let result = Attribute::parse_from_str("id=\"test class='value");
    match result {
        Err(AttributeParseError::UnclosedQuote { quote, position, partial_value }) => {
            assert_eq!(quote, '"');
            assert_eq!(position, 3);
            assert_eq!(partial_value, "test class='value");
        }
        _ => panic!("Expected UnclosedQuote error with context"),
    }
}

#[test]
fn test_parse_error_invalid_syntax_with_context() {
    let result = Attribute::parse_from_str("=invalid");
    match result {
        Err(AttributeParseError::InvalidSyntax { unexpected, position, context }) => {
            assert_eq!(unexpected, '=');
            assert_eq!(position, 0);
            assert_eq!(context, ParseContext::ExpectedAttributeName);
        }
        _ => panic!("Expected InvalidSyntax error with context"),
    }
}

#[test]
fn test_parse_error_invalid_unquoted_value() {
    let result = Attribute::parse_from_str("id=test!");
    match result {
        Err(AttributeParseError::InvalidSyntax { unexpected, position, context }) => {
            assert_eq!(unexpected, '!');
            assert_eq!(position, 7);
            assert_eq!(context, ParseContext::ExpectedQuoteOrValue);
        }
        _ => panic!("Expected InvalidSyntax error with context"),
    }
}

#[test]
fn test_parse_space_after_key() {
    let attributes = Attribute::parse_from_str(r#"width ="150" height="80""#).unwrap();
    assert_eq!(attributes.len(), 2);
    assert_eq!(attributes[0].key.as_str(), "width");
    assert_eq!(attributes[0].value.as_ref().map(|s| s.as_str()), Some("150"));
    assert_eq!(attributes[1].key.as_str(), "height");
    assert_eq!(attributes[1].value.as_ref().map(|s| s.as_str()), Some("80"));
}

#[test]
fn parse_empty_string_gives_no_attribute() {
    assert_eq!(Attribute::parse_from_str("").unwrap(), Vec::<Attribute>::new());
    assert_eq!(Attribute::parse_from_str(" \t\n ").unwrap(), Vec::<Attribute>::new());
}

#[test]
fn parse_unquoted_value() {
    let attributes = Attribute::parse_from_str("width=150 data_x=a-b_c").unwrap();
    assert_eq!(
        attributes,
        vec![Attribute::new("width", "150"), Attribute::new("data_x", "a-b_c")]
    );
}

#[test]
fn parse_keeps_repeated_keys_in_order() {
    let attributes = Attribute::parse_from_str("a=\"1\" b a=\"2\" b").unwrap();
    assert_eq!(
        attributes,
        vec![
            Attribute::new("a", "1"),
            Attribute::boolean("b"),
            Attribute::new("a", "2"),
            Attribute::boolean("b"),
        ]
    );
}

#[test]
fn parse_whitespace_around_equals() {
    let attributes = Attribute::parse_from_str("a  =  \"1\" b\t=\n'2'").unwrap();
    assert_eq!(attributes, vec![Attribute::new("a", "1"), Attribute::new("b", "2")]);
}

#[test]
fn parse_name_ended_by_equals_at_the_end_has_an_empty_value() {
    let attributes = Attribute::parse_from_str("a=").unwrap();
    assert_eq!(attributes, vec![Attribute::new("a", "")]);
}

#[test]
fn parse_quoted_value_may_hold_the_other_quote() {
    let attributes = Attribute::parse_from_str("a='say \"hi\"' b=\"it's\"").unwrap();
    assert_eq!(
        attributes,
        vec![Attribute::new("a", "say \"hi\""), Attribute::new("b", "it's")]
    );
}

#[test]
fn parse_error_expected_attribute_value() {
    // The lookahead skips every kind of whitespace, the scanner only
    // space, tab and line feed: a carriage return before `=` is refused.
    let result = Attribute::parse_from_str("a \r= \"1\"");
    assert_eq!(
        result,
        Err(AttributeParseError::InvalidSyntax {
            unexpected: '\r',
            position: 2,
            context: ParseContext::ExpectedAttributeValue,
        })
    );
}

#[test]
fn parse_error_positions_count_characters() {
    let result = Attribute::parse_from_str("é=ü!");
    assert_eq!(
        result,
        Err(AttributeParseError::InvalidSyntax {
            unexpected: 'ü',
            position: 2,
            context: ParseContext::ExpectedQuoteOrValue,
        })
    );
}

#[test]
fn parse_unquoted_value_takes_ascii_only() {
    let result = Attribute::parse_from_str("a=bé");
    assert_eq!(
        result,
        Err(AttributeParseError::InvalidSyntax {
            unexpected: 'é',
            position: 3,
            context: ParseContext::ExpectedQuoteOrValue,
        })
    );
}

#[test]
fn written_attributes_are_read_back() {
    let attributes = vec![
        Attribute::new("id", "main"),
        Attribute::boolean("disabled"),
        Attribute::new("class", "a b 'c'"),
        Attribute::new("id", ""),
        Attribute::boolean("hidden"),
    ];
    let text = write_attributes(&attributes);
    assert_eq!(text, "id=\"main\" disabled class=\"a b 'c'\" id=\"\" hidden");
    assert_eq!(Attribute::parse_from_str(&text).unwrap(), attributes);
}

#[test]
fn a_value_with_a_double_quote_is_not_read_back() {
    let attributes = Attribute::parse_from_str("a='x\"y'").unwrap();
    let text = write_attributes(&attributes);
    assert_eq!(text, "a=\"x\"y\"");
    assert_ne!(Attribute::parse_from_str(&text).unwrap(), attributes);
}

#[test]
fn attribute_error_messages() {
    let unclosed = Attribute::parse_from_str("id=\"test").unwrap_err();
    assert_eq!(
        unclosed.message(),
        "Unclosed quote '\"' at position 3 with partial value 'test'"
    );
    let invalid = Attribute::parse_from_str("0123456789 =x!").unwrap_err();
    assert_eq!(
        invalid.message(),
        "Invalid syntax at position 13: unexpected character '!' while expecting quote or valid value character"
    );
    let name = Attribute::parse_from_str("=").unwrap_err();
    assert_eq!(
        name.message(),
        "Invalid syntax at position 0: unexpected character '=' while expecting attribute name"
    );
    let value = Attribute::parse_from_str("a \r=").unwrap_err();
    assert_eq!(
        value.message(),
        "Invalid syntax at position 2: unexpected character '\r' while expecting attribute value"
    );
}

#[test]
fn attribute_constructors() {
    assert_eq!(Attribute::new("a", "b").value, Some(String::from("b")));
    assert_eq!(Attribute::boolean("a").value, None);
    assert_eq!(Attribute::with_optional_value("a", Some("b")), Attribute::new("a", "b"));
    assert_eq!(Attribute::with_optional_value("a", None), Attribute::boolean("a"));
    assert_eq!(Attribute::new("a", "b").duplicate(), Attribute::new("a", "b"));
}

#[test]
fn parsed_attributes_are_read_again_from_their_text() {
    for input in [
        "a b = 'x' c=y d",
        "  \u{a0}=\"1\" \r \t x='2'",
        "k \u{2003}",
        "a=",
        "",
        "k='' \r=\"v\"",
    ] {
        let attributes = Attribute::parse_from_str(input).unwrap();
        let text = write_attributes(&attributes);
        assert_eq!(Attribute::parse_from_str(&text).unwrap(), attributes, "{:?}", input);
        assert!(attributes.iter().all(|a| !a.key.is_empty()), "{:?}", input);
    }
}
