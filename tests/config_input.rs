use microdragon::config::{ConfigInputError, ValueMacroInput};

fn query(input: &str) -> ValueMacroInput {
    ValueMacroInput::parse_str(input).unwrap()
}

#[test]
fn test_parse() {
    let stream = query("\"foo\"");
    assert_eq!(stream.option.value(), "foo");
    assert!(matches!(stream.comma, None));
    assert!(matches!(stream.default, None));

    let stream = query("\"foo.bar\"");
    assert_eq!(stream.option.value(), "foo.bar");
    assert!(matches!(stream.comma, None));
    assert!(matches!(stream.default, None));

    let stream = query("\"foo.'bar'\"");
    assert_eq!(stream.option.value(), "foo.'bar'");
    assert!(matches!(stream.comma, None));
    assert!(matches!(stream.default, None));

    let stream = query("\"foo.\\\"bar\\\"\"");
    assert_eq!(stream.option.value(), "foo.\"bar\"");
    assert!(matches!(stream.comma, None));
    assert!(matches!(stream.default, None));

    let stream = query("\"foo.bar.baz\",");
    assert_eq!(stream.option.value(), "foo.bar.baz");
    assert!(matches!(stream.comma, Some(_)));
    assert!(matches!(stream.default, None));

    let stream = query("\"foo.'bar'\", true");
    assert_eq!(stream.option.value(), "foo.'bar'");
    assert!(matches!(stream.comma, Some(_)));
    assert!(matches!(stream.default, Some(_)));
}

#[test]
fn config_input_default_text_and_comma_position() {
    let stream = query("  \"theme.black\" , 0x0C0C0C ");
    assert_eq!(stream.option.value(), "theme.black");
    assert_eq!(stream.option.text, "\"theme.black\"");
    assert_eq!(stream.comma.unwrap().offset, 16);
    assert_eq!(stream.default.unwrap().text, " 0x0C0C0C ");
}

#[test]
fn config_input_escape_is_decoded() {
    let stream = query("\"a\\nb\"");
    assert_eq!(stream.option.value(), "a\nb");
}

#[test]
fn config_input_errors() {
    assert_eq!(ValueMacroInput::parse_str("foo").unwrap_err(), ConfigInputError::Shape);
    assert_eq!(ValueMacroInput::parse_str("\"open").unwrap_err(), ConfigInputError::Shape);
    assert_eq!(ValueMacroInput::parse_str("\"a\" b").unwrap_err(), ConfigInputError::Shape);
    assert_eq!(ValueMacroInput::parse_str("\"a\\q\"").unwrap_err(), ConfigInputError::Literal);
    assert_eq!(ValueMacroInput::parse_str("\"a\", 1 +").unwrap_err(), ConfigInputError::Default);
}
