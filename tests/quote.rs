use lot::{Error, Quote};

#[test]
fn test_parse() {
    let quote = Quote::try_from("Lorem ipsum dolor sit amet\n\t\t-- Lorem Ipsum");
    assert!(quote.is_ok());

    let quote = quote.unwrap();
    assert_eq!(quote.source, Some("Lorem Ipsum".into()));
    assert_eq!(quote.text, "Lorem ipsum dolor sit amet".to_string());
}

#[test]
fn test_parse_invalid() {
    let quote = Quote::try_from("");
    assert!(quote.is_err());
}

#[test]
fn test_display() {
    let quote = Quote {
        source: None,
        text: "Lorem ipsum dolor sit amet".into(),
    };

    assert_eq!(
        quote.to_string(),
        "\u{2018}Lorem ipsum dolor sit amet\u{2019}\n\t\u{2014} Unknown"
    );
}

#[test]
fn test_display_with_source() {
    let quote = Quote {
        source: Some("Example Author".into()),
        text: "Lorem ipsum dolor sit amet".into(),
    };

    assert_eq!(
        quote.to_string(),
        "\u{2018}Lorem ipsum dolor sit amet\u{2019}\n\t\u{2014} Example Author"
    );
}

#[test]
fn parse_without_delimiter() {
    let quote = Quote::try_from("Just a line").unwrap();
    assert_eq!(quote.text, "Just a line");
    assert_eq!(quote.source, None);
}

#[test]
fn parse_empty_is_end_of_input() {
    assert!(matches!(Quote::try_from(""), Err(Error::EOI)));
}

#[test]
fn parse_nothing_before_delimiter_is_end_of_input() {
    assert!(matches!(Quote::try_from("\n\t\t-- Someone"), Err(Error::EOI)));
}

#[test]
fn parse_trims_text_but_not_source() {
    let quote = Quote::try_from("\n  Some words \t\n\n\t\t-- An author\n\nsecond line ").unwrap();
    assert_eq!(quote.text, "Some words");
    assert_eq!(quote.source, Some("An author\n\nsecond line ".to_string()));
}

#[test]
fn parse_keeps_later_delimiters_in_source() {
    let quote = Quote::try_from("Text\n\t\t-- First\n\t\t-- Second").unwrap();
    assert_eq!(quote.text, "Text");
    assert_eq!(quote.source, Some("First\n\t\t-- Second".to_string()));
}

#[test]
fn parse_empty_source_is_absent() {
    let quote = Quote::try_from("Text\n\t\t-- ").unwrap();
    assert_eq!(quote.text, "Text");
    assert_eq!(quote.source, None);
}

#[test]
fn parse_white_space_only_text_is_end_of_input() {
    assert!(matches!(Quote::try_from(" \u{3000}\n"), Err(Error::EOI)));
    assert!(matches!(Quote::try_from("   \n\t "), Err(Error::EOI)));
    assert!(matches!(Quote::try_from(" \n\t\t-- Someone"), Err(Error::EOI)));
}

#[test]
fn parse_trims_unicode_white_space() {
    let quote = Quote::try_from("\u{3000}\u{85}Text\u{2029}\u{200a}").unwrap();
    assert_eq!(quote.text, "Text");
    assert_eq!(quote.source, None);
}

#[test]
fn parse_non_ascii_text() {
    let quote = Quote::try_from("\u{a0}Ça va — très bien\u{2003}\n\t\t-- Zoë").unwrap();
    assert_eq!(quote.text, "Ça va — très bien");
    assert_eq!(quote.source, Some("Zoë".to_string()));
}

#[test]
fn format_short_quotes() {
    let unattributed = Quote { source: None, text: "X".into() };
    assert_eq!(unattributed.to_string(), "\u{2018}X\u{2019}\n\t\u{2014} Unknown");
    let attributed = Quote { source: Some("Y".into()), text: "X".into() };
    assert_eq!(attributed.to_string(), "\u{2018}X\u{2019}\n\t\u{2014} Y");
}
