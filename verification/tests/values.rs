use css_parser::span::SourceId;
use css_parser::{CSSValue, Number};

fn parse_value(source: &str) -> CSSValue {
    CSSValue::from_string(source.to_owned(), SourceId::null(), None).unwrap()
}

#[test]
fn keyword() {
    assert_eq!(parse_value("block"), CSSValue::Keyword("block".to_owned()));
}

#[test]
fn color() {
    assert_eq!(parse_value("#00ff00"), CSSValue::Color("00ff00".to_owned()));
}

#[test]
fn number() {
    assert_eq!(parse_value("1"), CSSValue::Number(Number("1".to_owned())));
}

#[test]
fn number_decimal_shorthand() {
    assert_eq!(parse_value(".2"), CSSValue::Number(Number(".2".to_owned())));
}

#[test]
fn percentage() {
    assert_eq!(
        parse_value("10%"),
        CSSValue::Percentage(Number("10".to_owned()))
    );
}

#[test]
fn number_with_unit() {
    assert_eq!(
        parse_value("10px"),
        CSSValue::NumberWithUnit(Number("10".to_owned()), "px".to_owned())
    );
}

#[test]
fn list() {
    assert_eq!(
        parse_value("2px solid #00ff00"),
        CSSValue::List(vec![
            CSSValue::NumberWithUnit(Number("2".to_owned()), "px".to_owned()),
            CSSValue::Keyword("solid".to_owned()),
            CSSValue::Color("00ff00".to_owned())
        ])
    );
}

#[test]
fn adjacency_decides_structure() {
    // "10px" is one unit-bearing number; "10 px" is a list of a number and
    // a keyword: the space changes the structure.
    assert_eq!(
        parse_value("10px"),
        CSSValue::NumberWithUnit(Number("10".to_owned()), "px".to_owned())
    );
    assert_eq!(
        parse_value("10 px"),
        CSSValue::List(vec![
            CSSValue::Number(Number("10".to_owned())),
            CSSValue::Keyword("px".to_owned()),
        ])
    );
}

#[test]
fn string_literal() {
    assert_eq!(
        parse_value("\"SF Pro Display\""),
        CSSValue::StringLiteral("SF Pro Display".to_owned())
    );
}

#[test]
fn function_values_are_not_supported() {
    let err =
        CSSValue::from_string("url(x)".to_owned(), SourceId::null(), None).unwrap_err();
    assert_eq!(err.reason, "Function values are not supported");
}

#[test]
fn punctuation_is_no_value() {
    let err = CSSValue::from_string(";".to_owned(), SourceId::null(), None).unwrap_err();
    assert_eq!(err.reason, "Expected value, found SemiColon");
}
