use enum_fun::errors::SchemaError;
use enum_fun::format::Format;

fn rule(lit: &str) -> Format {
    Format::parse_str(lit).expect("valid format literal")
}

#[test]
fn transform_title_case() {
    assert_eq!(rule("title case").transform("HelloWorld"), "Hello World");
}

#[test]
fn transform_title_case_lower() {
    assert_eq!(rule("title case lower").transform("HelloWorld"), "hello world");
}

#[test]
fn transform_title_case_plural() {
    assert_eq!(rule("title case plural").transform("Foo"), "Foos");
}

#[test]
fn transform_title_case_lower_plural() {
    assert_eq!(rule("title case lower plural").transform("Foo"), "foos");
}

#[test]
fn transform_snake_input() {
    assert_eq!(rule("title case").transform("snake_case_test"), "Snake Case Test");
}

#[test]
fn transform_is_pure() {
    let f = rule("title case lower plural");
    let a = f.transform("MixedUpInput");
    let b = f.transform("MixedUpInput");
    assert_eq!(a, b);
}

#[test]
fn parse_str_rejects_unknown_literal() {
    match Format::parse_str("title-case") {
        Err(SchemaError::InvalidFormatLiteral { literal }) => assert_eq!(literal, "title-case"),
        other => panic!("expected InvalidFormatLiteral, got {:?}", other),
    }
}

#[test]
fn parse_str_accepts_all_four() {
    for lit in ["title case", "title case lower", "title case plural", "title case lower plural"] {
        assert!(Format::parse_str(lit).is_ok());
    }
}
