use enum_fun::errors::{SchemaError, Site};
use enum_fun::format::Format;
use enum_fun::schema::{Formats, Overrides};

fn strings(xs: &[&str]) -> Vec<String> {
    xs.iter().map(|s| s.to_string()).collect()
}

#[test]
fn formats_base_only() {
    let f = Formats::new(&strings(&["base = \"title case\""])).unwrap();
    assert!(f.has("base"));
    assert!(!f.has("plural"));
    assert_eq!(f.get("base"), Format::TitleCase { lower: false, plural: false });
    let pairs = f.iter();
    assert_eq!(pairs.len(), 1);
    assert_eq!(pairs[0].0, "base");
}

#[test]
fn formats_with_extras_and_pluralizer() {
    let f = Formats::new(
        &strings(
            &["base = \"title case\", extra(plural = \"title case plural\"), pluralizer(base, plural)"],
        ),
    )
        .unwrap();
    assert!(f.has("plural"));
    assert_eq!(f.get("plural"), Format::TitleCase { lower: false, plural: true });
    let pairs = f.iter();
    assert_eq!(pairs.len(), 2);
    assert_eq!(pairs[1].0, "plural");
    assert_eq!(f.pluralizer_pairs().len(), 1);
    assert_eq!(f.pluralizer_pairs()[0], ("base".to_string(), "plural".to_string()));
}

#[test]
fn formats_merge_later_attribute_wins() {
    let f = Formats::new(&strings(&["base = \"title case\"", "base = \"title case lower\""]))
        .unwrap();
    assert_eq!(f.get("base"), Format::TitleCase { lower: true, plural: false });
}

#[test]
fn formats_extra_overwrite_keeps_position() {
    let f = Formats::new(
        &strings(
            &["base = \"title case\", extra(a = \"title case\", b = \"title case\"), extra(a = \"title case plural\")"],
        ),
    )
        .unwrap();
    let pairs = f.iter();
    assert_eq!(pairs.len(), 3);
    assert_eq!(pairs[1].0, "a");
    assert_eq!(pairs[2].0, "b");
    assert_eq!(f.get("a"), Format::TitleCase { lower: false, plural: true });
}

#[test]
fn formats_empty_attribute_text_is_accepted() {
    let f = Formats::new(&strings(&["", "base = \"title case\","]));
    assert!(f.is_ok());
}

#[test]
fn formats_missing_base_fails() {
    let r = Formats::new(&strings(&["extra(plural = \"title case plural\")"]));
    assert_eq!(r.unwrap_err(), SchemaError::MissingBase);
}

#[test]
fn formats_empty_attrs_fail_with_missing_base() {
    assert_eq!(Formats::new(&strings(&[])).unwrap_err(), SchemaError::MissingBase);
}

#[test]
fn formats_reserved_extra_key_fails() {
    let r = Formats::new(&strings(&["base = \"title case\", extra(base = \"title case\")"]));
    assert_eq!(r.unwrap_err(), SchemaError::ReservedKeyName);
}

#[test]
fn formats_pluralizer_unknown_key_fails() {
    let r = Formats::new(&strings(&["base = \"title case\", pluralizer(base, plural)"]));
    assert_eq!(
        r.unwrap_err(),
        SchemaError::UnknownKey { key: "plural".to_string(), site: Site::Pluralizer },
    );
}

#[test]
fn formats_pluralizer_may_reference_later_extra() {
    let f = Formats::new(
        &strings(
            &["base = \"title case\", pluralizer(base, plural)", "extra(plural = \"title case plural\")"],
        ),
    );
    assert!(f.is_ok());
}

#[test]
fn formats_bad_literal_fails() {
    let r = Formats::new(&strings(&["base = \"camel case\""]));
    assert_eq!(
        r.unwrap_err(),
        SchemaError::InvalidFormatLiteral { literal: "camel case".to_string() },
    );
}

#[test]
fn formats_malformed_attr_fails() {
    assert_eq!(Formats::new(&strings(&["base ="])).unwrap_err(), SchemaError::Malformed);
    assert_eq!(Formats::new(&strings(&["frobnicate(a)"])).unwrap_err(), SchemaError::Malformed);
    assert_eq!(
        Formats::new(&strings(&["base = \"unterminated"])).unwrap_err(),
        SchemaError::Malformed,
    );
}

#[test]
fn overrides_shorthand_sets_base() {
    let f = Formats::new(&strings(&["base = \"title case\""])).unwrap();
    let o = Overrides::new(&f, &strings(&["= \"Baz\""])).unwrap();
    assert_eq!(o.get("base"), Some(&"Baz".to_string()));
}

#[test]
fn overrides_list_form() {
    let f = Formats::new(
        &strings(&["base = \"title case\", extra(plural = \"title case plural\")"]),
    )
        .unwrap();
    let o = Overrides::new(&f, &strings(&["(plural = \"Quuxes\")"])).unwrap();
    assert_eq!(o.get("plural"), Some(&"Quuxes".to_string()));
    assert_eq!(o.get("base"), None);
}

#[test]
fn overrides_unknown_key_fails() {
    let f = Formats::new(&strings(&["base = \"title case\""])).unwrap();
    let r = Overrides::new(&f, &strings(&["(plural = \"Quuxes\")"]));
    assert_eq!(
        r.unwrap_err(),
        SchemaError::UnknownKey { key: "plural".to_string(), site: Site::Override },
    );
}

#[test]
fn overrides_later_attribute_wins() {
    let f = Formats::new(&strings(&["base = \"title case\""])).unwrap();
    let o = Overrides::new(&f, &strings(&["= \"First\"", "= \"Second\""])).unwrap();
    assert_eq!(o.get("base"), Some(&"Second".to_string()));
}

#[test]
fn overrides_empty_list_is_malformed() {
    let f = Formats::new(&strings(&["base = \"title case\""])).unwrap();
    assert_eq!(Overrides::new(&f, &strings(&["()"])).unwrap_err(), SchemaError::Malformed);
}
