use enum_fun::errors::ShapeError;
use enum_fun::predicates::{is_variant, predicate_name, predicates_gen, TaggedValue};
use enum_fun::resolve::{
    method_name_for_key, name_defs, pluralized_value, pluralizer_method_name_for_key, resolve,
};
use enum_fun::schema::{Formats, Overrides, VariantDecl};
use enum_fun::variants::{variants_gen, VariantCursor};

fn strings(xs: &[&str]) -> Vec<String> {
    xs.iter().map(|s| s.to_string()).collect()
}

fn unit_variant(ident: &str, attrs: &[&str]) -> VariantDecl {
    VariantDecl { ident: ident.to_string(), attrs: strings(attrs), unit: true }
}

#[test]
fn method_names() {
    assert_eq!(method_name_for_key("base"), "name");
    assert_eq!(method_name_for_key("plural"), "name_plural");
    assert_eq!(pluralizer_method_name_for_key("base"), "name_pluralized");
    assert_eq!(pluralizer_method_name_for_key("short"), "name_short_pluralized");
}

#[test]
fn resolve_prefers_explicit_override() {
    let f = Formats::new(&strings(&["base = \"title case\""])).unwrap();
    let o = Overrides::new(&f, &strings(&["= \"Baz\""])).unwrap();
    assert_eq!(resolve(&f, &o, "Bar", "base"), "Baz");
}

#[test]
fn resolve_derives_extra_from_base_override() {
    let f = Formats::new(
        &strings(&["base = \"title case\", extra(plural = \"title case plural\")"]),
    )
        .unwrap();
    let o = Overrides::new(&f, &strings(&["= \"Baz\""])).unwrap();
    assert_eq!(resolve(&f, &o, "Bar", "plural"), "Bazs");
}

#[test]
fn resolve_falls_back_to_raw_identifier() {
    let f = Formats::new(
        &strings(&["base = \"title case\", extra(plural = \"title case plural\")"]),
    )
        .unwrap();
    let o = Overrides::new(&f, &strings(&[])).unwrap();
    assert_eq!(resolve(&f, &o, "HelloWorld", "base"), "Hello World");
    assert_eq!(resolve(&f, &o, "HelloWorld", "plural"), "Hello Worlds");
}

#[test]
fn pluralized_value_dispatch() {
    let s = "Foo".to_string();
    let p = "Foos".to_string();
    assert_eq!(pluralized_value(1, &s, &p), "Foo");
    assert_eq!(pluralized_value(0, &s, &p), "Foos");
    assert_eq!(pluralized_value(2, &s, &p), "Foos");
    assert_eq!(pluralized_value(-5, &s, &p), "Foos");
}

#[test]
fn end_to_end_name_generation() {
    let enum_attrs = strings(
        &["base = \"title case\", extra(plural = \"title case plural\"), pluralizer(base, plural)"],
    );
    let variants = vec![
        unit_variant("Foo", &[]),
        unit_variant("HelloWorld", &[]),
        unit_variant("Bar", &["= \"Baz\""]),
        unit_variant("Quux", &["(plural = \"Quuxes\")"]),
    ];
    let defs = name_defs(&enum_attrs, &variants).unwrap();

    assert_eq!(defs.accessors.len(), 2);
    let name = &defs.accessors[0];
    assert_eq!(name.method_name, "name");
    assert_eq!(name.values, vec!["Foo", "Hello World", "Baz", "Quux"]);
    let plural = &defs.accessors[1];
    assert_eq!(plural.method_name, "name_plural");
    assert_eq!(plural.values, vec!["Foos", "Hello Worlds", "Bazs", "Quuxes"]);

    assert_eq!(defs.pluralizers.len(), 1);
    let pd = &defs.pluralizers[0];
    assert_eq!(pd.method_name, "name_pluralized");
    assert_eq!(pd.singular, "base");
    assert_eq!(pd.plural, "plural");

    for i in 0..variants.len() {
        assert_eq!(pluralized_value(1, &name.values[i], &plural.values[i]), &name.values[i]);
        assert_eq!(pluralized_value(2, &name.values[i], &plural.values[i]), &plural.values[i]);
    }
}

#[test]
fn name_defs_propagates_schema_error() {
    let r = name_defs(&strings(&[]), &vec![unit_variant("Foo", &[])]);
    assert!(r.is_err());
}

#[test]
fn name_defs_propagates_variant_error() {
    let enum_attrs = strings(&["base = \"title case\""]);
    let variants = vec![unit_variant("Foo", &["(plural = \"Quuxes\")"])];
    assert!(name_defs(&enum_attrs, &variants).is_err());
}

#[test]
fn predicate_names() {
    assert_eq!(predicate_name("Foo"), "is_foo");
    assert_eq!(predicate_name("HelloWorld"), "is_hello_world");
    assert_eq!(predicate_name("SnakeCaseTest"), "is_snake_case_test");
}

#[test]
fn predicates_for_all_variants() {
    let variants = vec![unit_variant("Foo", &[]), unit_variant("Bar", &[])];
    assert_eq!(predicates_gen(&variants), vec!["is_foo", "is_bar"]);
}

#[test]
fn exactly_one_predicate_holds() {
    let n = 3;
    for tag in 0..n {
        let v = TaggedValue { tag, payload: "some payload" };
        let holding: Vec<usize> = (0..n).filter(|&i| is_variant(&v, i)).collect();
        assert_eq!(holding, vec![tag]);
    }
}

#[test]
fn enumerator_counts_and_successors() {
    let variants = vec![
        unit_variant("Foo", &[]),
        unit_variant("Bar", &[]),
        unit_variant("Baz", &[]),
    ];
    let d = variants_gen(&variants).unwrap();
    assert_eq!(d.count, 3);
    assert_eq!(d.first, "Foo");
    assert_eq!(
        d.successors,
        vec![
            ("Foo".to_string(), Some("Bar".to_string())),
            ("Bar".to_string(), Some("Baz".to_string())),
            ("Baz".to_string(), None),
        ],
    );
}

#[test]
fn enumerator_rejects_empty() {
    assert_eq!(variants_gen(&vec![]).unwrap_err(), ShapeError::Empty);
}

#[test]
fn enumerator_rejects_non_unit() {
    let variants = vec![
        unit_variant("Foo", &[]),
        VariantDecl { ident: "Holder".to_string(), attrs: vec![], unit: false },
    ];
    assert_eq!(
        variants_gen(&variants).unwrap_err(),
        ShapeError::NonUnitVariant { variant: "Holder".to_string() },
    );
}

#[test]
fn cursor_yields_each_tag_once_then_stays_exhausted() {
    let mut c = VariantCursor::new(3);
    assert_eq!(c.remaining(), 3);
    assert_eq!(c.step(), Some(0));
    assert_eq!(c.remaining(), 2);
    assert_eq!(c.step(), Some(1));
    assert_eq!(c.step(), Some(2));
    assert_eq!(c.remaining(), 0);
    assert_eq!(c.step(), None);
    assert_eq!(c.step(), None);
    assert_eq!(c.remaining(), 0);
}

#[test]
fn cursor_restarts_fresh() {
    let mut c = VariantCursor::new(2);
    assert_eq!(c.step(), Some(0));
    let mut fresh = VariantCursor::new(2);
    assert_eq!(fresh.step(), Some(0));
    assert_eq!(fresh.step(), Some(1));
    assert_eq!(fresh.step(), None);
}

#[test]
fn cursor_over_empty_enumeration() {
    let mut c = VariantCursor::new(0);
    assert_eq!(c.remaining(), 0);
    assert_eq!(c.step(), None);
}
