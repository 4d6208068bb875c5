use nodeinnet::i18n::{languages, Catalog};

#[test]
fn register_lookup_and_fallback() {
    let mut c = Catalog::new();
    c.register(&[
        ("en", r#"{"a.hello":"Hello","a.bye":"Bye"}"#),
        ("ru", r#"{"a.hello":"Привет"}"#),
    ]);
    c.set_lang("ru");
    assert_eq!(c.tr("a.hello"), "Привет");
    assert_eq!(c.tr("a.bye"), "Bye");
    assert_eq!(c.tr("a.missing"), "a.missing");
    c.set_lang("en");
    assert_eq!(c.tr("a.hello"), "Hello");
}

#[test]
fn interpolation() {
    let mut c = Catalog::new();
    c.register(&[("en", r#"{"b.msg":"Added %{added}, updated %{updated}."}"#)]);
    c.set_lang("en");
    assert_eq!(c.trf("b.msg", &[("added", "3"), ("updated", "2")]), "Added 3, updated 2.");
    assert_eq!(c.trf("b.msg", &[("added", "3")]), "Added 3, updated %{updated}.");
}

#[test]
fn unknown_language_falls_back_to_english() {
    let mut c = Catalog::new();
    c.set_lang("xx");
    assert_eq!(c.current_lang(), "en");
    c.set_lang("pl");
    assert_eq!(c.current_lang(), "pl");
}

#[test]
fn language_table_starts_with_english() {
    let l = languages();
    assert_eq!(l.len(), 15);
    assert_eq!(l[0].0, "en");
    assert_eq!(l[14].0, "sr");
}

#[test]
fn a_text_that_is_not_json_is_skipped() {
    let mut c = Catalog::new();
    c.register(&[("en", "not json"), ("en", r#"{"k":"v"}"#)]);
    assert_eq!(c.tr("k"), "v");
}

#[test]
fn a_later_registration_replaces_a_text() {
    let mut c = Catalog::new();
    c.register(&[("en", r#"{"k":"one"}"#)]);
    c.register(&[("en", r#"{"k":"two"}"#)]);
    assert_eq!(c.tr("k"), "two");
}

#[test]
fn stored_pairs_are_looked_up() {
    let mut c = Catalog::new();
    c.store_pairs("de", &vec![("k".to_string(), "eins".to_string()), ("k".to_string(), "zwei".to_string())]);
    c.set_lang("de");
    assert_eq!(c.tr("k"), "zwei");
    c.set_lang("fr");
    assert_eq!(c.tr("k"), "k");
}

#[test]
fn language_table_gives_native_names() {
    let langs = languages();
    assert_eq!(langs[0], ("en", "English"));
    assert_eq!(langs[2], ("cs", "Čeština"));
    assert_eq!(langs[12], ("ru", "Русский"));
    assert_eq!(langs[14], ("sr", "Српски"));
}

#[test]
fn formatting_without_arguments_is_translating() {
    let mut c = Catalog::new();
    c.register(&[("en", r#"{"m":"Added %{added}, left %{ open","p":"plain"}"#)]);
    for key in ["m", "p", "missing %{x}"] {
        assert_eq!(c.trf(key, &[]), c.tr(key));
    }
    assert_eq!(c.trf("m", &[]), "Added %{added}, left %{ open");
}
