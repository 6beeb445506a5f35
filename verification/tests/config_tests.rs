use seedgen::config::{load_config, parse_config, render_config, Config};

#[test]
fn render_a_stored_seed() {
    let c = Config { seed: Some("abc123".to_string()) };
    assert_eq!(render_config(&c), "{\n  \"seed\": \"abc123\"\n}");
}

#[test]
fn render_the_empty_record() {
    let c = Config { seed: None };
    assert_eq!(render_config(&c), "{\n  \"seed\": null\n}");
}

#[test]
fn save_then_load_round_trips_the_seed() {
    let seed = "b7e309cd1b226fb3ac60b784796f292cbb8e50b999e54228967e3692896fef6c";
    let c = Config { seed: Some(seed.to_string()) };
    let loaded = parse_config(&render_config(&c));
    assert_eq!(loaded.seed.as_deref(), Some(seed));
}

#[test]
fn round_trip_keeps_quotes_and_backslashes() {
    let c = Config { seed: Some("a\"b\\c".to_string()) };
    let loaded = parse_config(&render_config(&c));
    assert_eq!(loaded.seed.as_deref(), Some("a\"b\\c"));
}

#[test]
fn control_characters_are_escaped_as_json_asks() {
    let c = Config { seed: Some("a\u{1}b".to_string()) };
    assert_eq!(render_config(&c), "{\n  \"seed\": \"a\\u0001b\"\n}");
    let c = Config { seed: Some("x\ny".to_string()) };
    assert_eq!(render_config(&c), "{\n  \"seed\": \"x\\ny\"\n}");
    let c = Config { seed: Some("p\tq\u{8}\u{c}\r\u{1f}".to_string()) };
    assert_eq!(render_config(&c), "{\n  \"seed\": \"p\\tq\\b\\f\\r\\u001f\"\n}");
}

#[test]
fn round_trip_keeps_control_characters() {
    let c = Config { seed: Some("a\nb\t\u{0}\u{1f}\r".to_string()) };
    let loaded = parse_config(&render_config(&c));
    assert_eq!(loaded.seed.as_deref(), Some("a\nb\t\u{0}\u{1f}\r"));
}

#[test]
fn raw_control_characters_are_corrupt() {
    // A raw newline inside the quoted value is not valid JSON: the record
    // is corrupt and loads as the default.
    let doc = "{\n  \"seed\": \"a\nb\"\n}";
    assert!(parse_config(doc).seed.is_none());
    let doc = "{\n  \"seed\": \"a\u{1}b\"\n}";
    assert!(parse_config(doc).seed.is_none());
}

#[test]
fn bad_escapes_are_corrupt() {
    assert!(parse_config("{\n  \"seed\": \"a\\qb\"\n}").seed.is_none());
    assert!(parse_config("{\n  \"seed\": \"a\\u00\"\n}").seed.is_none());
    assert!(parse_config("{\n  \"seed\": \"a\\u0041\"\n}").seed.is_none());
    assert!(parse_config("{\n  \"seed\": \"a\\\"\n}").seed.is_none());
}

#[test]
fn short_and_unicode_escapes_are_read() {
    let doc = "{\n  \"seed\": \"a\\nb\\u0002c\"\n}";
    assert_eq!(parse_config(doc).seed.as_deref(), Some("a\nb\u{2}c"));
}

#[test]
fn round_trip_keeps_the_empty_seed() {
    let c = Config { seed: Some(String::new()) };
    let loaded = parse_config(&render_config(&c));
    assert_eq!(loaded.seed.as_deref(), Some(""));
}

#[test]
fn null_document_parses_to_the_empty_record() {
    let loaded = parse_config("{\n  \"seed\": null\n}");
    assert!(loaded.seed.is_none());
}

#[test]
fn garbage_parses_to_the_empty_record() {
    assert!(parse_config("").seed.is_none());
    assert!(parse_config("{}").seed.is_none());
    assert!(parse_config("not json at all").seed.is_none());
    assert!(parse_config("{\n  \"seed\": \"unterminated\n}").seed.is_none());
}

#[test]
fn loading_without_a_file_yields_the_default() {
    let c = load_config(None);
    assert!(c.seed.is_none());
}

#[test]
fn loading_a_saved_file_yields_its_seed() {
    let saved = render_config(&Config { seed: Some("feedface".to_string()) });
    let c = load_config(Some(saved));
    assert_eq!(c.seed.as_deref(), Some("feedface"));
}

#[test]
fn set_seed_overwrites_the_old_value() {
    let mut c = Config { seed: Some("old".to_string()) };
    c.set_seed("new".to_string());
    assert_eq!(c.seed.as_deref(), Some("new"));
}

#[test]
fn default_record_has_no_seed() {
    let c: Config = Default::default();
    assert!(c.seed.is_none());
}
