use server_manager::deps::DepsReport;
use server_manager::deps::dependencies_report;
use server_manager::parse::ResolveError;
use server_manager::parse::parse_config;
use server_manager::render::render_int;
use server_manager::render::render_str;
use server_manager::render::render_value;
use server_manager::value::ConfigValue;

fn parsed(text: &str) -> ConfigValue {
    match parse_config(text) {
        Ok(v) => v,
        Err(e) => panic!("expected a parse to succeed, got: {}", e.message()),
    }
}

fn report_lines(config: &ConfigValue) -> Vec<String> {
    match dependencies_report(config) {
        DepsReport::Present(lines) => lines,
        DepsReport::InvalidType => panic!("expected lines, got the invalid-table diagnostic"),
        DepsReport::Missing => panic!("expected lines, got the missing diagnostic"),
    }
}

#[test]
fn section_key_reaches_the_string() {
    let config = parsed("[section]\nkey = \"value\"");
    let section = config.get("section").expect("section should be there");
    let key = section.get("key").expect("key should be there");
    assert_eq!(*key, ConfigValue::Str("value".to_string()));
}

#[test]
fn dependencies_render_as_quoted_strings() {
    let config = parsed("[dependencies]\nserde = \"1.0\"\ntoml = \"0.5\"");
    let lines = report_lines(&config);
    assert_eq!(lines, vec!["serde: \"1.0\"".to_string(), "toml: \"0.5\"".to_string()]);
}

#[test]
fn dependencies_keep_source_order() {
    let config = parsed("[dependencies]\nzlib = 1\nalpha = 2\nmiddle = 3");
    let lines = report_lines(&config);
    assert_eq!(
        lines,
        vec!["zlib: 1".to_string(), "alpha: 2".to_string(), "middle: 3".to_string()],
    );
}

#[test]
fn missing_dependencies_key_reports_missing() {
    let config = parsed("[section]\nkey = \"value\"");
    assert!(matches!(dependencies_report(&config), DepsReport::Missing));
}

#[test]
fn empty_document_reports_missing() {
    let config = parsed("");
    assert!(matches!(dependencies_report(&config), DepsReport::Missing));
}

#[test]
fn non_table_dependencies_reports_invalid() {
    let config = parsed("dependencies = 3");
    assert!(matches!(dependencies_report(&config), DepsReport::InvalidType));
}

#[test]
fn string_dependencies_reports_invalid() {
    let config = parsed("dependencies = \"serde\"");
    assert!(matches!(dependencies_report(&config), DepsReport::InvalidType));
}

#[test]
fn malformed_text_is_a_parse_error() {
    let r = parse_config("not = = toml");
    match r {
        Err(ResolveError::ParseError(msg)) => assert!(!msg.is_empty()),
        _ => panic!("expected a parse error"),
    }
}

#[test]
fn duplicate_keys_are_a_parse_error() {
    let r = parse_config("a = 1\na = 2");
    assert!(matches!(r, Err(ResolveError::ParseError(_))));
}

#[test]
fn parsing_twice_gives_equal_trees() {
    let text = "[dependencies]\nserde = \"1.0\"\n[section]\nkey = \"value\"\nn = -3";
    let first = parsed(text);
    let second = parsed(text);
    assert_eq!(first, second);
}

#[test]
fn integers_render_in_decimal() {
    assert_eq!(render_int(0), "0");
    assert_eq!(render_int(7), "7");
    assert_eq!(render_int(-42), "-42");
    assert_eq!(render_int(i64::MAX), "9223372036854775807");
    assert_eq!(render_int(i64::MIN), "-9223372036854775808");
}

#[test]
fn strings_render_quoted_and_escaped() {
    assert_eq!(render_str("plain"), "\"plain\"");
    assert_eq!(render_str("a\"b\\c"), "\"a\\\"b\\\\c\"");
    assert_eq!(render_str("line\nbreak\ttab\rreturn"), "\"line\\nbreak\\ttab\\rreturn\"");
    assert_eq!(render_str(""), "\"\"");
}

#[test]
fn scalar_values_render_like_toml() {
    assert_eq!(render_value(&ConfigValue::Bool(true)), "true");
    assert_eq!(render_value(&ConfigValue::Bool(false)), "false");
    assert_eq!(render_value(&ConfigValue::Int(19)), "19");
    assert_eq!(render_value(&ConfigValue::Str("hi".to_string())), "\"hi\"");
}

#[test]
fn arrays_and_tables_render_inline() {
    let arr = ConfigValue::Array(vec![
        ConfigValue::Int(1),
        ConfigValue::Int(2),
        ConfigValue::Int(3),
    ]);
    assert_eq!(render_value(&arr), "[1, 2, 3]");
    assert_eq!(render_value(&ConfigValue::Array(vec![])), "[]");
    let table = ConfigValue::Table(vec![
        ("a".to_string(), ConfigValue::Int(1)),
        ("b".to_string(), ConfigValue::Str("x".to_string())),
    ]);
    assert_eq!(render_value(&table), "{ a = 1, b = \"x\" }");
    assert_eq!(render_value(&ConfigValue::Table(vec![])), "{  }");
}

#[test]
fn floats_and_datetimes_keep_toml_text() {
    let config = parsed("[dependencies]\npi = 1.5\nwhen = 1979-05-27");
    let lines = report_lines(&config);
    assert_eq!(lines, vec!["pi: 1.5".to_string(), "when: 1979-05-27".to_string()]);
}

#[test]
fn nested_dependency_values_render_inline() {
    let config = parsed("[dependencies]\nserde = { version = \"1.0\", features = [\"derive\"] }");
    let lines = report_lines(&config);
    assert_eq!(lines, vec!["serde: { version = \"1.0\", features = [\"derive\"] }".to_string()]);
}

#[test]
fn get_on_a_scalar_is_none() {
    let v = ConfigValue::Int(3);
    assert!(v.get("anything").is_none());
}

#[test]
fn get_misses_an_absent_key() {
    let config = parsed("[section]\nkey = \"value\"");
    assert!(config.get("other").is_none());
}

#[test]
fn error_messages_are_kept() {
    let e = ResolveError::PathError("No such file or directory".to_string());
    assert_eq!(e.message(), "No such file or directory");
    let e = ResolveError::ReadError("stream did not contain valid UTF-8".to_string());
    assert_eq!(e.message(), "stream did not contain valid UTF-8");
}
