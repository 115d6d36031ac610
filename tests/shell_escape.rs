use azure_api::shell::Shell;
use serde_json::Value;

fn text(s: &str) -> Value {
    Value::String(s.to_string())
}

#[test]
fn test_unix_escape_simple() {
    assert_eq!(Shell::Unix.escape(&text("foo")), "\"foo\"");
}

#[test]
fn test_unix_escape_with_space() {
    assert_eq!(Shell::Unix.escape(&text("foo bar")), r#""foo bar""#);
}

#[test]
fn test_unix_escape_with_quote() {
    assert_eq!(Shell::Unix.escape(&text("foo'bar")), r#""foo'bar""#);
}

#[test]
fn test_unix_escape_with_double_quote() {
    assert_eq!(Shell::Unix.escape(&text(r#"foo"bar"#)), r#""foo\"bar""#);
}

#[test]
fn test_unix_escape_with_double_quote_in_object() {
    let mut map = serde_json::Map::new();
    map.insert("a\"b".to_string(), Value::from(123));
    assert_eq!(Shell::Unix.escape(&Value::Object(map)), r#""{\"a\\"b\":123}""#);
}

#[test]
fn test_cmd_escape_simple() {
    assert_eq!(Shell::Cmd.escape(&text("foo")), r#""foo""#);
}

#[test]
fn test_cmd_escape_with_space() {
    assert_eq!(Shell::Cmd.escape(&text("foo bar")), r#""foo bar""#);
}

#[test]
fn test_cmd_escape_with_quote() {
    assert_eq!(Shell::Cmd.escape(&text("foo'bar")), r#""foo'bar""#);
}

#[test]
fn test_cmd_escape_with_double_quote() {
    assert_eq!(Shell::Cmd.escape(&text(r#"foo"bar"#)), r#""foo""bar""#);
}

#[test]
fn test_powershell_escape_simple() {
    assert_eq!(Shell::PowerShell.escape(&text("foo")), r#""foo""#);
}

#[test]
fn test_powershell_escape_with_space() {
    assert_eq!(Shell::PowerShell.escape(&text("foo bar")), r#""foo bar""#);
}

#[test]
fn test_powershell_escape_with_quote() {
    assert_eq!(Shell::PowerShell.escape(&text("foo'bar")), r#""foo'bar""#);
}

#[test]
fn test_powershell_escape_with_double_quote() {
    assert_eq!(Shell::PowerShell.escape(&text(r#"foo"bar"#)), r#""foo""bar""#);
}

#[test]
fn shell_names_parse_without_regard_to_case() {
    assert_eq!(Shell::parse("PowerShell").unwrap(), Shell::PowerShell);
    assert_eq!(Shell::parse("UNIX").unwrap(), Shell::Unix);
    assert_eq!(Shell::parse("cmd").unwrap(), Shell::Cmd);
    let err = Shell::parse("fish").unwrap_err();
    assert_eq!(err.0, "fish");
    let parsed: Shell = "Cmd".parse().unwrap();
    assert_eq!(parsed, Shell::Cmd);
}

#[test]
fn shell_variants_are_listed() {
    assert_eq!(Shell::variants(), vec!["cmd", "powershell", "unix"]);
}

#[test]
fn escape_of_a_number_uses_its_json_text() {
    assert_eq!(Shell::Unix.escape(&Value::from(42)), "\"42\"");
    assert_eq!(Shell::Cmd.escape_text("a\"\"b"), "\"a\"\"\"\"b\"");
}
