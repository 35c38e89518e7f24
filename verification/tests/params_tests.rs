use wokhei::params::normalize_import_source;
use wokhei::params::parse_bool_value;
use wokhei::params::parse_csv;
use wokhei::params::parse_usize_value;

#[test]
fn parse_csv_none_returns_empty() {
    assert!(parse_csv(None).is_empty());
}

#[test]
fn parse_csv_empty_string_returns_empty() {
    assert!(parse_csv(Some("")).is_empty());
}

#[test]
fn parse_csv_single_value() {
    assert_eq!(parse_csv(Some("a")), vec!["a"]);
}

#[test]
fn parse_csv_multiple_values() {
    assert_eq!(parse_csv(Some("a,b,c")), vec!["a", "b", "c"]);
}

#[test]
fn parse_csv_trims_whitespace() {
    assert_eq!(parse_csv(Some(" a , b ")), vec!["a", "b"]);
}

#[test]
fn import_equals_form_is_preserved() {
    let flag = Some("-".to_string());
    let out = normalize_import_source(flag.as_ref(), None).expect("valid import source");
    assert_eq!(out.as_deref(), Some("-"));
}

#[test]
fn import_space_form_uses_positional_source() {
    let flag = Some("true".to_string());
    let arg = Some("/dev/stdin".to_string());
    let out = normalize_import_source(flag.as_ref(), arg.as_ref()).expect("valid import source");
    assert_eq!(out.as_deref(), Some("/dev/stdin"));
}

#[test]
fn import_missing_source_errors() {
    let flag = Some("true".to_string());
    assert!(normalize_import_source(flag.as_ref(), None).is_err());
}

#[test]
fn bool_flag_absent_is_false() {
    assert_eq!(parse_bool_value("flag", None).unwrap(), false);
}

#[test]
fn bool_flag_true_value_is_true() {
    let v = Some("true".to_string());
    assert_eq!(parse_bool_value("flag", v.as_ref()).unwrap(), true);
}

#[test]
fn bool_flag_invalid_value_errors() {
    let v = Some("nonsense".to_string());
    let err = parse_bool_value("flag", v.as_ref()).unwrap_err();
    assert_eq!(err.code, "INVALID_ARGS");
    assert!(err.message.contains("flag"));
    assert!(err.message.contains("nonsense"));
}

#[test]
fn usize_flag_absent_returns_default() {
    assert_eq!(parse_usize_value("limit", None, 42).unwrap(), 42);
}

#[test]
fn usize_flag_valid_number() {
    let v = Some("10".to_string());
    assert_eq!(parse_usize_value("limit", v.as_ref(), 42).unwrap(), 10);
}

#[test]
fn usize_flag_zero_works() {
    let v = Some("0".to_string());
    assert_eq!(parse_usize_value("limit", v.as_ref(), 42).unwrap(), 0);
}

#[test]
fn usize_flag_invalid_errors() {
    let v = Some("abc".to_string());
    let err = parse_usize_value("limit", v.as_ref(), 42).unwrap_err();
    assert_eq!(err.code, "INVALID_ARGS");
}

#[test]
fn parse_csv_keeps_inner_empty_pieces() {
    assert_eq!(parse_csv(Some("a,,b")), vec!["a", "", "b"]);
}
