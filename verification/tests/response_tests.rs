use std::collections::HashMap;
use wokhei::response::NextAction;
use wokhei::response::ParamSpec;

#[test]
fn simple_action_has_no_params() {
    let a = NextAction::simple("wokhei whoami", "Verify your identity");
    assert_eq!(a.command, "wokhei whoami");
    assert_eq!(a.description, "Verify your identity");
    assert!(a.params.is_none());
}

#[test]
fn action_with_params_keeps_them() {
    let mut params = HashMap::new();
    params.insert("relay".to_string(), ParamSpec::described("Relay URL"));
    let a = NextAction::with_params("wokhei count", "Count events", params);
    assert_eq!(a.command, "wokhei count");
    let kept = a.params.unwrap();
    assert!(kept.contains_key("relay"));
}

#[test]
fn param_spec_value_form() {
    let p = ParamSpec::value("ws://localhost:7777");
    assert_eq!(p.value.as_deref(), Some("ws://localhost:7777"));
    assert!(p.description.is_none());
    assert!(p.default.is_none());
    assert!(p.enum_values.is_none());
}

#[test]
fn param_spec_described_form() {
    let p = ParamSpec::described("The relay to query");
    assert_eq!(p.description.as_deref(), Some("The relay to query"));
    assert!(p.value.is_none());
}

#[test]
fn param_spec_with_default_form() {
    let p = ParamSpec::with_default("Result cap", "50");
    assert_eq!(p.description.as_deref(), Some("Result cap"));
    assert_eq!(p.default.as_deref(), Some("50"));
    assert!(p.value.is_none());
}
