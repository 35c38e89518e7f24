use wokhei::item::build_item_tags;
use wokhei::item::header_coordinate_reference;
use wokhei::item::item_d_tag_for;
use wokhei::item::item_kind;
use wokhei::item::validate_item_params;
use wokhei::item::ItemParams;
use wokhei::resolve::parse_coordinate;

fn test_pubkey_hex() -> String {
    nostr_sdk::prelude::Keys::generate().public_key().to_hex()
}

#[test]
fn parse_coordinate_valid() {
    let pk = test_pubkey_hex();
    let input = format!("39998:{pk}:my-list");
    let c = parse_coordinate(&input).unwrap();
    assert_eq!(c.kind, 39998);
    assert_eq!(c.pubkey, pk);
    assert_eq!(c.d_tag, "my-list");
}

#[test]
fn parse_coordinate_too_few_parts() {
    let err = parse_coordinate("39998:abc").unwrap_err();
    assert_eq!(err.code(), "INVALID_COORDINATE");
}

#[test]
fn parse_coordinate_single_part() {
    let err = parse_coordinate("just-one").unwrap_err();
    assert_eq!(err.code(), "INVALID_COORDINATE");
}

#[test]
fn parse_coordinate_invalid_kind() {
    let pk = test_pubkey_hex();
    let input = format!("notnum:{pk}:d");
    let err = parse_coordinate(&input).unwrap_err();
    assert_eq!(err.code(), "INVALID_COORDINATE");
}

#[test]
fn parse_coordinate_invalid_pubkey() {
    let err = parse_coordinate("39998:not-a-pubkey:d").unwrap_err();
    assert_eq!(err.code(), "INVALID_COORDINATE");
}

#[test]
fn parse_coordinate_d_tag_with_colons_preserved() {
    let pk = test_pubkey_hex();
    let input = format!("39998:{pk}:d:tag:with:colons");
    let c = parse_coordinate(&input).unwrap();
    assert_eq!(c.d_tag, "d:tag:with:colons");
}

#[test]
fn parse_coordinate_empty_d_tag() {
    let pk = test_pubkey_hex();
    let input = format!("39998:{pk}:");
    let c = parse_coordinate(&input).unwrap();
    assert_eq!(c.d_tag, "");
}

fn base_params(header: Option<String>, header_coordinate: Option<String>) -> ItemParams {
    ItemParams {
        relay: "ws://localhost:7777".into(),
        header,
        header_coordinate,
        resource: "https://example.com".into(),
        content: None,
        fields: vec![],
        addressable: false,
        d_tag: None,
    }
}

#[test]
fn validate_header_only_ok() {
    let p = base_params(Some("abc123".into()), None);
    assert!(validate_item_params(&p).is_ok());
}

#[test]
fn validate_coordinate_only_ok() {
    let p = base_params(None, Some("39998:pk:d".into()));
    assert!(validate_item_params(&p).is_ok());
}

#[test]
fn validate_neither_header_nor_coordinate_errors() {
    let p = base_params(None, None);
    let err = validate_item_params(&p).unwrap_err();
    assert_eq!(err.code, "MISSING_ARG");
}

#[test]
fn validate_addressable_without_d_tag_ok() {
    let mut p = base_params(Some("abc".into()), None);
    p.addressable = true;
    assert!(validate_item_params(&p).is_ok());
}

#[test]
fn validate_addressable_with_d_tag_ok() {
    let mut p = base_params(Some("abc".into()), None);
    p.addressable = true;
    p.d_tag = Some("my-id".into());
    assert!(validate_item_params(&p).is_ok());
}

#[test]
fn validate_non_addressable_without_d_tag_ok() {
    let p = base_params(Some("abc".into()), None);
    assert!(validate_item_params(&p).is_ok());
}

fn find_tag<'a>(tags: &'a [Vec<String>], key: &str) -> Option<&'a Vec<String>> {
    tags.iter().find(|t| t.first().map(String::as_str) == Some(key))
}

#[test]
fn build_item_tags_has_parent_z_ref() {
    let tags = build_item_tags("abc123", "https://example.com", &vec![], None);
    let z = find_tag(&tags, "z").expect("z tag missing");
    assert_eq!(z, &vec!["z", "abc123"]);
}

#[test]
fn build_item_tags_has_resource() {
    let tags = build_item_tags("abc123", "https://example.com", &vec![], None);
    let r = find_tag(&tags, "r").expect("r tag missing");
    assert_eq!(r, &vec!["r", "https://example.com"]);
}

#[test]
fn build_item_tags_has_client() {
    let tags = build_item_tags("abc123", "https://example.com", &vec![], None);
    let c = find_tag(&tags, "client").expect("client tag missing");
    assert_eq!(c, &vec!["client", "wokhei"]);
}

#[test]
fn build_item_tags_does_not_emit_legacy_parent_tags() {
    let tags = build_item_tags("abc123", "https://example.com", &vec![], None);
    assert!(find_tag(&tags, "e").is_none());
    assert!(find_tag(&tags, "a").is_none());
}

#[test]
fn build_item_tags_accepts_coordinate_parent_ref() {
    let coord = format!("39998:{}:my-list", test_pubkey_hex());
    let tags = build_item_tags(&coord, "https://example.com", &vec![], None);
    let z = find_tag(&tags, "z").expect("z tag missing");
    assert_eq!(z, &vec!["z".to_string(), coord]);
}

#[test]
fn build_item_tags_fields_with_equals_become_tags() {
    let fields = vec!["color=red".to_string(), "size=large".to_string()];
    let tags = build_item_tags("abc123", "https://example.com", &fields, None);
    let color = find_tag(&tags, "color").expect("color tag missing");
    assert_eq!(color, &vec!["color", "red"]);
    let size = find_tag(&tags, "size").expect("size tag missing");
    assert_eq!(size, &vec!["size", "large"]);
}

#[test]
fn build_item_tags_fields_without_equals_skipped() {
    let fields = vec!["no-equals-here".to_string()];
    let tags = build_item_tags("abc123", "https://example.com", &fields, None);
    assert_eq!(tags.len(), 3);
}

#[test]
fn build_item_tags_d_tag_present() {
    let d = "my-item".to_string();
    let tags = build_item_tags("abc123", "https://example.com", &vec![], Some(&d));
    let dt = find_tag(&tags, "d").expect("d tag missing");
    assert_eq!(dt, &vec!["d", "my-item"]);
}

#[test]
fn build_item_tags_d_tag_absent() {
    let tags = build_item_tags("abc123", "https://example.com", &vec![], None);
    assert!(find_tag(&tags, "d").is_none());
}

#[test]
fn header_coordinate_reference_requires_mutable_header_kind() {
    let pk = test_pubkey_hex();
    let ok = header_coordinate_reference(&format!("39998:{pk}:my-list")).unwrap();
    assert_eq!(ok, format!("39998:{pk}:my-list"));
    let err = header_coordinate_reference(&format!("9998:{pk}:my-list")).unwrap_err();
    assert_eq!(err.code(), "INVALID_COORDINATE");
}

#[test]
fn item_kind_follows_addressable() {
    assert_eq!(item_kind(false), 9999);
    assert_eq!(item_kind(true), 39999);
}

#[test]
fn item_d_tag_derived_only_for_addressable_without_one() {
    assert_eq!(item_d_tag_for(false, None, "p", "r"), None);
    assert_eq!(
        item_d_tag_for(true, Some("given".into()), "p", "r"),
        Some("given".to_string())
    );
    let derived = item_d_tag_for(true, None, "parent-z", "https://example.com").unwrap();
    assert_eq!(derived, wokhei::dtag::item_dtag("parent-z", "https://example.com"));
}
