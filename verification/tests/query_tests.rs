use wokhei::event::Event;
use wokhei::order::sort_records;
use wokhei::paginate::has_more;
use wokhei::paginate::last_page_offset;
use wokhei::paginate::paginate;
use wokhei::paginate::prev_offset;
use wokhei::project::project;
use wokhei::query::filter_by_name;
use wokhei::query::page_headers;
use wokhei::query::page_items;
use wokhei::query::project_all;

fn make_event(kind: u16, content: &str, tags: Vec<Vec<&str>>) -> Event {
    make_event_full("e0", kind, "pk0", 100, content, tags)
}

fn make_event_full(
    id: &str,
    kind: u16,
    pubkey: &str,
    created_at: u64,
    content: &str,
    tags: Vec<Vec<&str>>,
) -> Event {
    Event {
        id: id.to_string(),
        kind,
        pubkey: pubkey.to_string(),
        created_at,
        tags: tags
            .into_iter()
            .map(|t| t.into_iter().map(str::to_string).collect())
            .collect(),
        content: content.to_string(),
        sig: "sig".to_string(),
    }
}

#[test]
fn event_to_json_basic_fields() {
    let event = make_event(9998, "hello", vec![]);
    let r = project(&event);
    assert_eq!(r.event_id, "e0");
    assert_eq!(r.kind, 9998);
    assert_eq!(r.pubkey, "pk0");
    assert_eq!(r.created_at, 100);
    assert_eq!(r.sig, "sig");
    assert_eq!(r.content, "hello");
    assert!(r.tags.is_empty());
}

#[test]
fn event_to_json_names_tag_extracts_name_and_aliases() {
    let event = make_event(9998, "", vec![vec!["names", "mylist", "alias1", "alias2"]]);
    let r = project(&event);
    assert_eq!(r.name.as_deref(), Some("mylist"));
    assert_eq!(r.aliases, vec!["alias1", "alias2"]);
}

#[test]
fn event_to_json_single_name_no_aliases() {
    let event = make_event(9998, "", vec![vec!["names", "mylist"]]);
    let r = project(&event);
    assert_eq!(r.name.as_deref(), Some("mylist"));
    assert!(r.aliases.is_empty());
}

#[test]
fn event_to_json_title_extracted() {
    let event = make_event(9998, "", vec![vec!["title", "My Title"]]);
    let r = project(&event);
    assert_eq!(r.title.as_deref(), Some("My Title"));
}

#[test]
fn event_to_json_description_extracted() {
    let event = make_event(9998, "", vec![vec!["description", "A description"]]);
    let r = project(&event);
    assert_eq!(r.description.as_deref(), Some("A description"));
}

#[test]
fn event_to_json_d_tag_creates_coordinate() {
    let event = make_event_full("e1", 39998, "aabb", 5, "", vec![vec!["d", "my-list"]]);
    let r = project(&event);
    let coord = r.coordinate.as_deref().unwrap();
    assert!(coord.starts_with("39998:"));
    assert!(coord.ends_with(":my-list"));
    assert!(coord.contains("aabb"));
    assert_eq!(coord, "39998:aabb:my-list");
}

#[test]
fn event_to_json_unknown_tags_dont_pollute_top_level() {
    let event = make_event(9998, "", vec![vec!["weird", "val"]]);
    let r = project(&event);
    assert!(r.name.is_none());
    assert!(r.title.is_none());
    assert!(r.description.is_none());
    assert!(r.coordinate.is_none());
    assert!(r.aliases.is_empty());
}

#[test]
fn event_to_json_content_preserved() {
    let event = make_event(9999, r#"{"key":"val"}"#, vec![]);
    let r = project(&event);
    assert_eq!(r.content, r#"{"key":"val"}"#);
}

#[test]
fn event_to_json_tags_array_structure() {
    let event = make_event(
        9999,
        "",
        vec![vec!["r", "https://example.com"], vec!["z", "listItem"]],
    );
    let r = project(&event);
    assert_eq!(r.tags.len(), 2);
    assert_eq!(r.tags[0][0], "r");
    assert_eq!(r.tags[0][1], "https://example.com");
    assert_eq!(r.tags[1][0], "z");
    assert_eq!(r.tags[1][1], "listItem");
}

#[test]
fn paginate_returns_expected_window() {
    let values = vec![1, 2, 3, 4, 5];
    assert_eq!(paginate(values, 1, 2), vec![2, 3]);
}

#[test]
fn paginate_returns_empty_when_offset_out_of_range() {
    let values = vec![1, 2, 3];
    assert!(paginate(values, 3, 10).is_empty());
}

#[test]
fn paginate_returns_empty_when_limit_zero() {
    let values = vec![1, 2, 3];
    assert!(paginate(values, 0, 0).is_empty());
}

#[test]
fn sort_event_json_orders_by_created_at_desc_then_id() {
    let rows = vec![
        make_event_full("b", 9998, "pk", 100, "", vec![]),
        make_event_full("a", 9998, "pk", 100, "", vec![]),
        make_event_full("c", 9998, "pk", 120, "", vec![]),
    ];
    let records = sort_records(project_all(&rows));
    assert_eq!(records[0].event_id, "c");
    assert_eq!(records[1].event_id, "a");
    assert_eq!(records[2].event_id, "b");
}

#[test]
fn prev_offset_steps_back_by_limit() {
    assert_eq!(prev_offset(10, 3), 7);
    assert_eq!(prev_offset(2, 5), 0);
    assert_eq!(prev_offset(1, 0), 0);
}

#[test]
fn last_page_offset_floors_to_page_start() {
    assert_eq!(last_page_offset(11, 5), 10);
    assert_eq!(last_page_offset(10, 5), 5);
    assert_eq!(last_page_offset(3, 0), 2);
}

#[test]
fn has_more_only_when_a_further_page_exists() {
    assert!(has_more(0, 5, 10));
    assert!(!has_more(0, 50, 10));
    assert!(!has_more(8, 5, 10));
    assert!(!has_more(0, 0, 10));
}

#[test]
fn filter_by_name_is_case_insensitive_substring() {
    let events = vec![
        make_event_full("a", 9998, "pk", 1, "", vec![vec!["names", "Alpha List"]]),
        make_event_full("b", 9998, "pk", 2, "", vec![vec!["names", "beta"]]),
        make_event_full("c", 9998, "pk", 3, "", vec![]),
    ];
    let kept = filter_by_name(project_all(&events), "ALPH");
    assert_eq!(kept.len(), 1);
    assert_eq!(kept[0].event_id, "a");
}

#[test]
fn page_headers_windows_the_sorted_records() {
    let events = vec![
        make_event_full("b", 9998, "pk", 100, "", vec![]),
        make_event_full("a", 9998, "pk", 100, "", vec![]),
        make_event_full("c", 9998, "pk", 120, "", vec![]),
    ];
    let page = page_headers(events, None, 1, 1).unwrap();
    assert_eq!(page.total, 3);
    assert_eq!(page.count, 1);
    assert_eq!(page.offset, 1);
    assert_eq!(page.limit, 1);
    assert!(page.has_more);
    assert_eq!(page.headers[0].event_id, "a");
}

#[test]
fn page_items_counts_and_projects() {
    let events = vec![
        make_event_full("i1", 9999, "pk", 10, "", vec![vec!["r", "u1"]]),
        make_event_full("i2", 9999, "pk", 20, "", vec![vec!["r", "u2"]]),
    ];
    let page = page_items(events).unwrap();
    assert_eq!(page.count, 2);
    assert_eq!(page.items[0].event_id, "i1");
    assert_eq!(page.items[1].event_id, "i2");
}
