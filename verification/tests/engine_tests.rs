use wokhei::aggregate::count_with_fallback;
use wokhei::aggregate::export_report;
use wokhei::aggregate::items_matching;
use wokhei::delete::validate_event_ids;
use wokhei::enumerate::enum_start;
use wokhei::enumerate::enum_step;
use wokhei::enumerate::event_matches_exec;
use wokhei::enumerate::EnumState;
use wokhei::enumerate::Filter;
use wokhei::event::Event;
use wokhei::item::header_coordinate_reference;
use wokhei::numbers::kind_to_string;
use wokhei::numbers::parse_u16;
use wokhei::numbers::parse_usize;
use wokhei::numbers::u64_to_string;
use wokhei::project::project;
use wokhei::publish::kind_from_value;
use wokhei::publish::sanitize_tags;
use wokhei::query::build_header_filter;
use wokhei::query::id_filter;
use wokhei::query::items_filter;
use wokhei::query::page_headers;
use wokhei::query::project_all;
use wokhei::resolve::resolve_fetched_header;
use wokhei::resolve::ResolveError;

use nostr_sdk::prelude::ToBech32;

fn ev(id: &str, kind: u16, pubkey: &str, created_at: u64, tags: Vec<Vec<&str>>) -> Event {
    Event {
        id: id.to_string(),
        kind,
        pubkey: pubkey.to_string(),
        created_at,
        tags: tags
            .into_iter()
            .map(|t| t.into_iter().map(str::to_string).collect())
            .collect(),
        content: String::new(),
        sig: "sig".to_string(),
    }
}

fn pk_hex() -> String {
    nostr_sdk::prelude::Keys::generate().public_key().to_hex()
}

/// A store model for driving the enumerator without a network: newest
/// first, honoring the filter's upper time bound and result cap.
fn store_fetch(store: &[Event], filter: &Filter) -> Vec<Event> {
    let mut matching: Vec<Event> = store
        .iter()
        .filter(|e| event_matches_exec(e, filter))
        .cloned()
        .collect();
    matching.sort_by(|a, b| b.created_at.cmp(&a.created_at));
    if let Some(limit) = filter.limit {
        matching.truncate(limit);
    }
    matching
}

fn drive_enumeration(store: &[Event], page_size: usize) -> (EnumState, usize) {
    let mut state = enum_start();
    let mut pages = 0usize;
    while !state.done {
        let filter = Filter {
            id: None,
            kinds: vec![],
            author: None,
            tag: None,
            until: state.until,
            limit: Some(page_size),
        };
        let batch = store_fetch(store, &filter);
        state = enum_step(state, batch, page_size);
        pages += 1;
        assert!(pages <= store.len() + 1, "enumeration failed to terminate");
    }
    (state, pages)
}

#[test]
fn enumerator_collects_all_events_in_three_pages() {
    let store = vec![
        ev("e1", 9998, "pk", 50, vec![]),
        ev("e2", 9998, "pk", 40, vec![]),
        ev("e3", 9998, "pk", 30, vec![]),
        ev("e4", 9998, "pk", 20, vec![]),
        ev("e5", 9998, "pk", 10, vec![]),
    ];
    let (state, pages) = drive_enumeration(&store, 2);
    assert!(pages <= 3, "took {pages} pages");
    assert_eq!(state.events.len(), 5);
    let mut ids: Vec<&str> = state.events.iter().map(|e| e.id.as_str()).collect();
    ids.sort();
    assert_eq!(ids, vec!["e1", "e2", "e3", "e4", "e5"]);
}

#[test]
fn enumerator_never_repeats_an_identity_across_overlapping_pages() {
    // A store whose pages overlap: every event shares one timestamp, so the
    // cursor cannot advance, but the dedup still keeps each identity once.
    let store = vec![
        ev("a", 9998, "pk", 7, vec![]),
        ev("b", 9998, "pk", 7, vec![]),
        ev("c", 9998, "pk", 7, vec![]),
    ];
    let (state, _) = drive_enumeration(&store, 2);
    let mut ids: Vec<&str> = state.events.iter().map(|e| e.id.as_str()).collect();
    let before = ids.len();
    ids.sort();
    ids.dedup();
    assert_eq!(ids.len(), before, "an identity appeared twice");
}

#[test]
fn enumerator_stops_when_cursor_fails_to_decrease() {
    // A non-monotonic store that keeps answering full pages of the same
    // newest events regardless of the bound.
    let store = vec![
        ev("a", 9998, "pk", 7, vec![]),
        ev("b", 9998, "pk", 7, vec![]),
    ];
    let mut state = enum_start();
    let mut steps = 0usize;
    while !state.done {
        let batch = vec![
            ev("a", 9998, "pk", 7, vec![]),
            ev("b", 9998, "pk", 7, vec![]),
        ];
        state = enum_step(state, batch, 2);
        steps += 1;
        assert!(steps <= 3, "cursor guard did not fire");
    }
    assert_eq!(state.events.len(), store.len());
}

#[test]
fn coordinate_resolves_without_any_fetch() {
    let pk = pk_hex();
    let input = format!("39998:{pk}:my-list");
    let canonical = header_coordinate_reference(&input).unwrap();
    assert_eq!(canonical, input);
}

#[test]
fn missing_identifier_is_its_own_error() {
    let header = ev("h1", 39998, &pk_hex(), 10, vec![vec!["title", "t"]]);
    let r = resolve_fetched_header(Some(&header));
    assert_eq!(r.unwrap_err(), ResolveError::MissingIdentifier);
}

#[test]
fn wrong_kind_and_not_found_are_distinct() {
    let other = ev("x", 1, &pk_hex(), 10, vec![]);
    assert_eq!(
        resolve_fetched_header(Some(&other)).unwrap_err(),
        ResolveError::WrongReferenceKind
    );
    assert_eq!(
        resolve_fetched_header(None).unwrap_err(),
        ResolveError::NotFound
    );
}

#[test]
fn immutable_header_resolves_to_its_identity() {
    let header = ev("h1", 9998, &pk_hex(), 10, vec![]);
    assert_eq!(resolve_fetched_header(Some(&header)).unwrap(), "h1");
}

#[test]
fn mutable_header_reference_round_trips_through_its_coordinate() {
    // Resolving a mutable header by identity and re-resolving the canonical
    // reference as a coordinate yield the same string.
    let pk = pk_hex();
    let header = ev("h1", 39998, &pk, 10, vec![vec!["d", "my-list"]]);
    let by_identity = resolve_fetched_header(Some(&header)).unwrap();
    let by_coordinate = header_coordinate_reference(&by_identity).unwrap();
    assert_eq!(by_identity, by_coordinate);
    assert_eq!(by_identity, format!("39998:{pk}:my-list"));
}

#[test]
fn paginate_window_past_the_end_with_has_more_false() {
    let records: Vec<u32> = (0..10).collect();
    let page = wokhei::paginate::paginate(records, 8, 5);
    assert_eq!(page, vec![8, 9]);
    assert!(!wokhei::paginate::has_more(8, 5, 10));
}

#[test]
fn count_falls_back_to_deduplicated_enumeration() {
    let store = vec![
        ev("a", 9998, "pk", 7, vec![]),
        ev("b", 9998, "pk", 7, vec![]),
        ev("c", 9998, "pk", 6, vec![]),
    ];
    let (state, _) = drive_enumeration(&store, 2);
    assert_eq!(count_with_fallback(None, &state.events), 3);
    assert_eq!(count_with_fallback(Some(11), &state.events), 11);
}

#[test]
fn export_totals_over_three_headers() {
    let pk = pk_hex();
    let headers = project_all(&vec![
        ev("h1", 9998, &pk, 30, vec![]),
        ev("h2", 39998, &pk, 20, vec![vec!["d", "x"]]),
        ev("h3", 9998, &pk, 10, vec![]),
    ]);
    let item_sets = vec![
        project_all(&vec![ev("i1", 9999, &pk, 5, vec![])]),
        project_all(&vec![ev("i2", 9999, &pk, 4, vec![])]),
        project_all(&vec![]),
    ];
    let report = export_report(headers, item_sets);
    assert_eq!(report.headers_count, 3);
    assert_eq!(report.items_count, 2);
    assert_eq!(report.entries.len(), 3);
    assert_eq!(report.entries[0].items_count, 1);
    assert_eq!(report.entries[2].items_count, 0);
}

#[test]
fn empty_result_is_not_a_connectivity_failure() {
    let err = page_headers(vec![], None, 0, 50).unwrap_err();
    assert_eq!(err.code(), "NO_RESULTS");
    assert!(!err.retryable());
}

#[test]
fn items_matching_joins_on_exact_reference_equality() {
    let reference = "39998:pk:my-list";
    let events = vec![
        ev("i1", 9999, "pk", 3, vec![vec!["z", reference]]),
        ev("i2", 9999, "pk", 2, vec![vec!["z", "other"]]),
        ev("i3", 39999, "pk", 1, vec![vec!["z", reference]]),
        ev("i4", 9999, "pk", 1, vec![vec!["z", "39998:pk:MY-LIST"]]),
    ];
    let kept = items_matching(events, reference);
    let ids: Vec<&str> = kept.iter().map(|e| e.id.as_str()).collect();
    assert_eq!(ids, vec!["i1", "i3"]);
}

#[test]
fn validate_event_ids_normalizes_and_rejects() {
    let id = nostr_sdk::prelude::EventId::from_byte_array([7u8; 32]);
    let hex = id.to_hex();
    let bech = id.to_bech32().unwrap();
    let ok = validate_event_ids(&vec![hex.clone(), bech]).unwrap();
    assert_eq!(ok, vec![hex.clone(), hex]);

    let err = validate_event_ids(&vec!["not-an-id".to_string()]).unwrap_err();
    assert_eq!(err.code(), "INVALID_EVENT_ID");
}

#[test]
fn header_filter_normalizes_the_author() {
    let keys = nostr_sdk::prelude::Keys::generate();
    let npub = keys.public_key().to_bech32().unwrap();
    let f = build_header_filter(Some(&npub), None).unwrap();
    assert_eq!(f.author.as_deref(), Some(keys.public_key().to_hex().as_str()));
    assert_eq!(f.kinds, vec![9998, 39998]);

    let err = build_header_filter(Some(&"junk".to_string()), None).unwrap_err();
    assert_eq!(err.code(), "INVALID_EVENT_ID");
}

#[test]
fn filters_carry_their_criteria() {
    let f = items_filter(&"ref".to_string(), Some(100));
    assert_eq!(f.kinds, vec![9999, 39999]);
    let tq = f.tag.unwrap();
    assert_eq!(tq.key, "z");
    assert_eq!(tq.value, "ref");
    assert_eq!(f.limit, Some(100));

    let g = id_filter(&"abc".to_string());
    assert_eq!(g.id.as_deref(), Some("abc"));
    assert_eq!(g.limit, Some(1));
}

#[test]
fn decimal_rendering_and_parsing_agree() {
    assert_eq!(kind_to_string(39998), "39998");
    assert_eq!(u64_to_string(0), "0");
    assert_eq!(u64_to_string(1050), "1050");
    assert_eq!(parse_u16("39998"), Some(39998));
    assert_eq!(parse_u16("+7"), Some(7));
    assert_eq!(parse_u16("70000"), None);
    assert_eq!(parse_u16(""), None);
    assert_eq!(parse_u16("12a"), None);
    assert_eq!(parse_usize("0"), Some(0));
    assert_eq!(parse_usize("123456"), Some(123456));
    assert_eq!(parse_usize("-1"), None);
}

#[test]
fn raw_event_tags_and_kind_are_sanitized() {
    let tags = vec![
        vec!["r".to_string(), "https://example.com".to_string()],
        vec!["orphan".to_string()],
        vec![],
        vec!["z".to_string(), "x".to_string(), "y".to_string()],
    ];
    let kept = sanitize_tags(tags);
    assert_eq!(kept.len(), 2);
    assert_eq!(kept[0][0], "r");
    assert_eq!(kept[1][0], "z");

    assert_eq!(kind_from_value(None), 1);
    assert_eq!(kind_from_value(Some(9999)), 9999);
    assert_eq!(kind_from_value(Some(70002)), 4466);
}

#[test]
fn projection_keeps_the_last_occurrence_of_a_key() {
    let e = ev(
        "e9",
        9998,
        "pk",
        1,
        vec![
            vec!["title", "first"],
            vec!["title", "second"],
            vec!["names", "one"],
            vec!["names", "two", "alias"],
        ],
    );
    let r = project(&e);
    assert_eq!(r.title.as_deref(), Some("second"));
    assert_eq!(r.name.as_deref(), Some("two"));
    assert_eq!(r.aliases, vec!["alias"]);
}
