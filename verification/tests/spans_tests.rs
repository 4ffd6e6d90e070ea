use chrono::Utc;
use logline::decimal::{parse_number, render_decimal, render_decimal_u64, render_decimal_wide};
use logline::keyed::KeyedList;
use logline::order::{comes_before, insert_sorted};
use logline::spans::{fetch_spans, mine_diamonds, record_span, DiamondError, Span, SpanFilter, SpanStore};
use logline::text::{chars_of, equals_ignoring_ascii_case, same_text, string_from_chars, to_lower_char};
use logline::types::{OperationStatus, SystemConfig};
use uuid::Uuid;

fn make_span(id_suffix: u8, parent_suffix: Option<u8>) -> Span {
    let id = Uuid::from_u128(id_suffix as u128).as_u128();
    let parent = parent_suffix.map(|p| Uuid::from_u128(p as u128).as_u128());
    Span {
        id,
        parent,
        kind: "test_kind".into(),
        payload: String::new(),
        timestamp: Utc::now().timestamp_millis(),
    }
}

#[test]
fn test_empty_input_returns_error() {
    let result = mine_diamonds(&vec![], 1);
    assert!(matches!(result, Err(DiamondError::EmptyInput)));
}

#[test]
fn test_no_diamonds_found_when_below_threshold() {
    let spans = vec![make_span(1, None), make_span(2, Some(1)), make_span(3, Some(1))];
    let diamonds = mine_diamonds(&spans, 3).unwrap();
    assert!(diamonds.is_empty());
}

#[test]
fn test_finds_single_diamond_span() {
    let spans = vec![
        make_span(1, None),
        make_span(2, Some(1)),
        make_span(3, Some(1)),
        make_span(4, Some(1)),
        make_span(5, None),
        make_span(6, Some(5)),
    ];
    let diamonds = mine_diamonds(&spans, 3).unwrap();
    assert_eq!(diamonds.len(), 1);
    assert_eq!(diamonds[0].id, Uuid::from_u128(1).as_u128());
}

#[test]
fn test_finds_multiple_diamonds_and_ignores_others() {
    let spans = vec![
        make_span(1, None),
        make_span(10, Some(1)),
        make_span(11, Some(1)),
        make_span(2, None),
        make_span(20, Some(2)),
        make_span(3, None),
        make_span(30, Some(3)),
        make_span(31, Some(3)),
        make_span(32, Some(3)),
    ];
    let mut diamonds = mine_diamonds(&spans, 2).unwrap();
    assert_eq!(diamonds.len(), 2);
    diamonds.sort_by_key(|d| d.id);
    assert_eq!(diamonds[0].id, Uuid::from_u128(1).as_u128());
    assert_eq!(diamonds[1].id, Uuid::from_u128(3).as_u128());
}

#[test]
fn test_a_diamond_has_a_child_whatever_the_threshold() {
    let spans = vec![make_span(1, None), make_span(2, Some(1)), make_span(3, Some(9))];
    let diamonds = mine_diamonds(&spans, 0).unwrap();
    assert_eq!(diamonds.len(), 1);
    assert_eq!(diamonds[0].id, 1);
    assert_eq!(
        DiamondError::EmptyInput.message(),
        "A lista de spans para mineração não pode estar vazia."
    );
}

#[test]
fn test_record_and_fetch() {
    let mut store = SpanStore::new();
    let span = Span {
        id: Uuid::new_v4().as_u128(),
        parent: None,
        kind: "test_kind".to_string(),
        payload: "hello world".to_string(),
        timestamp: Utc::now().timestamp_millis(),
    };
    let id = span.id;
    record_span(&mut store, span).unwrap();
    let found = fetch_spans(&store, &SpanFilter { kind: Some("test_kind".to_string()), limit: None }).unwrap();
    assert_eq!(found.len(), 1);
    assert_eq!(found[0].id, id);
    assert_eq!(found[0].payload, "hello world");
}

#[test]
fn test_fetch_filters_then_limits() {
    let mut store = SpanStore::new();
    for (i, kind) in ["a", "b", "a", "a", "b"].iter().enumerate() {
        record_span(
            &mut store,
            Span { id: i as u128, parent: None, kind: kind.to_string(), payload: String::new(), timestamp: 0 },
        )
        .unwrap();
    }
    let ids = |filter: SpanFilter| -> Vec<u128> {
        fetch_spans(&store, &filter).unwrap().into_iter().map(|s| s.id).collect()
    };
    assert_eq!(ids(SpanFilter::default()), vec![0, 1, 2, 3, 4]);
    assert_eq!(ids(SpanFilter { kind: Some("a".to_string()), limit: None }), vec![0, 2, 3]);
    assert_eq!(ids(SpanFilter { kind: Some("a".to_string()), limit: Some(2) }), vec![0, 2]);
    assert_eq!(ids(SpanFilter { kind: None, limit: Some(0) }), Vec::<u128>::new());
    assert_eq!(ids(SpanFilter { kind: Some("A".to_string()), limit: Some(9) }), Vec::<u128>::new());
    assert_eq!(ids(SpanFilter { kind: Some("b".to_string()), limit: Some(9) }), vec![1, 4]);
}

#[test]
fn test_shared_types() {
    let config = SystemConfig::default();
    assert_eq!(config.execution_mode, "development");
    assert_eq!(config.log_level, "info");
    assert!(config.use_memory_store);
    assert_eq!(config.plugin_directory, Some("./plugins".to_string()));
    assert_eq!(config.plugin_refresh_interval, Some(30));
    assert_ne!(OperationStatus::Success, OperationStatus::Failure);
    assert_eq!(logline::version(), "1.0.0");
    assert_eq!(logline::PRODUCT_NAME, "LogLine Motor");
}

#[test]
fn test_ordering_of_ids() {
    assert!(comes_before("a", "b"));
    assert!(comes_before("a", "aa"));
    assert!(comes_before("", "a"));
    assert!(comes_before("B", "a"));
    assert!(comes_before("z", "é"));
    assert!(!comes_before("a", "a"));
    assert!(!comes_before("b", "a"));
    assert!(!comes_before("aa", "a"));
    assert!(!comes_before("", ""));
    let mut ids: Vec<String> = Vec::new();
    for id in ["m", "a", "z", "m", "b", "", "a"] {
        insert_sorted(&mut ids, id.to_string());
    }
    assert_eq!(ids, vec!["", "a", "b", "m", "z"]);
}

#[test]
fn test_decimal_notation() {
    assert_eq!(render_decimal(0), "0");
    assert_eq!(render_decimal(9), "9");
    assert_eq!(render_decimal(10), "10");
    assert_eq!(render_decimal(usize::MAX), usize::MAX.to_string());
    assert_eq!(render_decimal_u64(u64::MAX), "18446744073709551615");
    assert_eq!(render_decimal_wide(u128::MAX), "340282366920938463463374607431768211455");
    assert_eq!(parse_number("0", 10), Some(0));
    assert_eq!(parse_number("010", 10), Some(10));
    assert_eq!(parse_number("11", 10), None);
    assert_eq!(parse_number("", 10), None);
    assert_eq!(parse_number("+1", 10), None);
    assert_eq!(parse_number("1_0", 10), None);
    assert_eq!(parse_number("٣", 10), None);
}

#[test]
fn test_text_helpers() {
    assert_eq!(chars_of("aé✓"), vec!['a', 'é', '✓']);
    assert_eq!(string_from_chars(&vec!['a', 'é', '✓']), "aé✓");
    assert!(same_text("é", "é"));
    assert!(!same_text("e", "é"));
    assert_eq!(to_lower_char('A'), 'a');
    assert_eq!(to_lower_char('Z'), 'z');
    assert_eq!(to_lower_char('É'), 'É');
    assert_eq!(to_lower_char('['), '[');
    assert!(equals_ignoring_ascii_case("TrUe", "true"));
    assert!(!equals_ignoring_ascii_case("true ", "true"));
}

#[test]
fn test_keyed_list() {
    let mut list: KeyedList<u32> = KeyedList::new();
    assert!(!list.put("a".to_string(), 1));
    assert!(!list.put("b".to_string(), 2));
    assert!(list.put("a".to_string(), 3));
    assert_eq!(list.len(), 2);
    assert_eq!(list.keys, vec!["a", "b"]);
    assert_eq!(list.get("a"), Some(&3));
    assert_eq!(list.find("b"), Some(1));
    assert_eq!(list.take("a"), Some(3));
    assert_eq!(list.take("a"), None);
    assert!(!list.contains("a"));
    assert_eq!(list.keys, vec!["b"]);
    assert_eq!(list.values, vec![2]);
}
