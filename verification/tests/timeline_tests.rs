use logline::events::{Event, EventKind};
use logline::rules::Verdict;
use logline::timeline::Timeline;

fn idea(id: &str) -> Event {
    Event::new(EventKind::IdeaRegistered { id: id.to_string() })
}

#[test]
fn test_timeline_monotonicity() {
    let mut timeline = Timeline::new();
    let mut ids = Vec::new();
    for i in 0..50 {
        let id = timeline.append(idea(&format!("i{}", i))).unwrap();
        ids.push(id);
        let listed = timeline.list_events();
        assert_eq!(listed.len(), i + 1);
        for (k, event) in listed.iter().enumerate() {
            assert_eq!(event.id, ids[k]);
            match &event.kind {
                EventKind::IdeaRegistered { id } => assert_eq!(id, &format!("i{}", k)),
                _ => panic!("wrong kind"),
            }
        }
    }
    for pair in ids.windows(2) {
        assert!(pair[0] < pair[1]);
    }
    assert_eq!(ids[0], 1);
}

#[test]
fn test_append_stamps_and_keeps_the_rest() {
    let mut timeline = Timeline::new();
    let event = Event {
        id: 999,
        timestamp: 1234,
        kind: EventKind::RuleVerdict { rule: "r".to_string(), verdict: Verdict::Rejected },
        channels: vec!["a".to_string(), "b".to_string()],
    };
    assert_eq!(timeline.append(event), Some(1));
    let listed = timeline.list_events();
    assert_eq!(listed[0].id, 1);
    assert_eq!(listed[0].timestamp, 1234);
    assert_eq!(listed[0].channels, vec!["a".to_string(), "b".to_string()]);
    match &listed[0].kind {
        EventKind::RuleVerdict { rule, verdict } => {
            assert_eq!(rule, "r");
            assert_eq!(*verdict, Verdict::Rejected);
        }
        _ => panic!("wrong kind"),
    }
}

#[test]
fn test_find_events_by_kind_is_exact() {
    let mut timeline = Timeline::new();
    timeline.append(idea("a"));
    timeline.append(Event::new(EventKind::ContractRegistered { id: "c".to_string() }));
    timeline.append(idea("b"));
    timeline.append(Event::new(EventKind::ErrorOccurred {
        context: "parsing".to_string(),
        message: "m".to_string(),
    }));
    let ideas = timeline.find_events_by_kind("IdeaRegistered");
    assert_eq!(ideas.len(), 2);
    assert_eq!(ideas[0].id, 1);
    assert_eq!(ideas[1].id, 3);
    assert_eq!(timeline.find_events_by_kind("ideaRegistered").len(), 0);
    assert_eq!(timeline.find_events_by_kind("IdeaRegistere").len(), 0);
    assert_eq!(timeline.find_events_by_kind("ErrorOccurred").len(), 1);
    assert_eq!(timeline.find_events_by_kind("").len(), 0);
}

#[test]
fn test_clear_timeline_keeps_counting() {
    let mut timeline = Timeline::new();
    timeline.append(idea("a"));
    timeline.append(idea("b"));
    timeline.clear_timeline();
    assert_eq!(timeline.list_events().len(), 0);
    assert_eq!(timeline.append(idea("c")), Some(3));
}

#[test]
fn test_timeline_stops_when_identifiers_run_out() {
    let mut timeline = Timeline::new();
    timeline.next_id = u128::MAX - 1;
    assert_eq!(timeline.append(idea("a")), Some(u128::MAX - 1));
    assert_eq!(timeline.append(idea("b")), None);
    assert_eq!(timeline.list_events().len(), 1);
}

#[test]
fn test_new_event_defaults() {
    let event = idea("x");
    assert_eq!(event.channels, vec!["default".to_string()]);
    let other = idea("x");
    assert_ne!(event.id, other.id);
    let moved = event.with_channels(vec!["commands".to_string()]);
    assert_eq!(moved.channels, vec!["commands".to_string()]);
    let copy = moved.duplicate();
    assert_eq!(copy.id, moved.id);
    assert_eq!(copy.timestamp, moved.timestamp);
    assert_eq!(copy.channels, moved.channels);
}

#[test]
fn test_event_kind_names_and_json() {
    let kinds = vec![
        (
            EventKind::RuntimeLifecycle { status: "initialized".to_string() },
            "RuntimeLifecycle",
            "{\"kind\":\"RuntimeLifecycle\",\"status\":\"initialized\"}",
        ),
        (
            EventKind::ImperativeExecuted { kind: "DefineIdea".to_string() },
            "ImperativeExecuted",
            "{\"kind\":\"ImperativeExecuted\",\"imperative\":\"DefineIdea\"}",
        ),
        (
            EventKind::IdeaRegistered { id: "a\"b\\c\n".to_string() },
            "IdeaRegistered",
            "{\"kind\":\"IdeaRegistered\",\"id\":\"a\\\"b\\\\c\\n\"}",
        ),
        (
            EventKind::ContractRegistered { id: "c1".to_string() },
            "ContractRegistered",
            "{\"kind\":\"ContractRegistered\",\"id\":\"c1\"}",
        ),
        (
            EventKind::RuleVerdict { rule: "r".to_string(), verdict: Verdict::Accepted },
            "RuleVerdict",
            "{\"kind\":\"RuleVerdict\",\"rule\":\"r\",\"verdict\":\"Accepted\"}",
        ),
        (
            EventKind::OrchestrationStarted { mode: "parallel".to_string(), concurrency: 8 },
            "OrchestrationStarted",
            "{\"kind\":\"OrchestrationStarted\",\"mode\":\"parallel\",\"concurrency\":8}",
        ),
        (
            EventKind::OrchestrationCompleted {
                mode: "m".to_string(),
                concurrency: 1,
                duration_ms: 1500,
            },
            "OrchestrationCompleted",
            "{\"kind\":\"OrchestrationCompleted\",\"mode\":\"m\",\"concurrency\":1,\"duration_ms\":1500}",
        ),
        (
            EventKind::SimulationCompleted { id: "e".to_string(), rounds: 5 },
            "SimulationCompleted",
            "{\"kind\":\"SimulationCompleted\",\"id\":\"e\",\"rounds\":5}",
        ),
        (
            EventKind::ErrorOccurred { context: "parsing".to_string(), message: "é".to_string() },
            "ErrorOccurred",
            "{\"kind\":\"ErrorOccurred\",\"context\":\"parsing\",\"message\":\"é\"}",
        ),
        (
            EventKind::CommandExecuted { payload: "{\"result\":\"ok\"}".to_string() },
            "command_executed",
            "{\"kind\":\"command_executed\",\"payload\":{\"result\":\"ok\"}}",
        ),
    ];
    for (kind, name, json) in kinds {
        assert_eq!(kind.name(), name);
        assert_eq!(kind.to_json(), json);
        let value: serde_json::Value = serde_json::from_str(&kind.to_json()).unwrap();
        assert_eq!(value.get("kind").unwrap().as_str().unwrap(), name);
        assert_eq!(kind.duplicate().to_json(), json);
    }
}

#[test]
fn test_string_literals_are_escaped() {
    let member = logline::json::text_member("k", "a\"b\\c\n\t\r\u{8}\u{c}\u{0}\u{1}\u{1f} \u{7f}é/");
    assert_eq!(member.name, "k");
    assert_eq!(member.value, "\"a\\\"b\\\\c\\n\\t\\r\\b\\f\\u0000\\u0001\\u001f \u{7f}é/\"");
    assert_eq!(logline::json::text_member("k", "").value, "\"\"");
    assert_eq!(logline::json::text_member("k", "plain text").value, "\"plain text\"");
    assert_eq!(
        logline::json::json_text_array(&vec!["\u{b}".to_string(), "\u{e}\u{10}".to_string()]),
        "[\"\\u000b\",\"\\u000e\\u0010\"]"
    );
}

#[test]
fn test_recorded_events_get_growing_identifiers() {
    let mut timeline = logline::timeline::Timeline::new();
    let first = timeline.record(logline::events::EventKind::RuntimeLifecycle { status: "a".to_string() }).unwrap();
    let second = timeline.record(logline::events::EventKind::IdeaRegistered { id: "i".to_string() }).unwrap();
    let third = timeline.record(logline::events::EventKind::RuntimeLifecycle { status: "b".to_string() }).unwrap();
    assert_eq!((first.id, second.id, third.id), (1, 2, 3));
    assert_eq!(second.kind.name(), "IdeaRegistered");
    assert_eq!(first.channels, vec!["default".to_string()]);
    let listed = timeline.list_events();
    assert_eq!(listed.len(), 3);
    for (i, event) in listed.iter().enumerate() {
        assert_eq!(event.id, i as u128 + 1);
    }
    assert_eq!(listed[2].kind.to_json(), third.kind.to_json());
    assert_eq!(listed[1].timestamp, second.timestamp);
    timeline.clear_timeline();
    assert_eq!(timeline.record(logline::events::EventKind::RuntimeLifecycle { status: "c".to_string() }).unwrap().id, 4);
    timeline.next_id = u128::MAX;
    assert!(timeline.record(logline::events::EventKind::RuntimeLifecycle { status: "d".to_string() }).is_none());
    assert_eq!(timeline.list_events().len(), 1);
}

#[test]
fn test_a_new_runtime_starts_its_identifiers_at_one() {
    let runtime = logline::runtime::Runtime::new("p", 1);
    assert_eq!(runtime.timeline.next_id, 1);
    assert!(runtime.timeline.list_events().is_empty());
    let allowed: Vec<(String, String)> =
        runtime.plugins.allowed_imports.iter().map(|i| (i.module.clone(), i.name.clone())).collect();
    assert_eq!(
        allowed,
        vec![
            ("wasi_snapshot_preview1".to_string(), "environ_sizes_get".to_string()),
            ("wasi_snapshot_preview1".to_string(), "environ_get".to_string()),
        ]
    );
}
