use mutsuki_runtime::election::{ElectionCandidate, ElectionPolicy, PriorityElectionPolicy};
use mutsuki_runtime::event::{EventBook, EventDraft, RuntimeEventKind};
use mutsuki_runtime::failure::{
    backend_failed, operation_not_active_failure, plugin_disabled_failure,
    plugin_generation_mismatch_failure, plugin_not_found_failure, scope_no_match_error,
    scope_no_match_failure, source_unregistered_failure, RuntimeError, RuntimeFailure,
    ScalarValue, ERR_PLUGIN_DISABLED, ERR_PLUGIN_NOT_FOUND, ERR_RUNTIME_BACKEND_FAILED,
    ERR_RUNTIME_BACKEND_GENERATION_MISMATCH, ERR_SCOPE_NO_MATCH, ERR_SOURCE_UNREGISTERED,
};
use mutsuki_runtime::trace::{validate_trace_closure, SpanStatus, TraceBook, TraceClosureIssue, TraceSpan};

fn candidate(agent_id: &str, priority: i64) -> ElectionCandidate {
    ElectionCandidate {
        agent_id: agent_id.into(),
        priority,
    }
}

fn evidence(error: &RuntimeError, key: &str) -> Option<ScalarValue> {
    error
        .evidence
        .iter()
        .find(|(k, _)| k == key)
        .map(|(_, v)| v.clone())
}

#[test]
fn trace_closure_helper_reports_expected_issues() {
    let spans = vec![
        TraceSpan {
            trace_id: "trace-a".into(),
            span_id: "span-1".into(),
            parent_span_id: None,
            name: "root".into(),
            start: 1,
            end: Some(2),
            attributes: Vec::new(),
            status: SpanStatus::Success,
        },
        TraceSpan {
            trace_id: "trace-a".into(),
            span_id: "span-1".into(),
            parent_span_id: None,
            name: "dupe".into(),
            start: 3,
            end: Some(2),
            attributes: Vec::new(),
            status: SpanStatus::Success,
        },
        TraceSpan {
            trace_id: "trace-b".into(),
            span_id: "span-2".into(),
            parent_span_id: Some("span-1".into()),
            name: "wrong-trace".into(),
            start: 1,
            end: Some(1),
            attributes: Vec::new(),
            status: SpanStatus::Success,
        },
        TraceSpan {
            trace_id: "trace-a".into(),
            span_id: "span-3".into(),
            parent_span_id: Some("missing".into()),
            name: "missing-parent".into(),
            start: 1,
            end: Some(1),
            attributes: Vec::new(),
            status: SpanStatus::Success,
        },
    ];

    let issues = validate_trace_closure(&spans);
    assert!(issues.contains(&TraceClosureIssue::DuplicateSpanId {
        span_id: "span-1".into()
    }));
    assert!(issues.contains(&TraceClosureIssue::InvalidInterval {
        span_id: "span-1".into()
    }));
    assert!(issues.contains(&TraceClosureIssue::ParentTraceMismatch {
        span_id: "span-2".into(),
        parent_span_id: "span-1".into()
    }));
    assert!(issues.contains(&TraceClosureIssue::MissingParent {
        span_id: "span-3".into(),
        parent_span_id: "missing".into()
    }));
}

#[test]
fn trace_closure_issues_come_in_span_order_own_issues_first() {
    let mut book = TraceBook::new();
    let root = book.record("agent-a", "root".into(), None, SpanStatus::Success);
    book.record("agent-a", "child".into(), Some(root.span_id.clone()), SpanStatus::Error);
    assert!(validate_trace_closure(book.spans()).is_empty());

    let mut spans = book.spans().to_vec();
    spans[1].parent_span_id = Some("span-9".into());
    spans[0].end = Some(0);
    assert_eq!(
        validate_trace_closure(&spans),
        vec![
            TraceClosureIssue::InvalidInterval { span_id: "span-1".into() },
            TraceClosureIssue::MissingParent {
                span_id: "span-2".into(),
                parent_span_id: "span-9".into()
            },
        ]
    );
}

#[test]
fn trace_book_numbers_spans_per_agent_trace() {
    let mut book = TraceBook::new();
    for expected in 1..=12u64 {
        let span = book.record("agent-7", format!("step-{expected}"), None, SpanStatus::Success);
        assert_eq!(span.span_id, format!("span-{expected}"));
        assert_eq!(span.trace_id, "trace-agent-7");
        assert_eq!(span.start, expected);
        assert_eq!(span.end, Some(expected));
        assert_eq!(
            span.attributes,
            vec![("agent_id".to_string(), ScalarValue::String("agent-7".into()))]
        );
    }
    assert_eq!(book.spans().len(), 12);
    assert_eq!(book.spans()[9].span_id, "span-10");
}

#[test]
fn priority_policy_picks_highest_priority_then_smallest_id() {
    let policy = PriorityElectionPolicy;
    assert_eq!(policy.select(&[]), None);
    assert_eq!(
        policy.select(&[candidate("agent-b", 1), candidate("agent-a", 1)]),
        Some("agent-a".into())
    );
    assert_eq!(
        policy.select(&[candidate("agent-a", 10), candidate("agent-b", 1)]),
        Some("agent-a".into())
    );
    assert_eq!(
        policy.select(&[candidate("agent-z", -1), candidate("agent-y", 3), candidate("agent-x", 3)]),
        Some("agent-x".into())
    );
    assert_eq!(
        policy.select(&[candidate("b", 0), candidate("ab", 0), candidate("abc", 0)]),
        Some("ab".into())
    );
}

#[test]
fn event_numbers_increase_and_continue_after_drain() {
    let mut book = EventBook::new();
    let first = book.record(RuntimeEventKind::Lifecycle, "agent.awake".into(), Some("agent-a".into()), Vec::new(), None);
    let second = book.record(RuntimeEventKind::Routing, "runtime.publish".into(), None, Vec::new(), None);
    assert_eq!(first.sequence, 1);
    assert_eq!(second.sequence, 2);
    assert_eq!(book.events().len(), 2);
    assert_eq!(book.events()[1], second);

    let drained = book.drain();
    assert_eq!(drained.len(), 2);
    assert!(book.events().is_empty());
    let third = book.record(RuntimeEventKind::Operation, "operation.invoke".into(), None, Vec::new(), Some(backend_failed("p", "r")));
    assert!(third.sequence > drained.last().unwrap().sequence);
    assert_eq!(third.sequence, 3);
}

#[test]
fn drafts_are_numbered_after_the_recorded_events() {
    let mut book = EventBook::new();
    book.record(RuntimeEventKind::Lifecycle, "agent.awake".into(), None, Vec::new(), None);
    let drafts = vec![
        EventDraft {
            kind: RuntimeEventKind::Trace,
            name: "span".into(),
            agent_id: None,
            attributes: vec![("k".into(), ScalarValue::Int(4))],
            error: None,
        },
        EventDraft {
            kind: RuntimeEventKind::Host,
            name: "host".into(),
            agent_id: Some("agent-a".into()),
            attributes: Vec::new(),
            error: None,
        },
    ];
    let snapshot = book.snapshot_with_drafts(&drafts);
    assert_eq!(
        snapshot.iter().map(|e| e.sequence).collect::<Vec<_>>(),
        vec![1, 2, 3]
    );
    assert_eq!(book.events().len(), 1);
    book.append_drafts(drafts);
    assert_eq!(book.events().to_vec(), snapshot);
    let next = book.record(RuntimeEventKind::Routing, "again".into(), None, Vec::new(), None);
    assert_eq!(next.sequence, 4);
}

#[test]
fn runtime_failures_carry_codes_routes_and_evidence() {
    let error = scope_no_match_error();
    assert_eq!(error.code, ERR_SCOPE_NO_MATCH);
    assert_eq!(error.code, "runtime.scope_no_match");
    assert_eq!(error.source, "runtime.route");
    assert_eq!(error.route, "runtime.publish");
    let failure = RuntimeFailure::new(error.clone());
    assert_eq!(failure.error(), &error);

    let failure = operation_not_active_failure("plugin-a", "Unhealthy", "agent-a", "test.noop");
    assert_eq!(failure.error().code, ERR_RUNTIME_BACKEND_FAILED);
    assert_eq!(failure.error().source, "plugin-a");
    assert_eq!(failure.error().route, "runtime.invoke.agent-a.test.noop");
    assert_eq!(
        evidence(failure.error(), "operation_status"),
        Some(ScalarValue::String("Unhealthy".into()))
    );

    let failure = source_unregistered_failure("source:unknown");
    assert_eq!(failure.error().code, ERR_SOURCE_UNREGISTERED);
    assert_eq!(failure.error().route, "runtime.publish.source:unknown");
    assert_eq!(
        evidence(failure.error(), "source_id"),
        Some(ScalarValue::String("source:unknown".into()))
    );

    let failure = scope_no_match_failure("source:test", "other.input");
    assert_eq!(failure.error().code, ERR_SCOPE_NO_MATCH);
    assert_eq!(failure.error().route, "runtime.publish.source:test");
    assert_eq!(
        evidence(failure.error(), "payload_schema_id"),
        Some(ScalarValue::String("other.input".into()))
    );

    assert_eq!(plugin_disabled_failure("plugin-a", "route").error().code, ERR_PLUGIN_DISABLED);
    assert_eq!(plugin_not_found_failure("plugin-a", "route").error().code, ERR_PLUGIN_NOT_FOUND);
    let failure = plugin_generation_mismatch_failure("plugin-a", 3, 4, "route");
    assert_eq!(failure.error().code, ERR_RUNTIME_BACKEND_GENERATION_MISMATCH);
    assert_eq!(evidence(failure.error(), "expected_generation"), Some(ScalarValue::Int(3)));
    assert_eq!(evidence(failure.error(), "actual_generation"), Some(ScalarValue::Int(4)));
    assert_eq!(
        evidence(failure.error(), "plugin_id"),
        Some(ScalarValue::String("plugin-a".into()))
    );
}

#[test]
fn evidence_insert_replaces_an_existing_key() {
    let mut error = RuntimeError::new("code", "source", "route");
    error.insert_evidence("a".into(), ScalarValue::Int(1));
    error.insert_evidence("b".into(), ScalarValue::Bool(true));
    error.insert_evidence("a".into(), ScalarValue::Int(2));
    assert_eq!(
        error.evidence,
        vec![
            ("a".to_string(), ScalarValue::Int(2)),
            ("b".to_string(), ScalarValue::Bool(true)),
        ]
    );
}

#[test]
fn priority_policy_answer_does_not_depend_on_candidate_order() {
    let policy = PriorityElectionPolicy;
    let candidates = vec![
        candidate("agent-c", 2),
        candidate("agent-a", 5),
        candidate("agent-b", 5),
        candidate("agent-d", -3),
    ];
    let mut reversed = candidates.clone();
    reversed.reverse();
    let mut rotated = candidates.clone();
    rotated.rotate_left(2);
    assert_eq!(policy.select(&candidates), Some("agent-a".into()));
    assert_eq!(policy.select(&reversed), Some("agent-a".into()));
    assert_eq!(policy.select(&rotated), Some("agent-a".into()));
}

#[test]
fn recorded_spans_pass_the_closure_check() {
    let mut book = TraceBook::new();
    let first = book.record("agent-a", "agent.awake".into(), None, SpanStatus::Success);
    book.record("agent-a", "agent.input".into(), Some(first.span_id.clone()), SpanStatus::Success);
    book.record("agent-b", "agent.awake".into(), None, SpanStatus::Error);
    assert!(validate_trace_closure(book.spans()).is_empty());

    let mut orphan = TraceBook::new();
    orphan.record("agent-a", "agent.input".into(), Some("span-9".into()), SpanStatus::Success);
    assert_eq!(
        validate_trace_closure(orphan.spans()),
        vec![TraceClosureIssue::MissingParent { span_id: "span-1".into(), parent_span_id: "span-9".into() }]
    );
}

#[test]
fn each_repeated_span_id_is_reported_once_per_repeat() {
    let span = |id: &str| TraceSpan {
        trace_id: "trace-a".into(),
        span_id: id.into(),
        parent_span_id: None,
        name: "step".into(),
        start: 1,
        end: Some(1),
        attributes: Vec::new(),
        status: SpanStatus::Success,
    };
    let spans = vec![span("a"), span("a"), span("b"), span("a"), span("b")];
    let issues = validate_trace_closure(&spans);
    let duplicates = issues
        .iter()
        .filter(|issue| matches!(issue, TraceClosureIssue::DuplicateSpanId { .. }))
        .count();
    assert_eq!(duplicates, spans.len() - 2);
    assert_eq!(issues.len(), 3);
}
