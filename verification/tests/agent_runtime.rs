use std::cell::RefCell;

use mutsuki_runtime::agent::{
    AgentParticipation, AgentPhase, AgentSpec, Envelope, OperationSnapshot, OperationStatus,
    RuntimeBackend, ScopeRuleSpec, SourceDescriptor, SourceRef, SourceSnapshot, StrategyResult,
    StrategyResultStatus,
};
use mutsuki_runtime::election::{ElectionCandidate, ElectionPolicy};
use mutsuki_runtime::event::{RuntimeEvent, RuntimeEventKind};
use mutsuki_runtime::failure::{
    backend_failed, RuntimeFailure, ScalarValue, ERR_AGENT_ALREADY_REGISTERED,
    ERR_AGENT_NOT_AWAKE, ERR_AGENT_NOT_FOUND, ERR_RUNTIME_BACKEND_FAILED, ERR_SCOPE_NO_MATCH,
    ERR_SOURCE_UNREGISTERED,
};
use mutsuki_runtime::runtime::AgentRuntime;
use mutsuki_runtime::trace::{validate_trace_closure, SpanStatus};

struct TestBackend {
    fail_awake: bool,
    fail_list_operations: bool,
    fail_list_sources: bool,
    fail_input: bool,
    fail_next_step: bool,
    fail_stop: bool,
    input_result_error: bool,
    awake: usize,
    stopped: usize,
    inputs: usize,
    operations: Vec<OperationSnapshot>,
    sources: Vec<SourceSnapshot>,
}

fn source_snapshot(source_id: &str) -> SourceSnapshot {
    SourceSnapshot {
        plugin_id: "plugin-test".into(),
        descriptor: SourceDescriptor {
            source_id: source_id.into(),
            kind: "test".into(),
        },
    }
}

fn operation_snapshot(op_id: &str, status: OperationStatus) -> OperationSnapshot {
    OperationSnapshot {
        plugin_id: "plugin-test".into(),
        op_id: op_id.into(),
        status,
    }
}

fn backend() -> TestBackend {
    TestBackend {
        fail_awake: false,
        fail_list_operations: false,
        fail_list_sources: false,
        fail_input: false,
        fail_next_step: false,
        fail_stop: false,
        input_result_error: false,
        awake: 0,
        stopped: 0,
        inputs: 0,
        operations: Vec::new(),
        sources: vec![source_snapshot("source:default"), source_snapshot("source:test")],
    }
}

fn failure(route: &str) -> RuntimeFailure {
    RuntimeFailure::new(backend_failed("test-backend", route))
}

impl RuntimeBackend for TestBackend {
    fn awake(&mut self, _agent: &AgentSpec) -> Result<(), RuntimeFailure> {
        if self.fail_awake {
            return Err(failure("test.awake"));
        }
        self.awake += 1;
        Ok(())
    }

    fn list_operations(&mut self, _agent_id: &str) -> Result<Vec<OperationSnapshot>, RuntimeFailure> {
        if self.fail_list_operations {
            return Err(failure("test.list_operations"));
        }
        Ok(self.operations.clone())
    }

    fn list_sources(&mut self, _agent_id: &str) -> Result<Vec<SourceSnapshot>, RuntimeFailure> {
        if self.fail_list_sources {
            return Err(failure("test.list_sources"));
        }
        Ok(self.sources.clone())
    }

    fn input(&mut self, _agent_id: &str, _envelope: Envelope) -> Result<StrategyResult, RuntimeFailure> {
        if self.fail_input {
            return Err(failure("test.input"));
        }
        self.inputs += 1;
        if self.input_result_error {
            return Ok(StrategyResult {
                status: StrategyResultStatus::Failed,
                error: Some(backend_failed("test-strategy", "test.input")),
            });
        }
        Ok(StrategyResult {
            status: StrategyResultStatus::Completed,
            error: None,
        })
    }

    fn next_step(&mut self, _agent_id: &str) -> Result<StrategyResult, RuntimeFailure> {
        if self.fail_next_step {
            return Err(failure("test.next_step"));
        }
        Ok(StrategyResult {
            status: StrategyResultStatus::WaitInput,
            error: None,
        })
    }

    fn stop(&mut self, _agent_id: &str) -> Result<(), RuntimeFailure> {
        if self.fail_stop {
            return Err(failure("test.stop"));
        }
        self.stopped += 1;
        Ok(())
    }
}

fn agent(agent_id: &str, priority: i64) -> AgentSpec {
    AgentSpec {
        agent_id: agent_id.into(),
        priority,
        participation: AgentParticipation::PrimaryCandidate,
        accepts: vec![ScopeRuleSpec::BySchema {
            schema_id: "test.input".into(),
        }],
        strategy_id: "strategy.test".into(),
    }
}

fn envelope() -> Envelope {
    Envelope {
        id: "envelope-1".into(),
        source: SourceRef {
            source_id: "source:test".into(),
            kind: "test".into(),
        },
        payload_schema_id: "test.input".into(),
        payload: serde_json::Value::Null,
    }
}

fn attribute<'a>(event: &'a RuntimeEvent, key: &str) -> Option<&'a ScalarValue> {
    event
        .attributes
        .iter()
        .find(|(k, _)| k == key)
        .map(|(_, v)| v)
}

fn text(value: &str) -> ScalarValue {
    ScalarValue::String(value.into())
}

#[test]
fn runtime_selects_primary_candidate_by_priority_then_id() {
    let mut runtime = AgentRuntime::new();
    let mut backend = backend();
    runtime.register_agent(agent("agent-b", 1)).unwrap();
    runtime.register_agent(agent("agent-a", 1)).unwrap();
    runtime.start_agent("agent-a", &mut backend).unwrap();
    runtime.start_agent("agent-b", &mut backend).unwrap();

    assert_eq!(runtime.select_accepting(&envelope()), Some("agent-a".into()));
}

#[test]
fn runtime_select_accepting_ignores_unregistered_source() {
    let mut runtime = AgentRuntime::new();
    let mut backend = backend();
    runtime.register_agent(agent("agent-a", 0)).unwrap();
    runtime.start_agent("agent-a", &mut backend).unwrap();

    let mut unknown = envelope();
    unknown.source.source_id = "source:unknown".into();

    assert_eq!(runtime.select_accepting(&unknown), None);
}

#[test]
fn custom_election_policy_only_sees_prefiltered_candidates() {
    struct PreferB<'a> {
        seen: &'a RefCell<Vec<ElectionCandidate>>,
    }

    impl ElectionPolicy for PreferB<'_> {
        fn select(&self, candidates: &[ElectionCandidate]) -> Option<String> {
            self.seen.borrow_mut().extend_from_slice(candidates);
            candidates
                .iter()
                .find(|candidate| candidate.agent_id == "agent-b")
                .map(|candidate| candidate.agent_id.clone())
                .or_else(|| Some("sleeping-agent".into()))
        }
    }

    let mut runtime = AgentRuntime::new();
    let mut backend = backend();
    runtime.register_agent(agent("agent-a", 10)).unwrap();
    runtime.register_agent(agent("agent-b", 1)).unwrap();

    let mut observer = agent("observer-agent", 99);
    observer.participation = AgentParticipation::Observer;
    runtime.register_agent(observer).unwrap();

    let mut helper = agent("helper-agent", 98);
    helper.participation = AgentParticipation::ExplicitHelper;
    runtime.register_agent(helper).unwrap();

    let mut empty_accepts = agent("empty-accepts-agent", 97);
    empty_accepts.accepts.clear();
    runtime.register_agent(empty_accepts).unwrap();

    let mut no_match = agent("no-match-agent", 96);
    no_match.accepts = vec![ScopeRuleSpec::BySchemaPrefix {
        prefix: "other.".into(),
    }];
    runtime.register_agent(no_match).unwrap();

    runtime.register_agent(agent("sleeping-agent", 95)).unwrap();
    runtime.register_agent(agent("stopped-agent", 94)).unwrap();

    for agent_id in [
        "agent-a",
        "agent-b",
        "observer-agent",
        "helper-agent",
        "empty-accepts-agent",
        "no-match-agent",
        "stopped-agent",
    ] {
        runtime.start_agent(agent_id, &mut backend).unwrap();
    }
    runtime.stop_agent("stopped-agent", &mut backend).unwrap();

    let seen = RefCell::new(Vec::new());
    let policy = PreferB { seen: &seen };

    assert_eq!(runtime.select_accepting(&envelope()), Some("agent-a".into()));
    assert_eq!(
        runtime.select_accepting_with_policy(&envelope(), &policy),
        Some("agent-b".into())
    );

    let mut seen_snapshot = seen.borrow().clone();
    seen_snapshot.sort_by(|a, b| a.agent_id.cmp(&b.agent_id));
    assert_eq!(
        seen_snapshot,
        vec![
            ElectionCandidate {
                agent_id: "agent-a".into(),
                priority: 10
            },
            ElectionCandidate {
                agent_id: "agent-b".into(),
                priority: 1
            }
        ]
    );

    runtime.stop_agent("agent-b", &mut backend).unwrap();
    assert_eq!(runtime.select_accepting_with_policy(&envelope(), &policy), None);
}

#[test]
fn election_policy_is_not_called_when_prefiltered_candidates_are_empty() {
    struct ShouldNotRun;

    impl ElectionPolicy for ShouldNotRun {
        fn select(&self, _candidates: &[ElectionCandidate]) -> Option<String> {
            panic!("policy must not run without prefiltered candidates");
        }
    }

    let mut runtime = AgentRuntime::new();
    let mut backend = backend();
    let mut agent = agent("agent-a", 0);
    agent.accepts.clear();
    runtime.register_agent(agent).unwrap();
    runtime.start_agent("agent-a", &mut backend).unwrap();

    assert_eq!(runtime.select_accepting_with_policy(&envelope(), &ShouldNotRun), None);
}

#[test]
fn failed_operation_refresh_does_not_commit_agent_to_routing() {
    let mut runtime = AgentRuntime::new();
    let mut backend = TestBackend {
        fail_list_operations: true,
        ..backend()
    };
    backend
        .operations
        .push(operation_snapshot("test.noop", OperationStatus::Active));
    runtime.register_agent(agent("agent-a", 0)).unwrap();

    let err = runtime.start_agent("agent-a", &mut backend).unwrap_err();
    assert_eq!(err.error().code, ERR_RUNTIME_BACKEND_FAILED);
    assert_eq!(runtime.phase("agent-a"), Some(&AgentPhase::Spawn));
    let publish_err = runtime.publish(envelope()).unwrap_err();
    assert_eq!(publish_err.error().code, ERR_SOURCE_UNREGISTERED);
    assert_eq!(runtime.inbox_len("agent-a"), Some(0));
    assert!(runtime.operation_snapshot("agent-a", "test.noop").is_none());
    assert!(runtime
        .trace_spans()
        .iter()
        .any(|span| span.name == "agent.awake" && span.status == SpanStatus::Error));
}

#[test]
fn failed_source_refresh_does_not_commit_operation_or_source_registry() {
    let mut runtime = AgentRuntime::new();
    let mut backend = backend();
    backend.fail_list_sources = true;
    backend
        .operations
        .push(operation_snapshot("test.noop", OperationStatus::Active));
    runtime.register_agent(agent("agent-a", 0)).unwrap();

    let err = runtime.start_agent("agent-a", &mut backend).unwrap_err();
    assert_eq!(err.error().code, ERR_RUNTIME_BACKEND_FAILED);
    assert_eq!(runtime.phase("agent-a"), Some(&AgentPhase::Spawn));
    assert!(runtime.operation_snapshot("agent-a", "test.noop").is_none());
    assert!(runtime.source_snapshots("agent-a").unwrap().is_empty());
}

#[test]
fn runtime_routes_and_ticks_agent_input() {
    let mut runtime = AgentRuntime::new();
    let mut backend = backend();
    runtime.register_agent(agent("agent-a", 0)).unwrap();
    runtime.start_agent("agent-a", &mut backend).unwrap();
    assert_eq!(
        runtime.source_snapshots("agent-a").unwrap()[0]
            .descriptor
            .source_id,
        "source:default"
    );

    let matched = runtime.publish(envelope()).unwrap();
    assert_eq!(matched, vec!["agent-a".to_string()]);
    assert_eq!(runtime.inbox_len("agent-a"), Some(1));

    let result = runtime.tick_once("agent-a", &mut backend).unwrap();
    assert_eq!(result.status, StrategyResultStatus::Completed);
    assert_eq!(backend.inputs, 1);
    assert!(runtime.trace_spans().iter().any(|s| s.name == "agent.input"));
    let input_span = runtime
        .trace_spans()
        .iter()
        .find(|span| span.name == "agent.input")
        .unwrap();
    let strategy_span = runtime
        .trace_spans()
        .iter()
        .find(|span| span.name == "agent.strategy")
        .unwrap();
    assert_eq!(
        strategy_span.parent_span_id.as_deref(),
        Some(input_span.span_id.as_str())
    );
}

#[test]
fn runtime_records_input_backend_failure_as_error_event() {
    let mut runtime = AgentRuntime::new();
    let mut backend = TestBackend {
        fail_input: true,
        ..backend()
    };
    runtime.register_agent(agent("agent-a", 0)).unwrap();
    runtime.start_agent("agent-a", &mut backend).unwrap();
    runtime.publish(envelope()).unwrap();

    let err = runtime.tick_once("agent-a", &mut backend).unwrap_err();

    assert_eq!(err.error().code, ERR_RUNTIME_BACKEND_FAILED);
    let events = runtime.events();
    assert!(!events.iter().any(|event| event.name == "agent.input"));
    let event = events
        .iter()
        .find(|event| event.name == "agent.input.error")
        .unwrap();
    assert_eq!(event.error.as_ref().unwrap().code, ERR_RUNTIME_BACKEND_FAILED);
    assert!(runtime
        .trace_spans()
        .iter()
        .any(|span| span.name == "agent.strategy" && span.status == SpanStatus::Error));
}

#[test]
fn runtime_records_next_step_backend_failure_as_error_event() {
    let mut runtime = AgentRuntime::new();
    let mut backend = TestBackend {
        fail_next_step: true,
        ..backend()
    };
    runtime.register_agent(agent("agent-a", 0)).unwrap();
    runtime.start_agent("agent-a", &mut backend).unwrap();

    let err = runtime.tick_once("agent-a", &mut backend).unwrap_err();

    assert_eq!(err.error().code, ERR_RUNTIME_BACKEND_FAILED);
    let events = runtime.events();
    assert!(!events.iter().any(|event| event.name == "agent.next_step"));
    let event = events
        .iter()
        .find(|event| event.name == "agent.next_step.error")
        .unwrap();
    assert_eq!(event.error.as_ref().unwrap().code, ERR_RUNTIME_BACKEND_FAILED);
    assert!(runtime
        .trace_spans()
        .iter()
        .any(|span| span.name == "agent.strategy" && span.status == SpanStatus::Error));
}

#[test]
fn runtime_records_strategy_result_error_as_error_event_without_changing_return() {
    let mut runtime = AgentRuntime::new();
    let mut backend = TestBackend {
        input_result_error: true,
        ..backend()
    };
    runtime.register_agent(agent("agent-a", 0)).unwrap();
    runtime.start_agent("agent-a", &mut backend).unwrap();
    runtime.publish(envelope()).unwrap();

    let result = runtime.tick_once("agent-a", &mut backend).unwrap();

    assert_eq!(result.status, StrategyResultStatus::Failed);
    assert_eq!(result.error.as_ref().unwrap().code, ERR_RUNTIME_BACKEND_FAILED);
    let events = runtime.events();
    assert!(!events.iter().any(|event| event.name == "agent.input"));
    let event = events
        .iter()
        .find(|event| event.name == "agent.input.error")
        .unwrap();
    assert_eq!(event.error.as_ref().unwrap().code, ERR_RUNTIME_BACKEND_FAILED);
    assert!(runtime
        .trace_spans()
        .iter()
        .any(|span| span.name == "agent.strategy" && span.status == SpanStatus::Error));
}

#[test]
fn runtime_records_successful_idle_tick_as_next_step_event() {
    let mut runtime = AgentRuntime::new();
    let mut backend = backend();
    runtime.register_agent(agent("agent-a", 0)).unwrap();
    runtime.start_agent("agent-a", &mut backend).unwrap();

    let result = runtime.tick_once("agent-a", &mut backend).unwrap();

    assert_eq!(result.status, StrategyResultStatus::WaitInput);
    let events = runtime.events();
    assert!(events.iter().any(|event| event.name == "agent.next_step"));
    assert!(!events.iter().any(|event| event.name == "agent.next_step.error"));
}

#[test]
fn runtime_records_stop_backend_failure_as_error_event() {
    let mut runtime = AgentRuntime::new();
    let mut backend = TestBackend {
        fail_stop: true,
        ..backend()
    };
    runtime.register_agent(agent("agent-a", 0)).unwrap();
    runtime.start_agent("agent-a", &mut backend).unwrap();

    let err = runtime.stop_agent("agent-a", &mut backend).unwrap_err();

    assert_eq!(err.error().code, ERR_RUNTIME_BACKEND_FAILED);
    assert_eq!(runtime.phase("agent-a"), Some(&AgentPhase::Sleep));
    assert_eq!(backend.stopped, 0);
    let events = runtime.events();
    assert!(events.iter().any(|event| event.name == "agent.sleep"));
    assert!(!events.iter().any(|event| event.name == "agent.stop"));
    let event = events
        .iter()
        .find(|event| event.name == "agent.stop.error")
        .unwrap();
    assert_eq!(event.kind, RuntimeEventKind::Lifecycle);
    assert_eq!(event.error.as_ref().unwrap().code, ERR_RUNTIME_BACKEND_FAILED);
    assert!(runtime
        .trace_spans()
        .iter()
        .any(|span| span.name == "agent.stop" && span.status == SpanStatus::Error));
}

#[test]
fn runtime_rejects_unregistered_source_before_routing() {
    let mut runtime = AgentRuntime::new();
    let mut backend = backend();
    runtime.register_agent(agent("agent-a", 0)).unwrap();
    runtime.start_agent("agent-a", &mut backend).unwrap();

    let mut unknown = envelope();
    unknown.source.source_id = "source:unknown".into();

    let err = runtime.publish(unknown).unwrap_err();
    assert_eq!(err.error().code, ERR_SOURCE_UNREGISTERED);
    assert_eq!(runtime.inbox_len("agent-a"), Some(0));
}

#[test]
fn runtime_returns_scope_no_match_for_registered_source_without_accepting_agent() {
    let mut runtime = AgentRuntime::new();
    let mut backend = backend();
    runtime.register_agent(agent("agent-a", 0)).unwrap();
    runtime.start_agent("agent-a", &mut backend).unwrap();

    let mut unmatched = envelope();
    unmatched.payload_schema_id = "other.input".into();

    let err = runtime.publish(unmatched).unwrap_err();
    assert_eq!(err.error().code, ERR_SCOPE_NO_MATCH);
    assert_eq!(runtime.inbox_len("agent-a"), Some(0));
}

#[test]
fn runtime_reports_agent_snapshots() {
    let mut runtime = AgentRuntime::new();
    let mut backend = backend();
    runtime.register_agent(agent("agent-a", 0)).unwrap();
    runtime.start_agent("agent-a", &mut backend).unwrap();
    runtime.publish(envelope()).unwrap();

    let snapshots = runtime.agent_snapshots();
    assert_eq!(snapshots.len(), 1);
    assert_eq!(snapshots[0].spec.agent_id, "agent-a");
    assert_eq!(snapshots[0].phase, AgentPhase::Awake);
    assert_eq!(snapshots[0].inbox_len, 1);
}

#[test]
fn runtime_native_backend_smoke_without_external_plugin_host() {
    let mut runtime = AgentRuntime::new();
    let mut backend = backend();
    runtime.register_agent(agent("native-agent", 0)).unwrap();
    runtime.start_agent("native-agent", &mut backend).unwrap();
    let result = runtime.tick_once("native-agent", &mut backend).unwrap();
    assert_eq!(result.status, StrategyResultStatus::WaitInput);
    runtime.stop_agent("native-agent", &mut backend).unwrap();
    assert_eq!(runtime.phase("native-agent"), Some(&AgentPhase::Stop));
    assert_eq!(backend.awake, 1);
    assert_eq!(backend.stopped, 1);
}

#[test]
fn failed_awake_does_not_commit_agent_to_routing() {
    let mut runtime = AgentRuntime::new();
    let mut backend = TestBackend {
        fail_awake: true,
        ..backend()
    };
    runtime.register_agent(agent("agent-a", 0)).unwrap();

    let err = runtime.start_agent("agent-a", &mut backend).unwrap_err();
    assert_eq!(err.error().code, ERR_RUNTIME_BACKEND_FAILED);
    assert_eq!(runtime.phase("agent-a"), Some(&AgentPhase::Spawn));
    let publish_err = runtime.publish(envelope()).unwrap_err();
    assert_eq!(publish_err.error().code, ERR_SOURCE_UNREGISTERED);
    assert_eq!(runtime.inbox_len("agent-a"), Some(0));
    assert!(runtime
        .trace_spans()
        .iter()
        .any(|span| span.name == "agent.awake" && span.status == SpanStatus::Error));
}

#[test]
fn runtime_event_sequence_continues_after_drain() {
    let mut runtime = AgentRuntime::new();
    let mut backend = backend();
    runtime.register_agent(agent("agent-a", 0)).unwrap();
    runtime.start_agent("agent-a", &mut backend).unwrap();

    let drained = runtime.drain_events();
    let last_sequence = drained.last().unwrap().sequence;
    runtime.publish(envelope()).unwrap();

    let events = runtime.events();
    assert!(events[0].sequence > last_sequence);
}

#[test]
fn runtime_emits_trace_span_events_with_span_shape() {
    let mut runtime = AgentRuntime::new();
    let mut backend = backend();
    runtime.register_agent(agent("agent-a", 0)).unwrap();
    runtime.start_agent("agent-a", &mut backend).unwrap();

    let events = runtime.events();
    let trace_index = events
        .iter()
        .position(|event| {
            event.kind == RuntimeEventKind::Trace
                && event.name == "trace.span"
                && attribute(event, "span_name") == Some(&text("agent.awake"))
        })
        .unwrap();
    let awake_index = events
        .iter()
        .position(|event| event.name == "agent.awake")
        .unwrap();
    let event = &events[trace_index];

    assert!(trace_index < awake_index);
    assert_eq!(event.agent_id.as_deref(), Some("agent-a"));
    assert!(event.error.is_none());
    assert_eq!(attribute(event, "trace_id"), Some(&text("trace-agent-a")));
    assert!(attribute(event, "span_id").is_some());
    assert_eq!(attribute(event, "status"), Some(&text("ok")));
}

#[test]
fn runtime_trace_events_for_unregistered_source_are_not_agent_scoped() {
    let mut runtime = AgentRuntime::new();
    let mut backend = backend();
    runtime.register_agent(agent("agent-a", 0)).unwrap();
    runtime.start_agent("agent-a", &mut backend).unwrap();

    let mut unknown = envelope();
    unknown.source.source_id = "source:unknown".into();
    runtime.publish(unknown).unwrap_err();

    let events = runtime.events();
    let event = events
        .iter()
        .find(|event| {
            event.kind == RuntimeEventKind::Trace
                && event.name == "trace.span"
                && attribute(event, "span_name") == Some(&text("runtime.source_unregistered"))
        })
        .unwrap();
    assert_eq!(event.agent_id, None);
    assert_eq!(attribute(event, "trace_id"), Some(&text("trace-runtime")));
}

#[test]
fn runtime_trace_events_for_scope_no_match_are_not_agent_scoped() {
    let mut runtime = AgentRuntime::new();
    let mut backend = backend();
    runtime.register_agent(agent("agent-a", 0)).unwrap();
    runtime.start_agent("agent-a", &mut backend).unwrap();

    let mut unmatched = envelope();
    unmatched.payload_schema_id = "other.input".into();
    runtime.publish(unmatched).unwrap_err();

    let events = runtime.events();
    let event = events
        .iter()
        .find(|event| {
            event.kind == RuntimeEventKind::Trace
                && event.name == "trace.span"
                && attribute(event, "span_name") == Some(&text("runtime.scope_no_match"))
        })
        .unwrap();
    assert_eq!(event.agent_id, None);
    assert_eq!(attribute(event, "trace_id"), Some(&text("trace-runtime")));
}

#[test]
fn runtime_emits_structured_routing_error_events() {
    let mut runtime = AgentRuntime::new();
    let mut backend = backend();
    runtime.register_agent(agent("agent-a", 0)).unwrap();
    runtime.start_agent("agent-a", &mut backend).unwrap();

    let mut unknown = envelope();
    unknown.source.source_id = "source:unknown".into();
    let err = runtime.publish(unknown).unwrap_err();
    assert_eq!(err.error().code, ERR_SOURCE_UNREGISTERED);

    let events = runtime.events();
    let event = events
        .iter()
        .find(|event| event.name == "runtime.source_unregistered")
        .unwrap();
    assert_eq!(event.kind, RuntimeEventKind::Routing);
    assert_eq!(event.error.as_ref().unwrap().code, ERR_SOURCE_UNREGISTERED);
}

#[test]
fn registering_an_agent_twice_is_refused() {
    let mut runtime = AgentRuntime::new();
    runtime.register_agent(agent("agent-a", 0)).unwrap();
    let err = runtime.register_agent(agent("agent-a", 5)).unwrap_err();
    assert_eq!(err.error().code, ERR_AGENT_ALREADY_REGISTERED);
    assert_eq!(runtime.agent_snapshots().len(), 1);
    assert_eq!(runtime.agent_snapshots()[0].spec.priority, 0);
}

#[test]
fn unknown_agents_and_sleeping_agents_are_refused() {
    let mut runtime = AgentRuntime::new();
    let mut backend = backend();
    assert_eq!(
        runtime.start_agent("ghost", &mut backend).unwrap_err().error().code,
        ERR_AGENT_NOT_FOUND
    );
    assert_eq!(
        runtime.stop_agent("ghost", &mut backend).unwrap_err().error().code,
        ERR_AGENT_NOT_FOUND
    );
    assert_eq!(
        runtime.tick_once("ghost", &mut backend).unwrap_err().error().code,
        ERR_AGENT_NOT_FOUND
    );
    assert_eq!(runtime.phase("ghost"), None);
    assert_eq!(runtime.inbox_len("ghost"), None);
    assert!(runtime.events().is_empty());

    runtime.register_agent(agent("agent-a", 0)).unwrap();
    assert_eq!(
        runtime.tick_once("agent-a", &mut backend).unwrap_err().error().code,
        ERR_AGENT_NOT_AWAKE
    );
    assert_eq!(backend.inputs, 0);
}

#[test]
fn publish_delivers_to_every_accepting_awake_agent_in_registration_order() {
    let mut runtime = AgentRuntime::new();
    let mut backend = backend();
    runtime.register_agent(agent("agent-b", 0)).unwrap();
    let mut observer = agent("observer", 9);
    observer.participation = AgentParticipation::Observer;
    runtime.register_agent(observer).unwrap();
    let mut by_prefix = agent("prefix", 1);
    by_prefix.accepts = vec![ScopeRuleSpec::BySchemaPrefix {
        prefix: "test.".into(),
    }];
    runtime.register_agent(by_prefix).unwrap();
    let mut by_source = agent("by-source", 1);
    by_source.accepts = vec![ScopeRuleSpec::BySourceId {
        source_id: "source:test".into(),
    }];
    runtime.register_agent(by_source).unwrap();
    runtime.register_agent(agent("asleep", 0)).unwrap();
    for id in ["agent-b", "observer", "prefix", "by-source"] {
        runtime.start_agent(id, &mut backend).unwrap();
    }

    let matched = runtime.publish(envelope()).unwrap();
    assert_eq!(matched, vec!["agent-b", "observer", "prefix", "by-source"]);
    assert_eq!(runtime.inbox_len("asleep"), Some(0));
    assert_eq!(runtime.inbox_len("observer"), Some(1));
    // The elected primary is among the receivers; observers are never elected.
    assert_eq!(runtime.select_accepting(&envelope()), Some("by-source".into()));
    assert!(runtime
        .events()
        .iter()
        .any(|event| event.name == "runtime.publish" && event.error.is_none()));
}

#[test]
fn ticking_takes_inputs_oldest_first_then_asks_for_next_step() {
    let mut runtime = AgentRuntime::new();
    let mut backend = backend();
    runtime.register_agent(agent("agent-a", 0)).unwrap();
    runtime.start_agent("agent-a", &mut backend).unwrap();
    runtime.publish(envelope()).unwrap();
    runtime.publish(envelope()).unwrap();
    assert_eq!(runtime.inbox_len("agent-a"), Some(2));

    runtime.tick_once("agent-a", &mut backend).unwrap();
    assert_eq!(runtime.inbox_len("agent-a"), Some(1));
    runtime.tick_once("agent-a", &mut backend).unwrap();
    assert_eq!(runtime.inbox_len("agent-a"), Some(0));
    let idle = runtime.tick_once("agent-a", &mut backend).unwrap();
    assert_eq!(idle.status, StrategyResultStatus::WaitInput);
    assert_eq!(backend.inputs, 2);

    let events = runtime.events();
    assert!(events.windows(2).all(|pair| pair[0].sequence < pair[1].sequence));
    assert_eq!(
        runtime.trace_spans().last().unwrap().parent_span_id,
        None
    );
}

#[test]
fn recorded_traces_pass_the_closure_check() {
    let mut runtime = AgentRuntime::new();
    let mut backend = backend();
    runtime.register_agent(agent("agent-a", 0)).unwrap();
    runtime.start_agent("agent-a", &mut backend).unwrap();
    runtime.publish(envelope()).unwrap();
    let mut unknown = envelope();
    unknown.source.source_id = "source:unknown".into();
    runtime.publish(unknown).unwrap_err();
    runtime.tick_once("agent-a", &mut backend).unwrap();
    runtime.tick_once("agent-a", &mut backend).unwrap();
    runtime.stop_agent("agent-a", &mut backend).unwrap();
    assert!(runtime.trace_spans().len() >= 6);
    assert!(validate_trace_closure(runtime.trace_spans()).is_empty());
}

#[test]
fn runtime_emits_deterministic_events_for_lifecycle_and_routing() {
    let mut runtime = AgentRuntime::new();
    let mut backend = backend();
    backend
        .operations
        .push(operation_snapshot("test.noop", OperationStatus::Active));
    runtime.register_agent(agent("agent-a", 0)).unwrap();
    runtime.start_agent("agent-a", &mut backend).unwrap();
    runtime.publish(envelope()).unwrap();
    runtime.tick_once("agent-a", &mut backend).unwrap();
    runtime.stop_agent("agent-a", &mut backend).unwrap();

    let events = runtime.events().to_vec();
    assert!(events.iter().any(|event| event.name == "agent.awake"));
    assert!(events.iter().any(|event| event.name == "runtime.publish"));
    assert!(events.iter().any(|event| event.name == "agent.input"));
    assert!(events.iter().any(|event| event.name == "agent.stop"));
    assert!(events.windows(2).all(|pair| pair[0].sequence < pair[1].sequence));
    let drained = runtime.drain_events();
    assert_eq!(drained.len(), events.len());
    assert!(drained.windows(2).all(|pair| pair[0].sequence < pair[1].sequence));
    assert!(runtime.events().is_empty());
}
