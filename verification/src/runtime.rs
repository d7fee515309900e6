//! The agent runtime: a registry of agents with their lifecycle, the routing of
//! inputs to their inboxes, the election of a primary agent, and the event and
//! trace logs that every step writes.
use vstd::prelude::*;
use vstd::string::*;

use crate::agent::{
    agent_accepts, candidates, candidates_upto, has_agent, ids_unique, lists_source,
    lists_source_exec, routed, routed_ids, routed_ids_upto, same_spec, source_registered,
    AgentParticipation, AgentPhase, AgentSnapshot, AgentSpec, AgentState, Envelope,
    OperationSnapshot, RuntimeBackend, SourceSnapshot, StrategyResult, StrategyResultStatus,
};
use crate::election::{is_top, ElectionCandidate, ElectionPolicy, PriorityElectionPolicy};
use crate::event::{same_optional_error, EventBook, RuntimeEvent, RuntimeEventKind};
use crate::failure::{
    agent_failure, scope_no_match_failure, source_unregistered_failure, RuntimeError,
    RuntimeFailure, ScalarValue, same_error, ERR_AGENT_ALREADY_REGISTERED, ERR_AGENT_NOT_AWAKE,
    ERR_AGENT_NOT_FOUND, ERR_SCOPE_NO_MATCH, ERR_SOURCE_UNREGISTERED,
};
use crate::text::{decimal_chars, str_eq};
use crate::trace::{
    closure_issues, lemma_well_nested_closed, parent_recorded, same_span, well_nested, SpanStatus,
    TraceBook, TraceSpan,
};

verus! {

/// `after` begins with `before`.
pub open spec fn extends<T>(before: Seq<T>, after: Seq<T>) -> bool {
    before.len() <= after.len() && after.take(before.len() as int) == before
}

proof fn lemma_extends_trans<T>(a: Seq<T>, b: Seq<T>, c: Seq<T>)
    requires
        extends(a, b),
        extends(b, c),
    ensures
        extends(a, c),
{
    assert(c.take(a.len() as int) =~= c.take(b.len() as int).take(a.len() as int));
}

/// The position of the agent with the id (meaningful when there is one).
pub open spec fn agent_index(agents: Seq<AgentState>, agent_id: Seq<char>) -> int {
    choose|i: int| 0 <= i < agents.len() && (#[trigger] agents[i]).spec.agent_id@ == agent_id
}

proof fn lemma_agent_index(agents: Seq<AgentState>, i: int, agent_id: Seq<char>)
    requires
        ids_unique(agents),
        0 <= i < agents.len(),
        agents[i].spec.agent_id@ == agent_id,
    ensures
        agent_index(agents, agent_id) == i,
{
    let j = agent_index(agents, agent_id);
    assert(0 <= j < agents.len() && agents[j].spec.agent_id@ == agent_id);
    if j < i {
        assert(agents[j].spec.agent_id@ != agents[i].spec.agent_id@);
    } else if i < j {
        assert(agents[i].spec.agent_id@ != agents[j].spec.agent_id@);
    }
}

/// Replacing one agent by a state with the same id keeps ids unique.
proof fn lemma_update_unique(agents: Seq<AgentState>, i: int, state: AgentState)
    requires
        ids_unique(agents),
        0 <= i < agents.len(),
        state.spec.agent_id@ == agents[i].spec.agent_id@,
    ensures
        ids_unique(agents.update(i, state)),
{
    let u = agents.update(i, state);
    assert forall|a: int, b: int| 0 <= a < b < u.len() implies #[trigger] u[a].spec.agent_id@
        != #[trigger] u[b].spec.agent_id@ by {
        assert(u[a].spec.agent_id@ == agents[a].spec.agent_id@);
        assert(u[b].spec.agent_id@ == agents[b].spec.agent_id@);
    }
}

/// `after` differs from `before` at most at position `i`.
pub open spec fn only_changed(before: Seq<AgentState>, after: Seq<AgentState>, i: int) -> bool {
    after.len() == before.len() && forall|k: int| 0 <= k < before.len() && k != i ==> #[trigger] after[k] == before[k]
}

/// `b` is `a` awake, holding `operations` and `sources` as its registries.
pub open spec fn woken(
    a: AgentState,
    b: AgentState,
    operations: Seq<OperationSnapshot>,
    sources: Seq<SourceSnapshot>,
) -> bool {
    b.spec == a.spec && b.phase == AgentPhase::Awake && b.inbox@ == a.inbox@ && b.operations@ == operations
        && b.sources@ == sources
}

/// `b` is `a` awake with the same spec and inbox (its registries as the backend listed them).
pub open spec fn woke(a: AgentState, b: AgentState) -> bool {
    b.spec == a.spec && b.phase == AgentPhase::Awake && b.inbox@ == a.inbox@
}

/// The strategy reported a failure, by an error or by a failed result.
pub open spec fn strategy_failed(outcome: Result<StrategyResult, RuntimeFailure>) -> bool {
    match outcome {
        Ok(res) => res.status == StrategyResultStatus::Failed,
        Err(_) => true,
    }
}

/// The error that the event about the strategy's outcome carries.
pub open spec fn strategy_error(outcome: Result<StrategyResult, RuntimeFailure>) -> Option<RuntimeError> {
    match outcome {
        Ok(res) => if res.status == StrategyResultStatus::Failed {
            res.error
        } else {
            None
        },
        Err(e) => Some(*e.0),
    }
}

/// `b` is `a` in phase `phase`, all else kept.
pub open spec fn rephased(a: AgentState, b: AgentState, phase: AgentPhase) -> bool {
    b.spec == a.spec && b.phase == phase && b.inbox@ == a.inbox@ && b.sources@ == a.sources@
        && b.operations@ == a.operations@
}

/// `b` is `a` with `envelope` queued at the end of its inbox.
pub open spec fn delivered(a: AgentState, b: AgentState, envelope: Envelope) -> bool {
    b.spec == a.spec && b.phase == a.phase && b.inbox@ == a.inbox@.push(envelope) && b.sources@
        == a.sources@ && b.operations@ == a.operations@
}

/// `b` is `a` with the oldest envelope of its inbox taken out.
pub open spec fn dequeued(a: AgentState, b: AgentState) -> bool {
    b.spec == a.spec && b.phase == a.phase && b.inbox@ == a.inbox@.drop_first() && b.sources@
        == a.sources@ && b.operations@ == a.operations@
}

/// `after` is `before` with `envelope` queued for every agent that it is routed to.
pub open spec fn published(before: Seq<AgentState>, after: Seq<AgentState>, envelope: Envelope) -> bool {
    after.len() == before.len() && forall|k: int|
        0 <= k < before.len() ==> if routed(before[k], envelope) {
            delivered(before[k], #[trigger] after[k], envelope)
        } else {
            after[k] == before[k]
        }
}

/// Every election candidate among the first `n` agents is among the agents that
/// publishing the input delivers it to.
proof fn lemma_candidates_receive(agents: Seq<AgentState>, envelope: Envelope, n: int, k: int)
    requires
        0 <= n <= agents.len(),
        0 <= k < candidates_upto(agents, envelope, n).len(),
    ensures
        routed_ids_upto(agents, envelope, n).contains(candidates_upto(agents, envelope, n)[k].agent_id@),
    decreases n,
{
    let prev = candidates_upto(agents, envelope, n - 1);
    let ids = routed_ids_upto(agents, envelope, n - 1);
    if k < prev.len() {
        lemma_candidates_receive(agents, envelope, n - 1, k);
        let j = choose|j: int| 0 <= j < ids.len() && ids[j] == prev[k].agent_id@;
        if routed(agents[n - 1], envelope) {
            assert(routed_ids_upto(agents, envelope, n)[j] == ids[j]);
        }
    } else {
        assert(routed_ids_upto(agents, envelope, n).last() == agents[n - 1].spec.agent_id@);
    }
}

/// The agent that an election picks for an input is one that publishing the input
/// delivers it to.
pub proof fn lemma_elected_receives(agents: Seq<AgentState>, envelope: Envelope, id: Seq<char>)
    requires
        exists|k: int| 0 <= k < candidates(agents, envelope).len() && #[trigger] candidates(agents, envelope)[k].agent_id@ == id,
    ensures
        routed_ids(agents, envelope).contains(id),
{
    let k = choose|k: int| 0 <= k < candidates(agents, envelope).len() && #[trigger] candidates(agents, envelope)[k].agent_id@ == id;
    lemma_candidates_receive(agents, envelope, agents.len() as int, k);
}

proof fn lemma_no_routed_ids(agents: Seq<AgentState>, envelope: Envelope, n: int)
    requires
        0 <= n <= agents.len(),
        routed_ids_upto(agents, envelope, n).len() == 0,
    ensures
        forall|k: int| 0 <= k < n ==> !routed(#[trigger] agents[k], envelope),
    decreases n,
{
    if n > 0 {
        lemma_no_routed_ids(agents, envelope, n - 1);
    }
}

/// The trace a span of the agent goes to; the runtime's own spans go to its trace.
pub open spec fn trace_name(agent_id: Option<&str>) -> Seq<char> {
    "trace-"@ + match agent_id {
        Some(a) => a@,
        None => "runtime"@,
    }
}

/// A parent named for a new span is already recorded, in the new span's trace.
pub open spec fn parent_ok(spans: Seq<TraceSpan>, parent: Option<String>, trace: Seq<char>) -> bool {
    parent matches Some(p) ==> exists|k: int|
        0 <= k < spans.len() && #[trigger] spans[k].span_id@ == p@ && spans[k].trace_id@ == trace
}

/// A runtime owns its agents and the logs of what they did.
pub struct AgentRuntime {
    agents: Vec<AgentState>,
    events: EventBook,
    traces: TraceBook,
}

fn status_text(status: SpanStatus) -> (r: &'static str)
    ensures
        status == SpanStatus::Success ==> r@ == "ok"@,
        status == SpanStatus::Error ==> r@ == "error"@,
{
    match status {
        SpanStatus::Success => "ok",
        SpanStatus::Error => "error",
    }
}

fn optional_string(s: Option<&str>) -> (r: Option<String>)
    ensures
        r is Some <==> s is Some,
        r matches Some(v) ==> v@ == s->0@,
{
    match s {
        Some(v) => Some(String::from_str(v)),
        None => None,
    }
}

fn copy_optional_error(e: &Option<RuntimeError>) -> (r: Option<RuntimeError>)
    ensures
        same_optional_error(r, *e),
{
    match e {
        Some(x) => Some(x.copy()),
        None => None,
    }
}

/// The logs of `after` extend those of `before` by a span named `span_name` with
/// `status`, followed by an event named `event_name`.
pub open spec fn logged(
    before: AgentRuntime,
    after: AgentRuntime,
    span_name: Seq<char>,
    status: SpanStatus,
    event_name: Seq<char>,
) -> bool {
    &&& extends(before.recorded_spans(), after.recorded_spans())
    &&& extends(before.recorded_events(), after.recorded_events())
    &&& after.recorded_spans().len() > before.recorded_spans().len()
    &&& after.recorded_spans().last().name@ == span_name
    &&& after.recorded_spans().last().status == status
    &&& after.recorded_events().len() > before.recorded_events().len()
    &&& after.recorded_events().last().name@ == event_name
}

impl AgentRuntime {
    /// The registered agents, in registration order.
    pub closed spec fn agents(&self) -> Seq<AgentState> {
        self.agents@
    }

    /// The events recorded since the last drain.
    pub closed spec fn recorded_events(&self) -> Seq<RuntimeEvent> {
        self.events.pending()
    }

    /// The sequence number of the last event ever recorded.
    pub closed spec fn event_sequence(&self) -> u64 {
        self.events.last_sequence()
    }

    /// Every span recorded so far.
    pub closed spec fn recorded_spans(&self) -> Seq<TraceSpan> {
        self.traces.recorded()
    }

    pub closed spec fn wf(&self) -> bool {
        &&& self.events.wf()
        &&& self.traces.wf()
        &&& ids_unique(self.agents@)
        &&& well_nested(self.traces.recorded())
    }

    /// Every trace a runtime records is closed: span ids are unique, intervals are not
    /// inverted, and each parent is recorded in its child's trace.
    pub proof fn lemma_traces_closed(&self)
        requires
            self.wf(),
        ensures
            closure_issues(self.recorded_spans()).len() == 0,
    {
        lemma_well_nested_closed(self.traces.recorded());
    }

    /// The event and span counters can take `n` more entries each.
    pub open spec fn room(&self, n: int) -> bool {
        &&& self.event_sequence() + n <= u64::MAX
        &&& self.recorded_spans().len() + n <= u64::MAX
    }

    pub fn new() -> (r: Self)
        ensures
            r.wf(),
            r.agents().len() == 0,
            r.recorded_events().len() == 0,
            r.recorded_spans().len() == 0,
            r.event_sequence() == 0,
    {
        AgentRuntime { agents: Vec::new(), events: EventBook::new(), traces: TraceBook::new() }
    }

    fn find(&self, agent_id: &str) -> (r: Option<usize>)
        requires
            self.wf(),
        ensures
            match r {
                Some(i) => i < self.agents@.len() && self.agents@[i as int].spec.agent_id@ == agent_id@
                    && agent_index(self.agents@, agent_id@) == i,
                None => !has_agent(self.agents@, agent_id@),
            },
    {
        let mut i: usize = 0;
        while i < self.agents.len()
            invariant
                self.wf(),
                0 <= i <= self.agents@.len(),
                forall|k: int| 0 <= k < i ==> (#[trigger] self.agents@[k]).spec.agent_id@ != agent_id@,
            decreases self.agents@.len() - i,
        {
            if str_eq(self.agents[i].spec.agent_id.as_str(), agent_id) {
                proof {
                    lemma_agent_index(self.agents@, i as int, agent_id@);
                }
                return Some(i);
            }
            i = i + 1;
        }
        None
    }

    /// Records an event; the agents and spans are untouched.
    fn emit_event(
        &mut self,
        kind: RuntimeEventKind,
        name: &str,
        agent_id: Option<&str>,
        error: Option<RuntimeError>,
    )
        requires
            old(self).wf(),
            old(self).room(1),
        ensures
            final(self).wf(),
            final(self).agents@ == old(self).agents@,
            final(self).traces == old(self).traces,
            final(self).event_sequence() == old(self).event_sequence() + 1,
            final(self).recorded_events().len() == old(self).recorded_events().len() + 1,
            extends(old(self).recorded_events(), final(self).recorded_events()),
            final(self).recorded_events().last().name@ == name@,
            final(self).recorded_events().last().kind == kind,
            same_optional_error(final(self).recorded_events().last().error, error),
    {
        let _ = self.events.record(kind, String::from_str(name), optional_string(agent_id), Vec::new(), error);
    }

    /// Records a closed span in the agent's trace (the runtime's own trace without an
    /// agent) and the event announcing it; the agents are untouched.
    fn emit_span(
        &mut self,
        agent_id: Option<&str>,
        name: &str,
        parent_span_id: Option<String>,
        status: SpanStatus,
    ) -> (r: TraceSpan)
        requires
            old(self).wf(),
            old(self).room(1),
            parent_ok(old(self).recorded_spans(), parent_span_id, trace_name(agent_id)),
        ensures
            final(self).wf(),
            final(self).agents@ == old(self).agents@,
            r.trace_id@ == trace_name(agent_id),
            final(self).event_sequence() == old(self).event_sequence() + 1,
            final(self).recorded_events().len() == old(self).recorded_events().len() + 1,
            extends(old(self).recorded_events(), final(self).recorded_events()),
            final(self).recorded_spans().len() == old(self).recorded_spans().len() + 1,
            extends(old(self).recorded_spans(), final(self).recorded_spans()),
            same_span(final(self).recorded_spans().last(), r),
            r.name@ == name@,
            r.status == status,
            r.parent_span_id == parent_span_id,
    {
        let trace_agent = match agent_id {
            Some(a) => a,
            None => "runtime",
        };
        let ghost before = self.traces.recorded();
        let span = self.traces.record(trace_agent, String::from_str(name), parent_span_id, status);
        proof {
            let after = self.traces.recorded();
            self.traces.lemma_numbered();
            assert forall|j: int| 0 <= j < before.len() implies #[trigger] after[j] == before[j] by {
                assert(after.take(before.len() as int)[j] == after[j]);
            }
            assert forall|i: int| 0 <= i < after.len() implies parent_recorded(after, i) by {
                if i < before.len() {
                    assert(after[i] == before[i]);
                    assert(before[i].span_id@ == "span-"@ + decimal_chars((i + 1) as nat));
                    assert(parent_recorded(before, i));
                    if after[i].parent_span_id is Some {
                        let p = after[i].parent_span_id->0;
                        let k = choose|k: int|
                            0 <= k < i && #[trigger] before[k].span_id@ == p@ && before[k].trace_id@
                                == before[i].trace_id@;
                        assert(after[k] == before[k]);
                    }
                } else {
                    if after[i].parent_span_id is Some {
                        let p = after[i].parent_span_id->0;
                        let k = choose|k: int|
                            0 <= k < before.len() && #[trigger] before[k].span_id@ == p@ && before[k].trace_id@
                                == trace_name(agent_id);
                        assert(after[k] == before[k]);
                    }
                }
            }
        }
        let mut attributes: Vec<(String, ScalarValue)> = Vec::new();
        attributes.push((String::from_str("span_name"), ScalarValue::String(String::from_str(name))));
        attributes.push((String::from_str("trace_id"), ScalarValue::String(span.trace_id.clone())));
        attributes.push((String::from_str("span_id"), ScalarValue::String(span.span_id.clone())));
        attributes.push(
            (String::from_str("status"), ScalarValue::String(String::from_str(status_text(status)))),
        );
        let _ = self.events.record(
            RuntimeEventKind::Trace,
            String::from_str("trace.span"),
            optional_string(agent_id),
            attributes,
            None,
        );
        span
    }

    /// Records a span and then an event about one step; the agents are untouched.
    fn log_step(
        &mut self,
        agent_id: Option<&str>,
        span_name: &str,
        parent_span_id: Option<String>,
        status: SpanStatus,
        kind: RuntimeEventKind,
        event_name: &str,
        error: Option<RuntimeError>,
    ) -> (r: TraceSpan)
        requires
            old(self).wf(),
            old(self).room(2),
            parent_ok(old(self).recorded_spans(), parent_span_id, trace_name(agent_id)),
        ensures
            final(self).wf(),
            final(self).agents@ == old(self).agents@,
            final(self).event_sequence() == old(self).event_sequence() + 2,
            final(self).recorded_spans().len() == old(self).recorded_spans().len() + 1,
            logged(*old(self), *final(self), span_name@, status, event_name@),
            same_span(final(self).recorded_spans().last(), r),
            r.parent_span_id == parent_span_id,
            final(self).recorded_events().last().kind == kind,
            same_optional_error(final(self).recorded_events().last().error, error),
    {
        let ghost events0 = self.recorded_events();
        let span = self.emit_span(agent_id, span_name, parent_span_id, status);
        let ghost events1 = self.recorded_events();
        self.emit_event(kind, event_name, agent_id, error);
        proof {
            lemma_extends_trans(events0, events1, self.recorded_events());
        }
        span
    }

    /// Takes agent `i` out of the registry; `put_agent` puts it back.
    fn take_agent(&mut self, i: usize) -> (r: AgentState)
        requires
            i < old(self).agents@.len(),
        ensures
            r == old(self).agents@[i as int],
            final(self).agents@ == old(self).agents@.remove(i as int),
            final(self).events == old(self).events,
            final(self).traces == old(self).traces,
    {
        self.agents.remove(i)
    }

    fn put_agent(&mut self, i: usize, state: AgentState, Ghost(before): Ghost<Seq<AgentState>>)
        requires
            i < before.len(),
            old(self).agents@ == before.remove(i as int),
            ids_unique(before),
            state.spec.agent_id@ == before[i as int].spec.agent_id@,
        ensures
            final(self).agents@ == before.update(i as int, state),
            ids_unique(final(self).agents@),
            final(self).events == old(self).events,
            final(self).traces == old(self).traces,
    {
        self.agents.insert(i, state);
        assert(self.agents@ =~= before.update(i as int, state));
        proof {
            lemma_update_unique(before, i as int, state);
        }
    }

    /// Registers an agent in the spawn phase; ids are unique.
    pub fn register_agent(&mut self, spec: AgentSpec) -> (r: Result<(), RuntimeFailure>)
        requires
            old(self).wf(),
        ensures
            final(self).wf(),
            r is Err <==> has_agent(old(self).agents(), spec.agent_id@),
            r matches Err(e) ==> e.0.code@ == ERR_AGENT_ALREADY_REGISTERED@ && final(self).agents()
                == old(self).agents(),
            r is Ok ==> final(self).agents().len() == old(self).agents().len() + 1 && final(self).agents().take(
                old(self).agents().len() as int,
            ) == old(self).agents() && final(self).agents().last().spec == spec
                && final(self).agents().last().phase == AgentPhase::Spawn
                && final(self).agents().last().inbox@.len() == 0
                && final(self).agents().last().sources@.len() == 0
                && final(self).agents().last().operations@.len() == 0,
            final(self).recorded_events() == old(self).recorded_events(),
            final(self).event_sequence() == old(self).event_sequence(),
            final(self).recorded_spans() == old(self).recorded_spans(),
    {
        match self.find(spec.agent_id.as_str()) {
            Some(_) => Err(
                agent_failure(ERR_AGENT_ALREADY_REGISTERED, "runtime.register.", spec.agent_id.as_str()),
            ),
            None => {
                let ghost before = self.agents@;
                self.agents.push(
                    AgentState {
                        spec,
                        phase: AgentPhase::Spawn,
                        inbox: Vec::new(),
                        sources: Vec::new(),
                        operations: Vec::new(),
                    },
                );
                assert(self.agents@.take(before.len() as int) =~= before);
                assert(ids_unique(self.agents@)) by {
                    assert forall|a: int, b: int| 0 <= a < b < self.agents@.len() implies #[trigger] self.agents@[a].spec.agent_id@
                        != #[trigger] self.agents@[b].spec.agent_id@ by {
                        if b == before.len() {
                            assert(self.agents@[a] == before[a]);
                        }
                    }
                }
                Ok(())
            },
        }
    }
    /// The agent's phase.
    pub fn phase(&self, agent_id: &str) -> (r: Option<&AgentPhase>)
        requires
            self.wf(),
        ensures
            r is None <==> !has_agent(self.agents(), agent_id@),
            r matches Some(p) ==> *p == self.agents()[agent_index(self.agents(), agent_id@)].phase,
    {
        match self.find(agent_id) {
            Some(i) => Some(&self.agents[i].phase),
            None => None,
        }
    }

    /// How many inputs wait in the agent's inbox.
    pub fn inbox_len(&self, agent_id: &str) -> (r: Option<usize>)
        requires
            self.wf(),
        ensures
            r is None <==> !has_agent(self.agents(), agent_id@),
            r matches Some(n) ==> n == self.agents()[agent_index(self.agents(), agent_id@)].inbox@.len(),
    {
        match self.find(agent_id) {
            Some(i) => Some(self.agents[i].inbox.len()),
            None => None,
        }
    }

    /// The sources the agent registered when it woke.
    pub fn source_snapshots(&self, agent_id: &str) -> (r: Option<Vec<SourceSnapshot>>)
        requires
            self.wf(),
        ensures
            r is None <==> !has_agent(self.agents(), agent_id@),
            r matches Some(v) ==> v@ == self.agents()[agent_index(self.agents(), agent_id@)].sources@,
    {
        match self.find(agent_id) {
            Some(i) => {
                let sources = &self.agents[i].sources;
                let mut out: Vec<SourceSnapshot> = Vec::new();
                let mut k: usize = 0;
                while k < sources.len()
                    invariant
                        0 <= k <= sources@.len(),
                        out@ == sources@.take(k as int),
                    decreases sources@.len() - k,
                {
                    out.push(sources[k].copy());
                    k = k + 1;
                    assert(out@ =~= sources@.take(k as int));
                }
                assert(sources@.take(sources@.len() as int) =~= sources@);
                Some(out)
            },
            None => None,
        }
    }

    /// The first operation of the agent's registry with the id.
    pub fn operation_snapshot(&self, agent_id: &str, op_id: &str) -> (r: Option<OperationSnapshot>)
        requires
            self.wf(),
        ensures
            !has_agent(self.agents(), agent_id@) ==> r is None,
            has_agent(self.agents(), agent_id@) ==> {
                let ops = self.agents()[agent_index(self.agents(), agent_id@)].operations@;
                &&& r is None <==> forall|j: int| 0 <= j < ops.len() ==> (#[trigger] ops[j]).op_id@ != op_id@
                &&& r matches Some(op) ==> exists|j: int|
                    0 <= j < ops.len() && #[trigger] ops[j] == op && op.op_id@ == op_id@
            },
    {
        match self.find(agent_id) {
            Some(i) => {
                let ops = &self.agents[i].operations;
                let mut k: usize = 0;
                while k < ops.len()
                    invariant
                        0 <= k <= ops@.len(),
                        i == agent_index(self.agents@, agent_id@),
                        i < self.agents@.len(),
                        self.agents@[i as int].spec.agent_id@ == agent_id@,
                        *ops == self.agents@[i as int].operations,
                        forall|j: int| 0 <= j < k ==> (#[trigger] ops@[j]).op_id@ != op_id@,
                    decreases ops@.len() - k,
                {
                    if str_eq(ops[k].op_id.as_str(), op_id) {
                        let op = ops[k].copy();
                        assert(ops@[k as int] == op);
                        assert(has_agent(self.agents@, agent_id@));
                        return Some(op);
                    }
                    k = k + 1;
                }
                None
            },
            None => None,
        }
    }

    /// One snapshot per agent, in registration order.
    pub fn agent_snapshots(&self) -> (r: Vec<AgentSnapshot>)
        ensures
            r@.len() == self.agents().len(),
            forall|i: int|
                0 <= i < r@.len() ==> same_spec((#[trigger] r@[i]).spec, self.agents()[i].spec)
                    && r@[i].phase == self.agents()[i].phase && r@[i].inbox_len == self.agents()[i].inbox@.len(),
    {
        let mut out: Vec<AgentSnapshot> = Vec::new();
        let mut i: usize = 0;
        while i < self.agents.len()
            invariant
                0 <= i <= self.agents@.len(),
                out@.len() == i,
                forall|k: int|
                    0 <= k < i ==> same_spec((#[trigger] out@[k]).spec, self.agents@[k].spec)
                        && out@[k].phase == self.agents@[k].phase && out@[k].inbox_len == self.agents@[k].inbox@.len(),
            decreases self.agents@.len() - i,
        {
            let state = &self.agents[i];
            out.push(AgentSnapshot { spec: state.spec.copy(), phase: state.phase, inbox_len: state.inbox.len() });
            i = i + 1;
        }
        out
    }

    /// Every span recorded so far, oldest first.
    pub fn trace_spans(&self) -> (r: &[TraceSpan])
        ensures
            r@ == self.recorded_spans(),
    {
        self.traces.spans()
    }

    /// The events recorded since the last drain, oldest first.
    pub fn events(&self) -> (r: &[RuntimeEvent])
        ensures
            r@ == self.recorded_events(),
    {
        self.events.events()
    }

    /// Hands out the recorded events and forgets them; numbering goes on.
    pub fn drain_events(&mut self) -> (r: Vec<RuntimeEvent>)
        requires
            old(self).wf(),
        ensures
            final(self).wf(),
            r@ == old(self).recorded_events(),
            final(self).recorded_events().len() == 0,
            final(self).event_sequence() == old(self).event_sequence(),
            final(self).agents() == old(self).agents(),
            final(self).recorded_spans() == old(self).recorded_spans(),
    {
        self.events.drain()
    }
    /// Whether some awake agent registered the source.
    fn source_is_registered(&self, source_id: &str) -> (r: bool)
        ensures
            r == source_registered(self.agents@, source_id@),
    {
        let mut i: usize = 0;
        while i < self.agents.len()
            invariant
                0 <= i <= self.agents@.len(),
                forall|k: int|
                    0 <= k < i ==> !((#[trigger] self.agents@[k]).phase == AgentPhase::Awake && lists_source(
                        self.agents@[k],
                        source_id@,
                    )),
            decreases self.agents@.len() - i,
        {
            if self.agents[i].phase == AgentPhase::Awake && lists_source_exec(&self.agents[i], source_id) {
                return true;
            }
            i = i + 1;
        }
        false
    }

    /// The election candidates for the envelope, in registration order.
    fn collect_candidates(&self, envelope: &Envelope) -> (r: Vec<ElectionCandidate>)
        ensures
            r@ == candidates(self.agents@, *envelope),
    {
        let mut out: Vec<ElectionCandidate> = Vec::new();
        let mut i: usize = 0;
        while i < self.agents.len()
            invariant
                0 <= i <= self.agents@.len(),
                out@ == candidates_upto(self.agents@, *envelope, i as int),
            decreases self.agents@.len() - i,
        {
            let state = &self.agents[i];
            if state.phase == AgentPhase::Awake && state.spec.participation
                == AgentParticipation::PrimaryCandidate && agent_accepts(&state.spec, envelope) {
                out.push(ElectionCandidate { agent_id: state.spec.agent_id.clone(), priority: state.spec.priority });
            }
            i = i + 1;
        }
        out
    }

    /// Elects the primary agent for an input from a registered source: the awake
    /// primary candidate whose scope accepts it with the highest priority, ties going
    /// to the smallest id.
    pub fn select_accepting(&self, envelope: &Envelope) -> (r: Option<String>)
        ensures
            r is None <==> !source_registered(self.agents(), envelope.source.source_id@) || candidates(
                self.agents(),
                *envelope,
            ).len() == 0,
            r matches Some(id) ==> exists|k: int|
                is_top(candidates(self.agents(), *envelope), k) && #[trigger] candidates(
                    self.agents(),
                    *envelope,
                )[k].agent_id@ == id@,
    {
        if !self.source_is_registered(envelope.source.source_id.as_str()) {
            return None;
        }
        let found = self.collect_candidates(envelope);
        let policy = PriorityElectionPolicy;
        policy.select(found.as_slice())
    }

    /// Lets `policy` elect among the same candidates as `select_accepting`; the policy
    /// is not asked when there are none, and an answer that names no candidate is
    /// dropped.
    pub fn select_accepting_with_policy<P: ElectionPolicy>(&self, envelope: &Envelope, policy: &P) -> (r: Option<String>)
        ensures
            !source_registered(self.agents(), envelope.source.source_id@) || candidates(
                self.agents(),
                *envelope,
            ).len() == 0 ==> r is None,
            r matches Some(id) ==> exists|k: int|
                0 <= k < candidates(self.agents(), *envelope).len() && #[trigger] candidates(
                    self.agents(),
                    *envelope,
                )[k].agent_id@ == id@,
    {
        if !self.source_is_registered(envelope.source.source_id.as_str()) {
            return None;
        }
        let found = self.collect_candidates(envelope);
        if found.len() == 0 {
            return None;
        }
        let choice = policy.select(found.as_slice());
        accept_choice(found.as_slice(), choice)
    }

    /// Delivers an input to every awake agent whose scope accepts it and answers
    /// their ids. An input from a source no awake agent registered, or one that no
    /// agent accepts, is refused and delivered nowhere.
    pub fn publish(&mut self, envelope: Envelope) -> (r: Result<Vec<String>, RuntimeFailure>)
        requires
            old(self).wf(),
            old(self).room(2),
        ensures
            final(self).wf(),
            !source_registered(old(self).agents(), envelope.source.source_id@) ==> (r matches Err(e)
                && e.0.code@ == ERR_SOURCE_UNREGISTERED@) && logged(
                *old(self),
                *final(self),
                "runtime.source_unregistered"@,
                SpanStatus::Error,
                "runtime.source_unregistered"@,
            ),
            source_registered(old(self).agents(), envelope.source.source_id@) && routed_ids(
                old(self).agents(),
                envelope,
            ).len() == 0 ==> (r matches Err(e) && e.0.code@ == ERR_SCOPE_NO_MATCH@) && logged(
                *old(self),
                *final(self),
                "runtime.scope_no_match"@,
                SpanStatus::Error,
                "runtime.scope_no_match"@,
            ),
            source_registered(old(self).agents(), envelope.source.source_id@) && routed_ids(
                old(self).agents(),
                envelope,
            ).len() > 0 ==> r is Ok && logged(
                *old(self),
                *final(self),
                "runtime.publish"@,
                SpanStatus::Success,
                "runtime.publish"@,
            ),
            r is Err ==> final(self).agents() == old(self).agents(),
            r matches Ok(ids) ==> ids@.map_values(|s: String| s@) == routed_ids(old(self).agents(), envelope)
                && published(old(self).agents(), final(self).agents(), envelope),
    {
        let ghost before = self.agents@;
        let ghost events0 = self.events;
        let ghost traces0 = self.traces;
        if !self.source_is_registered(envelope.source.source_id.as_str()) {
            let failure = source_unregistered_failure(envelope.source.source_id.as_str());
            let _ = self.log_step(
                None,
                "runtime.source_unregistered",
                None,
                SpanStatus::Error,
                RuntimeEventKind::Routing,
                "runtime.source_unregistered",
                Some(failure.0.copy()),
            );
            return Err(failure);
        }
        let mut matched: Vec<String> = Vec::new();
        let mut i: usize = 0;
        while i < self.agents.len()
            invariant
                self.agents@.len() == before.len(),
                ids_unique(self.agents@),
                self.events == events0,
                self.traces == traces0,
                0 <= i <= before.len(),
                forall|k: int|
                    0 <= k < i ==> if routed(before[k], envelope) {
                        delivered(before[k], #[trigger] self.agents@[k], envelope)
                    } else {
                        self.agents@[k] == before[k]
                    },
                forall|k: int| i <= k < before.len() ==> #[trigger] self.agents@[k] == before[k],
                matched@.map_values(|s: String| s@) == routed_ids_upto(before, envelope, i as int),
            decreases before.len() - i,
        {
            if self.agents[i].phase == AgentPhase::Awake && agent_accepts(&self.agents[i].spec, &envelope) {
                let id = self.agents[i].spec.agent_id.clone();
                let ghost ids_before = matched@;
                matched.push(id);
                assert(matched@.map_values(|s: String| s@) =~= ids_before.map_values(|s: String| s@).push(
                    before[i as int].spec.agent_id@,
                ));
                let ghost cur = self.agents@;
                let mut st = self.take_agent(i);
                st.inbox.push(envelope.copy());
                self.put_agent(i, st, Ghost(cur));
            }
            i = i + 1;
        }
        if matched.len() == 0 {
            proof {
                lemma_no_routed_ids(before, envelope, before.len() as int);
                assert(self.agents@ =~= before);
            }
            let failure = scope_no_match_failure(
                envelope.source.source_id.as_str(),
                envelope.payload_schema_id.as_str(),
            );
            let _ = self.log_step(
                None,
                "runtime.scope_no_match",
                None,
                SpanStatus::Error,
                RuntimeEventKind::Routing,
                "runtime.scope_no_match",
                Some(failure.0.copy()),
            );
            return Err(failure);
        }
        let _ = self.log_step(
            None,
            "runtime.publish",
            None,
            SpanStatus::Success,
            RuntimeEventKind::Routing,
            "runtime.publish",
            None,
        );
        Ok(matched)
    }
    /// Records how waking agent `i` went: on success the agent is awake with the listed
    /// registries; on failure nothing about the agents changes.
    fn finish_start(
        &mut self,
        i: usize,
        outcome: Result<(Vec<OperationSnapshot>, Vec<SourceSnapshot>), RuntimeFailure>,
    ) -> (r: Result<(), RuntimeFailure>)
        requires
            old(self).wf(),
            old(self).room(2),
            i < old(self).agents().len(),
        ensures
            final(self).wf(),
            match outcome {
                Ok((ops, sources)) => r is Ok && only_changed(old(self).agents(), final(self).agents(), i as int)
                    && woken(old(self).agents()[i as int], final(self).agents()[i as int], ops@, sources@),
                Err(e) => r == Err::<(), RuntimeFailure>(e) && final(self).agents() == old(self).agents(),
            },
            logged(
                *old(self),
                *final(self),
                "agent.awake"@,
                if outcome is Ok { SpanStatus::Success } else { SpanStatus::Error },
                if outcome is Ok { "agent.awake"@ } else { "agent.awake.error"@ },
            ),
            outcome matches Err(e) ==> (final(self).recorded_events().last().error matches Some(x) && same_error(x, *e.0)),
            final(self).event_sequence() == old(self).event_sequence() + 2,
            final(self).recorded_spans().len() == old(self).recorded_spans().len() + 1,
    {
        let agent_id = self.agents[i].spec.agent_id.clone();
        match outcome {
            Ok((ops, sources)) => {
                let ghost before = self.agents@;
                let mut st = self.take_agent(i);
                st.phase = AgentPhase::Awake;
                st.operations = ops;
                st.sources = sources;
                self.put_agent(i, st, Ghost(before));
                let _ = self.log_step(
                    Some(agent_id.as_str()),
                    "agent.awake",
                    None,
                    SpanStatus::Success,
                    RuntimeEventKind::Lifecycle,
                    "agent.awake",
                    None,
                );
                Ok(())
            },
            Err(e) => {
                let _ = self.log_step(
                    Some(agent_id.as_str()),
                    "agent.awake",
                    None,
                    SpanStatus::Error,
                    RuntimeEventKind::Lifecycle,
                    "agent.awake.error",
                    Some(e.0.copy()),
                );
                Err(e)
            },
        }
    }

    /// Wakes an agent through the backend and takes in the operations and sources it
    /// lists. If any of the three calls fails, the agent stays as it was: it is not
    /// awake and none of its sources routes inputs.
    pub fn start_agent<B: RuntimeBackend>(&mut self, agent_id: &str, backend: &mut B) -> (r: Result<(), RuntimeFailure>)
        requires
            old(self).wf(),
            old(self).room(2),
        ensures
            final(self).wf(),
            !has_agent(old(self).agents(), agent_id@) ==> (r matches Err(e) && e.0.code@ == ERR_AGENT_NOT_FOUND@)
                && final(self).recorded_events() == old(self).recorded_events()
                && final(self).recorded_spans() == old(self).recorded_spans(),
            r is Err ==> final(self).agents() == old(self).agents(),
            r is Ok ==> has_agent(old(self).agents(), agent_id@) && only_changed(
                old(self).agents(),
                final(self).agents(),
                agent_index(old(self).agents(), agent_id@),
            ) && woke(
                old(self).agents()[agent_index(old(self).agents(), agent_id@)],
                final(self).agents()[agent_index(old(self).agents(), agent_id@)],
            ),
            has_agent(old(self).agents(), agent_id@) ==> logged(
                *old(self),
                *final(self),
                "agent.awake"@,
                if r is Ok { SpanStatus::Success } else { SpanStatus::Error },
                if r is Ok { "agent.awake"@ } else { "agent.awake.error"@ },
            ),
    {
        let i = match self.find(agent_id) {
            Some(i) => i,
            None => {
                return Err(agent_failure(ERR_AGENT_NOT_FOUND, "runtime.start.", agent_id));
            },
        };
        let outcome = match backend.awake(&self.agents[i].spec) {
            Err(e) => Err(e),
            Ok(()) => match backend.list_operations(agent_id) {
                Err(e) => Err(e),
                Ok(ops) => match backend.list_sources(agent_id) {
                    Err(e) => Err(e),
                    Ok(sources) => Ok((ops, sources)),
                },
            },
        };
        self.finish_start(i, outcome)
    }

    /// Records how stopping agent `i` went: on success it is stopped; on failure it
    /// stays as it is.
    fn finish_stop(&mut self, i: usize, outcome: Result<(), RuntimeFailure>) -> (r: Result<(), RuntimeFailure>)
        requires
            old(self).wf(),
            old(self).room(2),
            i < old(self).agents().len(),
        ensures
            final(self).wf(),
            match outcome {
                Ok(()) => r is Ok && only_changed(old(self).agents(), final(self).agents(), i as int) && rephased(
                    old(self).agents()[i as int],
                    final(self).agents()[i as int],
                    AgentPhase::Stop,
                ),
                Err(e) => r == Err::<(), RuntimeFailure>(e) && final(self).agents() == old(self).agents(),
            },
            logged(
                *old(self),
                *final(self),
                "agent.stop"@,
                if outcome is Ok { SpanStatus::Success } else { SpanStatus::Error },
                if outcome is Ok { "agent.stop"@ } else { "agent.stop.error"@ },
            ),
            outcome matches Err(e) ==> (final(self).recorded_events().last().error matches Some(x) && same_error(x, *e.0)),
    {
        let agent_id = self.agents[i].spec.agent_id.clone();
        match outcome {
            Ok(()) => {
                let ghost before = self.agents@;
                let mut st = self.take_agent(i);
                st.phase = AgentPhase::Stop;
                self.put_agent(i, st, Ghost(before));
                let _ = self.log_step(
                    Some(agent_id.as_str()),
                    "agent.stop",
                    None,
                    SpanStatus::Success,
                    RuntimeEventKind::Lifecycle,
                    "agent.stop",
                    None,
                );
                Ok(())
            },
            Err(e) => {
                let _ = self.log_step(
                    Some(agent_id.as_str()),
                    "agent.stop",
                    None,
                    SpanStatus::Error,
                    RuntimeEventKind::Lifecycle,
                    "agent.stop.error",
                    Some(e.0.copy()),
                );
                Err(e)
            },
        }
    }

    /// Puts an agent to sleep, then asks the backend to stop it. The agent is
    /// stopped when the backend agrees, and stays asleep when it refuses.
    pub fn stop_agent<B: RuntimeBackend>(&mut self, agent_id: &str, backend: &mut B) -> (r: Result<(), RuntimeFailure>)
        requires
            old(self).wf(),
            old(self).room(3),
        ensures
            final(self).wf(),
            !has_agent(old(self).agents(), agent_id@) ==> (r matches Err(e) && e.0.code@ == ERR_AGENT_NOT_FOUND@)
                && final(self).agents() == old(self).agents()
                && final(self).recorded_events() == old(self).recorded_events()
                && final(self).recorded_spans() == old(self).recorded_spans(),
            has_agent(old(self).agents(), agent_id@) ==> only_changed(
                old(self).agents(),
                final(self).agents(),
                agent_index(old(self).agents(), agent_id@),
            ) && rephased(
                old(self).agents()[agent_index(old(self).agents(), agent_id@)],
                final(self).agents()[agent_index(old(self).agents(), agent_id@)],
                if r is Ok { AgentPhase::Stop } else { AgentPhase::Sleep },
            ) && logged(
                *old(self),
                *final(self),
                "agent.stop"@,
                if r is Ok { SpanStatus::Success } else { SpanStatus::Error },
                if r is Ok { "agent.stop"@ } else { "agent.stop.error"@ },
            ),
    {
        let i = match self.find(agent_id) {
            Some(i) => i,
            None => {
                return Err(agent_failure(ERR_AGENT_NOT_FOUND, "runtime.stop.", agent_id));
            },
        };
        let ghost before = self.agents@;
        let ghost events0 = self.recorded_events();
        let mut st = self.take_agent(i);
        st.phase = AgentPhase::Sleep;
        self.put_agent(i, st, Ghost(before));
        self.emit_event(RuntimeEventKind::Lifecycle, "agent.sleep", Some(agent_id), None);
        let ghost asleep = *self;
        let outcome = backend.stop(agent_id);
        let r = self.finish_stop(i, outcome);
        proof {
            lemma_extends_trans(events0, asleep.recorded_events(), self.recorded_events());
        }
        r
    }

    /// Records the strategy's outcome for one tick and hands it back unchanged.
    fn finish_strategy(
        &mut self,
        agent_id: &str,
        ok_name: &str,
        error_name: &str,
        parent_span_id: Option<String>,
        outcome: Result<StrategyResult, RuntimeFailure>,
    ) -> (r: Result<StrategyResult, RuntimeFailure>)
        requires
            old(self).wf(),
            old(self).room(2),
            parent_ok(old(self).recorded_spans(), parent_span_id, trace_name(Some(agent_id))),
        ensures
            final(self).wf(),
            r == outcome,
            final(self).agents() == old(self).agents(),
            logged(
                *old(self),
                *final(self),
                "agent.strategy"@,
                if strategy_failed(outcome) { SpanStatus::Error } else { SpanStatus::Success },
                if strategy_failed(outcome) { error_name@ } else { ok_name@ },
            ),
            final(self).recorded_spans().len() == old(self).recorded_spans().len() + 1,
            final(self).recorded_spans().last().parent_span_id == parent_span_id,
            same_optional_error(final(self).recorded_events().last().error, strategy_error(outcome)),
    {
        let failed: bool;
        let error: Option<RuntimeError>;
        match &outcome {
            Ok(res) => {
                failed = res.status == StrategyResultStatus::Failed;
                error = if failed {
                    copy_optional_error(&res.error)
                } else {
                    None
                };
            },
            Err(e) => {
                failed = true;
                error = Some(e.0.copy());
            },
        }
        let status = if failed {
            SpanStatus::Error
        } else {
            SpanStatus::Success
        };
        let name = if failed {
            error_name
        } else {
            ok_name
        };
        let _ = self.log_step(
            Some(agent_id),
            "agent.strategy",
            parent_span_id,
            status,
            RuntimeEventKind::Lifecycle,
            name,
            error,
        );
        outcome
    }

    /// Runs one step of an awake agent: the oldest input in its inbox is handed to the
    /// strategy, or, with an empty inbox, the strategy is asked for its next step. The
    /// strategy's answer is handed back as it came.
    pub fn tick_once<B: RuntimeBackend>(&mut self, agent_id: &str, backend: &mut B) -> (r: Result<
        StrategyResult,
        RuntimeFailure,
    >)
        requires
            old(self).wf(),
            old(self).room(3),
        ensures
            final(self).wf(),
            !has_agent(old(self).agents(), agent_id@) ==> (r matches Err(e) && e.0.code@ == ERR_AGENT_NOT_FOUND@)
                && final(self).agents() == old(self).agents()
                && final(self).recorded_events() == old(self).recorded_events()
                && final(self).recorded_spans() == old(self).recorded_spans(),
            has_agent(old(self).agents(), agent_id@) ==> {
                let i = agent_index(old(self).agents(), agent_id@);
                let a = old(self).agents()[i];
                &&& a.phase != AgentPhase::Awake ==> (r matches Err(e) && e.0.code@ == ERR_AGENT_NOT_AWAKE@)
                    && final(self).agents() == old(self).agents()
                    && final(self).recorded_events() == old(self).recorded_events()
                    && final(self).recorded_spans() == old(self).recorded_spans()
                &&& a.phase == AgentPhase::Awake && a.inbox@.len() > 0 ==> only_changed(
                    old(self).agents(),
                    final(self).agents(),
                    i,
                ) && dequeued(a, final(self).agents()[i]) && logged(
                    *old(self),
                    *final(self),
                    "agent.strategy"@,
                    if strategy_failed(r) { SpanStatus::Error } else { SpanStatus::Success },
                    if strategy_failed(r) { "agent.input.error"@ } else { "agent.input"@ },
                ) && final(self).recorded_spans().len() == old(self).recorded_spans().len() + 2
                    && final(self).recorded_spans().last().parent_span_id == Some(
                    final(self).recorded_spans()[old(self).recorded_spans().len() as int].span_id,
                ) && final(self).recorded_spans()[old(self).recorded_spans().len() as int].name@ == "agent.input"@
                &&& a.phase == AgentPhase::Awake && a.inbox@.len() == 0 ==> final(self).agents() == old(self).agents()
                    && logged(
                    *old(self),
                    *final(self),
                    "agent.strategy"@,
                    if strategy_failed(r) { SpanStatus::Error } else { SpanStatus::Success },
                    if strategy_failed(r) { "agent.next_step.error"@ } else { "agent.next_step"@ },
                )
                &&& a.phase == AgentPhase::Awake ==> same_optional_error(
                    final(self).recorded_events().last().error,
                    strategy_error(r),
                )
            },
    {
        let i = match self.find(agent_id) {
            Some(i) => i,
            None => {
                return Err(agent_failure(ERR_AGENT_NOT_FOUND, "runtime.tick.", agent_id));
            },
        };
        if self.agents[i].phase != AgentPhase::Awake {
            return Err(agent_failure(ERR_AGENT_NOT_AWAKE, "runtime.tick.", agent_id));
        }
        if self.agents[i].inbox.len() > 0 {
            let ghost before = self.agents@;
            let ghost spans0 = self.recorded_spans();
            let ghost events0 = self.recorded_events();
            let mut st = self.take_agent(i);
            let envelope = st.inbox.remove(0);
            self.put_agent(i, st, Ghost(before));
            let input_span = self.emit_span(Some(agent_id), "agent.input", None, SpanStatus::Success);
            let ghost mid = *self;
            proof {
                let k = mid.recorded_spans().len() - 1;
                assert(mid.recorded_spans()[k] == mid.recorded_spans().last());
                assert(mid.recorded_spans()[k].span_id@ == input_span.span_id@);
                assert(mid.recorded_spans()[k].trace_id@ == trace_name(Some(agent_id)));
            }
            let outcome = backend.input(agent_id, envelope);
            let r = self.finish_strategy(
                agent_id,
                "agent.input",
                "agent.input.error",
                Some(input_span.span_id),
                outcome,
            );
            proof {
                lemma_extends_trans(events0, mid.recorded_events(), self.recorded_events());
                lemma_extends_trans(spans0, mid.recorded_spans(), self.recorded_spans());
                assert(self.recorded_spans()[spans0.len() as int] == mid.recorded_spans().last());
                assert(before[i as int].inbox@.drop_first() =~= self.agents@[i as int].inbox@);
            }
            r
        } else {
            let outcome = backend.next_step(agent_id);
            self.finish_strategy(agent_id, "agent.next_step", "agent.next_step.error", None, outcome)
        }
    }
}

/// Keeps the policy's answer only where it names one of the candidates.
fn accept_choice(found: &[ElectionCandidate], choice: Option<String>) -> (r: Option<String>)
    ensures
        match choice {
            Some(id) => if exists|k: int| 0 <= k < found@.len() && #[trigger] found@[k].agent_id@ == id@ {
                r == Some(id)
            } else {
                r is None
            },
            None => r is None,
        },
{
    match choice {
        Some(id) => {
            let mut k: usize = 0;
            while k < found.len()
                invariant
                    choice == Some(id),
                    0 <= k <= found@.len(),
                    forall|j: int| 0 <= j < k ==> (#[trigger] found@[j]).agent_id@ != id@,
                decreases found@.len() - k,
            {
                if str_eq(found[k].agent_id.as_str(), id.as_str()) {
                    assert(found@[k as int].agent_id@ == id@);
                    return Some(id);
                }
                k = k + 1;
            }
            None
        },
        None => None,
    }
}

} // verus!
