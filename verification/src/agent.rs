//! Agents as the runtime sees them: their specs and scopes, lifecycle phases,
//! inputs and registries, the backend that drives them, and the rules by which an
//! input is routed to an agent.
use vstd::prelude::*;

use crate::election::ElectionCandidate;
use crate::failure::{RuntimeError, RuntimeFailure};
use crate::text::{has_prefix, starts_with, str_eq};

verus! {

#[verifier::external_type_specification]
#[verifier::external_body]
pub struct ExJsonValue(serde_json::Value);

#[derive(Clone, Copy, Debug, PartialEq, Eq, Structural)]
pub enum AgentParticipation {
    PrimaryCandidate,
    Observer,
    ExplicitHelper,
}

#[derive(Clone, Debug, PartialEq, Eq)]
pub enum ScopeRuleSpec {
    BySchema { schema_id: String },
    BySchemaPrefix { prefix: String },
    BySourceId { source_id: String },
}

#[derive(Clone, Debug, PartialEq, Eq)]
pub struct AgentSpec {
    pub agent_id: String,
    pub priority: i64,
    pub participation: AgentParticipation,
    pub accepts: Vec<ScopeRuleSpec>,
    pub strategy_id: String,
}

#[derive(Clone, Copy, Debug, PartialEq, Eq, Structural)]
pub enum AgentPhase {
    Spawn,
    Awake,
    Sleep,
    Stop,
}

#[derive(Clone, Debug, PartialEq, Eq)]
pub struct SourceRef {
    pub source_id: String,
    pub kind: String,
}

/// An input: where it comes from, what schema its payload has, and the payload.
#[derive(Debug)]
pub struct Envelope {
    pub id: String,
    pub source: SourceRef,
    pub payload_schema_id: String,
    pub payload: serde_json::Value,
}

#[derive(Clone, Debug, PartialEq, Eq)]
pub struct SourceDescriptor {
    pub source_id: String,
    pub kind: String,
}

#[derive(Clone, Debug, PartialEq, Eq)]
pub struct SourceSnapshot {
    pub plugin_id: String,
    pub descriptor: SourceDescriptor,
}

#[derive(Clone, Copy, Debug, PartialEq, Eq, Structural)]
pub enum OperationStatus {
    Active,
    Unhealthy,
    Disabled,
}

#[derive(Clone, Debug, PartialEq, Eq)]
pub struct OperationSnapshot {
    pub plugin_id: String,
    pub op_id: String,
    pub status: OperationStatus,
}

#[derive(Clone, Copy, Debug, PartialEq, Eq, Structural)]
pub enum StrategyResultStatus {
    Completed,
    WaitInput,
    Failed,
}

#[derive(Clone, Debug, PartialEq, Eq)]
pub struct StrategyResult {
    pub status: StrategyResultStatus,
    pub error: Option<RuntimeError>,
}

/// The strategy and plugin host behind the agents; supplied by the runtime's user.
pub trait RuntimeBackend {
    fn awake(&mut self, agent: &AgentSpec) -> Result<(), RuntimeFailure>;

    fn list_operations(&mut self, agent_id: &str) -> Result<Vec<OperationSnapshot>, RuntimeFailure>;

    fn list_sources(&mut self, agent_id: &str) -> Result<Vec<SourceSnapshot>, RuntimeFailure>;

    fn input(&mut self, agent_id: &str, envelope: Envelope) -> Result<StrategyResult, RuntimeFailure>;

    fn next_step(&mut self, agent_id: &str) -> Result<StrategyResult, RuntimeFailure>;

    fn stop(&mut self, agent_id: &str) -> Result<(), RuntimeFailure>;
}

/// One registered agent.
#[derive(Debug)]
pub struct AgentState {
    pub spec: AgentSpec,
    pub phase: AgentPhase,
    pub inbox: Vec<Envelope>,
    pub sources: Vec<SourceSnapshot>,
    pub operations: Vec<OperationSnapshot>,
}

#[derive(Clone, Debug, PartialEq)]
pub struct AgentSnapshot {
    pub spec: AgentSpec,
    pub phase: AgentPhase,
    pub inbox_len: usize,
}

pub open spec fn rule_matches(rule: ScopeRuleSpec, envelope: Envelope) -> bool {
    match rule {
        ScopeRuleSpec::BySchema { schema_id } => envelope.payload_schema_id@ == schema_id@,
        ScopeRuleSpec::BySchemaPrefix { prefix } => has_prefix(envelope.payload_schema_id@, prefix@),
        ScopeRuleSpec::BySourceId { source_id } => envelope.source.source_id@ == source_id@,
    }
}

/// Some rule of the agent's scope matches the envelope.
pub open spec fn accepts(spec: AgentSpec, envelope: Envelope) -> bool {
    exists|i: int| 0 <= i < spec.accepts@.len() && rule_matches(#[trigger] spec.accepts@[i], envelope)
}

/// The agent's sources include `source_id`.
pub open spec fn lists_source(state: AgentState, source_id: Seq<char>) -> bool {
    exists|j: int| 0 <= j < state.sources@.len() && #[trigger] state.sources@[j].descriptor.source_id@ == source_id
}

/// Some awake agent registered the source.
pub open spec fn source_registered(agents: Seq<AgentState>, source_id: Seq<char>) -> bool {
    exists|i: int| 0 <= i < agents.len() && (#[trigger] agents[i]).phase == AgentPhase::Awake && lists_source(agents[i], source_id)
}

/// The agent receives the envelope when it is published.
pub open spec fn routed(state: AgentState, envelope: Envelope) -> bool {
    state.phase == AgentPhase::Awake && accepts(state.spec, envelope)
}

/// The agent may be elected primary for the envelope.
pub open spec fn candidate(state: AgentState, envelope: Envelope) -> bool {
    routed(state, envelope) && state.spec.participation == AgentParticipation::PrimaryCandidate
}

/// The election candidates among the first `n` agents, in registration order.
pub open spec fn candidates_upto(agents: Seq<AgentState>, envelope: Envelope, n: int) -> Seq<ElectionCandidate>
    decreases n,
{
    if n <= 0 {
        Seq::empty()
    } else {
        let before = candidates_upto(agents, envelope, n - 1);
        if candidate(agents[n - 1], envelope) {
            before.push(ElectionCandidate { agent_id: agents[n - 1].spec.agent_id, priority: agents[n - 1].spec.priority })
        } else {
            before
        }
    }
}

/// The election candidates for `envelope`, in registration order.
pub open spec fn candidates(agents: Seq<AgentState>, envelope: Envelope) -> Seq<ElectionCandidate> {
    candidates_upto(agents, envelope, agents.len() as int)
}

/// The ids of the agents among the first `n` that receive `envelope`, in registration order.
pub open spec fn routed_ids_upto(agents: Seq<AgentState>, envelope: Envelope, n: int) -> Seq<Seq<char>>
    decreases n,
{
    if n <= 0 {
        Seq::empty()
    } else {
        let before = routed_ids_upto(agents, envelope, n - 1);
        if routed(agents[n - 1], envelope) {
            before.push(agents[n - 1].spec.agent_id@)
        } else {
            before
        }
    }
}

/// The ids of the agents that receive `envelope`, in registration order.
pub open spec fn routed_ids(agents: Seq<AgentState>, envelope: Envelope) -> Seq<Seq<char>> {
    routed_ids_upto(agents, envelope, agents.len() as int)
}

fn rule_matches_exec(rule: &ScopeRuleSpec, envelope: &Envelope) -> (r: bool)
    ensures
        r == rule_matches(*rule, *envelope),
{
    match rule {
        ScopeRuleSpec::BySchema { schema_id } => str_eq(
            envelope.payload_schema_id.as_str(),
            schema_id.as_str(),
        ),
        ScopeRuleSpec::BySchemaPrefix { prefix } => starts_with(
            envelope.payload_schema_id.as_str(),
            prefix.as_str(),
        ),
        ScopeRuleSpec::BySourceId { source_id } => str_eq(
            envelope.source.source_id.as_str(),
            source_id.as_str(),
        ),
    }
}

/// Whether the agent's scope accepts the envelope.
pub fn agent_accepts(spec: &AgentSpec, envelope: &Envelope) -> (r: bool)
    ensures
        r == accepts(*spec, *envelope),
{
    let mut i: usize = 0;
    while i < spec.accepts.len()
        invariant
            0 <= i <= spec.accepts@.len(),
            forall|j: int| 0 <= j < i ==> !rule_matches(#[trigger] spec.accepts@[j], *envelope),
        decreases spec.accepts@.len() - i,
    {
        if rule_matches_exec(&spec.accepts[i], envelope) {
            return true;
        }
        i = i + 1;
    }
    false
}

pub fn lists_source_exec(state: &AgentState, source_id: &str) -> (r: bool)
    ensures
        r == lists_source(*state, source_id@),
{
    let mut j: usize = 0;
    while j < state.sources.len()
        invariant
            0 <= j <= state.sources@.len(),
            forall|k: int| 0 <= k < j ==> (#[trigger] state.sources@[k]).descriptor.source_id@ != source_id@,
        decreases state.sources@.len() - j,
    {
        if str_eq(state.sources[j].descriptor.source_id.as_str(), source_id) {
            return true;
        }
        j = j + 1;
    }
    false
}

/// Wraps `<serde_json::Value as Clone>::clone`, which `derive(Clone)` writes for
/// `Value`: the copy equals the value it is made from.
#[verifier::external_body]
fn copy_payload(payload: &serde_json::Value) -> (r: serde_json::Value)
    ensures
        r == *payload,
{
    payload.clone()
}

impl Envelope {
    pub fn copy(&self) -> (r: Self)
        ensures
            r == *self,
    {
        Envelope {
            id: self.id.clone(),
            source: SourceRef { source_id: self.source.source_id.clone(), kind: self.source.kind.clone() },
            payload_schema_id: self.payload_schema_id.clone(),
            payload: copy_payload(&self.payload),
        }
    }
}

impl ScopeRuleSpec {
    pub fn copy(&self) -> (r: Self)
        ensures
            r == *self,
    {
        match self {
            ScopeRuleSpec::BySchema { schema_id } => ScopeRuleSpec::BySchema { schema_id: schema_id.clone() },
            ScopeRuleSpec::BySchemaPrefix { prefix } => ScopeRuleSpec::BySchemaPrefix { prefix: prefix.clone() },
            ScopeRuleSpec::BySourceId { source_id } => ScopeRuleSpec::BySourceId { source_id: source_id.clone() },
        }
    }
}

/// Two specs agree field by field.
pub open spec fn same_spec(a: AgentSpec, b: AgentSpec) -> bool {
    a.agent_id == b.agent_id && a.priority == b.priority && a.participation == b.participation
        && a.accepts@ == b.accepts@ && a.strategy_id == b.strategy_id
}

impl AgentSpec {
    pub fn copy(&self) -> (r: Self)
        ensures
            same_spec(r, *self),
    {
        let mut accepts: Vec<ScopeRuleSpec> = Vec::new();
        let mut i: usize = 0;
        while i < self.accepts.len()
            invariant
                0 <= i <= self.accepts@.len(),
                accepts@ == self.accepts@.take(i as int),
            decreases self.accepts@.len() - i,
        {
            accepts.push(self.accepts[i].copy());
            i = i + 1;
            assert(accepts@ =~= self.accepts@.take(i as int));
        }
        assert(self.accepts@.take(self.accepts@.len() as int) =~= self.accepts@);
        AgentSpec {
            agent_id: self.agent_id.clone(),
            priority: self.priority,
            participation: self.participation,
            accepts,
            strategy_id: self.strategy_id.clone(),
        }
    }
}

impl SourceSnapshot {
    pub fn copy(&self) -> (r: Self)
        ensures
            r == *self,
    {
        SourceSnapshot {
            plugin_id: self.plugin_id.clone(),
            descriptor: SourceDescriptor {
                source_id: self.descriptor.source_id.clone(),
                kind: self.descriptor.kind.clone(),
            },
        }
    }
}

impl OperationSnapshot {
    pub fn copy(&self) -> (r: Self)
        ensures
            r == *self,
    {
        OperationSnapshot { plugin_id: self.plugin_id.clone(), op_id: self.op_id.clone(), status: self.status }
    }
}

/// No two agents share an id.
pub open spec fn ids_unique(agents: Seq<AgentState>) -> bool {
    forall|i: int, j: int|
        0 <= i < j < agents.len() ==> #[trigger] agents[i].spec.agent_id@ != #[trigger] agents[j].spec.agent_id@
}

/// Some agent has the id.
pub open spec fn has_agent(agents: Seq<AgentState>, agent_id: Seq<char>) -> bool {
    exists|i: int| 0 <= i < agents.len() && (#[trigger] agents[i]).spec.agent_id@ == agent_id
}



} // verus!
