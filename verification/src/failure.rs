//! Structured runtime errors and the constructors the runtime kernel reports with.
use vstd::prelude::*;
use vstd::string::*;

use crate::text::str_eq;

verus! {

pub const ERR_SCOPE_NO_MATCH: &'static str = "runtime.scope_no_match";

pub const ERR_SOURCE_UNREGISTERED: &'static str = "runtime.source_unregistered";

pub const ERR_RUNTIME_BACKEND_FAILED: &'static str = "runtime.backend_failed";

pub const ERR_RUNTIME_BACKEND_GENERATION_MISMATCH: &'static str = "runtime.backend_generation_mismatch";

pub const ERR_PLUGIN_DISABLED: &'static str = "runtime.plugin_disabled";

pub const ERR_PLUGIN_NOT_FOUND: &'static str = "runtime.plugin_not_found";

pub const ERR_AGENT_NOT_FOUND: &'static str = "runtime.agent_not_found";

pub const ERR_AGENT_ALREADY_REGISTERED: &'static str = "runtime.agent_already_registered";

pub const ERR_AGENT_NOT_AWAKE: &'static str = "runtime.agent_not_awake";

/// A scalar attribute or evidence value.
#[derive(Clone, Debug, PartialEq, Eq)]
pub enum ScalarValue {
    String(String),
    Int(i64),
    Bool(bool),
}

impl ScalarValue {
    pub fn copy(&self) -> (r: Self)
        ensures
            r == *self,
    {
        match self {
            ScalarValue::String(s) => ScalarValue::String(s.clone()),
            ScalarValue::Int(i) => ScalarValue::Int(*i),
            ScalarValue::Bool(b) => ScalarValue::Bool(*b),
        }
    }
}

/// A list of keyed scalar values in which every key occurs once.
pub open spec fn entries_insert(
    entries: Seq<(String, ScalarValue)>,
    key: String,
    value: ScalarValue,
) -> Seq<(String, ScalarValue)> {
    if exists|i: int| 0 <= i < entries.len() && entries[i].0@ == key@ {
        let i = choose|i: int| 0 <= i < entries.len() && entries[i].0@ == key@;
        entries.update(i, (entries[i].0, value))
    } else {
        entries.push((key, value))
    }
}

/// No key occurs twice.
pub open spec fn keys_unique(entries: Seq<(String, ScalarValue)>) -> bool {
    forall|i: int, j: int|
        0 <= i < j < entries.len() ==> #[trigger] entries[i].0@ != #[trigger] entries[j].0@
}

/// Copies keyed scalar values.
pub fn copy_entries(entries: &Vec<(String, ScalarValue)>) -> (r: Vec<(String, ScalarValue)>)
    ensures
        r@ == entries@,
{
    let mut out: Vec<(String, ScalarValue)> = Vec::new();
    let mut i: usize = 0;
    while i < entries.len()
        invariant
            0 <= i <= entries.len(),
            out@ == entries@.take(i as int),
        decreases entries.len() - i,
    {
        let (k, v) = &entries[i];
        out.push((k.clone(), v.copy()));
        i = i + 1;
        assert(out@ =~= entries@.take(i as int));
    }
    assert(entries@.take(entries.len() as int) =~= entries@);
    out
}

/// Sets `key` to `value`, replacing an earlier value of the same key.
pub fn insert_entry(entries: &mut Vec<(String, ScalarValue)>, key: String, value: ScalarValue)
    requires
        keys_unique(old(entries)@),
    ensures
        final(entries)@ == entries_insert(old(entries)@, key, value),
        keys_unique(final(entries)@),
{
    let mut i: usize = 0;
    while i < entries.len()
        invariant
            0 <= i <= entries.len(),
            entries@ == old(entries)@,
            keys_unique(entries@),
            forall|j: int| 0 <= j < i ==> entries@[j].0@ != key@,
        decreases entries.len() - i,
    {
        if str_eq(entries[i].0.as_str(), key.as_str()) {
            let ghost witness = i as int;
            proof {
                let c = choose|j: int| 0 <= j < entries@.len() && entries@[j].0@ == key@;
                assert(c == witness) by {
                    if c != witness {
                        if c < witness {
                            assert(entries@[c].0@ != entries@[witness].0@);
                        } else {
                            assert(entries@[witness].0@ != entries@[c].0@);
                        }
                    }
                }
            }
            let old_key = entries[i].0.clone();
            entries.set(i, (old_key, value));
            return;
        }
        i = i + 1;
    }
    entries.push((key, value));
}

/// The structured error of the runtime contracts.
#[derive(Clone, Debug, PartialEq, Eq)]
pub struct RuntimeError {
    pub code: String,
    pub source: String,
    pub route: String,
    pub evidence: Vec<(String, ScalarValue)>,
}

/// Two errors carry the same code, source, route and evidence.
pub open spec fn same_error(a: RuntimeError, b: RuntimeError) -> bool {
    a.code == b.code && a.source == b.source && a.route == b.route && a.evidence@ == b.evidence@
}

impl RuntimeError {
    pub fn new(code: &str, source: &str, route: &str) -> (r: Self)
        ensures
            r.code@ == code@,
            r.source@ == source@,
            r.route@ == route@,
            r.evidence@.len() == 0,
    {
        RuntimeError {
            code: String::from_str(code),
            source: String::from_str(source),
            route: String::from_str(route),
            evidence: Vec::new(),
        }
    }

    pub fn copy(&self) -> (r: Self)
        ensures
            same_error(r, *self),
    {
        RuntimeError {
            code: self.code.clone(),
            source: self.source.clone(),
            route: self.route.clone(),
            evidence: copy_entries(&self.evidence),
        }
    }

    /// Records one piece of evidence, replacing an earlier value for the same key.
    pub fn insert_evidence(&mut self, key: String, value: ScalarValue)
        requires
            keys_unique(old(self).evidence@),
        ensures
            final(self).code == old(self).code,
            final(self).source == old(self).source,
            final(self).route == old(self).route,
            final(self).evidence@ == entries_insert(old(self).evidence@, key, value),
            keys_unique(final(self).evidence@),
    {
        insert_entry(&mut self.evidence, key, value);
    }
}

/// The error type of runtime operations.
#[derive(Debug)]
pub struct RuntimeFailure(pub Box<RuntimeError>);

impl RuntimeFailure {
    pub fn new(error: RuntimeError) -> (r: Self)
        ensures
            *r.0 == error,
    {
        RuntimeFailure(Box::new(error))
    }

    pub fn error(&self) -> (r: &RuntimeError)
        ensures
            *r == *self.0,
    {
        &self.0
    }
}

/// The error reported when no registered agent accepts an input.
pub fn scope_no_match_error() -> (r: RuntimeError)
    ensures
        r.code@ == ERR_SCOPE_NO_MATCH@,
        r.source@ == "runtime.route"@,
        r.route@ == "runtime.publish"@,
        r.evidence@.len() == 0,
{
    RuntimeError::new(ERR_SCOPE_NO_MATCH, "runtime.route", "runtime.publish")
}

/// The error reported when a backend call fails.
pub fn backend_failed(source: &str, route: &str) -> (r: RuntimeError)
    ensures
        r.code@ == ERR_RUNTIME_BACKEND_FAILED@,
        r.source@ == source@,
        r.route@ == route@,
        r.evidence@.len() == 0,
{
    RuntimeError::new(ERR_RUNTIME_BACKEND_FAILED, source, route)
}

/// An operation that is not active is refused before its backend is invoked.
pub fn operation_not_active_failure(
    plugin_id: &str,
    operation_status: &str,
    agent_id: &str,
    op_id: &str,
) -> (r: RuntimeFailure)
    ensures
        r.0.code@ == ERR_RUNTIME_BACKEND_FAILED@,
        r.0.source@ == plugin_id@,
        r.0.route@ == "runtime.invoke."@ + agent_id@ + "."@ + op_id@,
        r.0.evidence@.len() == 1,
        r.0.evidence@[0].0@ == "operation_status"@,
        r.0.evidence@[0].1 matches ScalarValue::String(s) && s@ == operation_status@,
{
    let mut route = String::from_str("runtime.invoke.");
    route.append(agent_id);
    route.append(".");
    route.append(op_id);
    let mut err = backend_failed(plugin_id, route.as_str());
    err.evidence.push(
        (String::from_str("operation_status"), ScalarValue::String(String::from_str(operation_status))),
    );
    RuntimeFailure::new(err)
}

/// An input from a source that no agent registered is refused.
pub fn source_unregistered_failure(source_id: &str) -> (r: RuntimeFailure)
    ensures
        r.0.code@ == ERR_SOURCE_UNREGISTERED@,
        r.0.source@ == "runtime.source_registry"@,
        r.0.route@ == "runtime.publish."@ + source_id@,
        r.0.evidence@.len() == 1,
        r.0.evidence@[0].0@ == "source_id"@,
        r.0.evidence@[0].1 matches ScalarValue::String(s) && s@ == source_id@,
{
    let mut route = String::from_str("runtime.publish.");
    route.append(source_id);
    let mut err = RuntimeError::new(ERR_SOURCE_UNREGISTERED, "runtime.source_registry", route.as_str());
    err.evidence.push((String::from_str("source_id"), ScalarValue::String(String::from_str(source_id))));
    RuntimeFailure::new(err)
}

/// An input from a registered source that no agent's scope accepts.
pub fn scope_no_match_failure(source_id: &str, payload_schema_id: &str) -> (r: RuntimeFailure)
    ensures
        r.0.code@ == ERR_SCOPE_NO_MATCH@,
        r.0.source@ == "runtime.route"@,
        r.0.route@ == "runtime.publish."@ + source_id@,
        r.0.evidence@.len() == 2,
        r.0.evidence@[0].0@ == "source_id"@,
        r.0.evidence@[0].1 matches ScalarValue::String(s) && s@ == source_id@,
        r.0.evidence@[1].0@ == "payload_schema_id"@,
        r.0.evidence@[1].1 matches ScalarValue::String(s) && s@ == payload_schema_id@,
{
    let mut err = scope_no_match_error();
    let mut route = String::from_str("runtime.publish.");
    route.append(source_id);
    err.route = route;
    err.evidence.push((String::from_str("source_id"), ScalarValue::String(String::from_str(source_id))));
    err.evidence.push(
        (
            String::from_str("payload_schema_id"),
            ScalarValue::String(String::from_str(payload_schema_id)),
        ),
    );
    RuntimeFailure::new(err)
}

fn plugin_failure(code: &str, plugin_id: &str, route: &str) -> (r: RuntimeError)
    ensures
        r.code@ == code@,
        r.source@ == "runtime.plugin_registry"@,
        r.route@ == route@,
        r.evidence@.len() == 1,
        r.evidence@[0].0@ == "plugin_id"@,
        r.evidence@[0].1 matches ScalarValue::String(s) && s@ == plugin_id@,
{
    let mut err = RuntimeError::new(code, "runtime.plugin_registry", route);
    err.evidence.push((String::from_str("plugin_id"), ScalarValue::String(String::from_str(plugin_id))));
    err
}

/// A request that names a disabled plugin.
pub fn plugin_disabled_failure(plugin_id: &str, route: &str) -> (r: RuntimeFailure)
    ensures
        r.0.code@ == ERR_PLUGIN_DISABLED@,
        r.0.source@ == "runtime.plugin_registry"@,
        r.0.route@ == route@,
        r.0.evidence@.len() == 1,
        r.0.evidence@[0].0@ == "plugin_id"@,
        r.0.evidence@[0].1 matches ScalarValue::String(s) && s@ == plugin_id@,
{
    RuntimeFailure::new(plugin_failure(ERR_PLUGIN_DISABLED, plugin_id, route))
}

/// A request that names an unknown plugin.
pub fn plugin_not_found_failure(plugin_id: &str, route: &str) -> (r: RuntimeFailure)
    ensures
        r.0.code@ == ERR_PLUGIN_NOT_FOUND@,
        r.0.source@ == "runtime.plugin_registry"@,
        r.0.route@ == route@,
        r.0.evidence@.len() == 1,
        r.0.evidence@[0].0@ == "plugin_id"@,
        r.0.evidence@[0].1 matches ScalarValue::String(s) && s@ == plugin_id@,
{
    RuntimeFailure::new(plugin_failure(ERR_PLUGIN_NOT_FOUND, plugin_id, route))
}

/// A request that names an outdated generation of a plugin. Generations are reported
/// as signed integers, as the evidence format has no unsigned integers.
pub fn plugin_generation_mismatch_failure(
    plugin_id: &str,
    expected: u64,
    actual: u64,
    route: &str,
) -> (r: RuntimeFailure)
    ensures
        r.0.code@ == ERR_RUNTIME_BACKEND_GENERATION_MISMATCH@,
        r.0.source@ == "runtime.plugin_registry"@,
        r.0.route@ == route@,
        r.0.evidence@.len() == 3,
        r.0.evidence@[0].0@ == "plugin_id"@,
        r.0.evidence@[0].1 matches ScalarValue::String(s) && s@ == plugin_id@,
        r.0.evidence@[1].0@ == "expected_generation"@,
        r.0.evidence@[1].1 == ScalarValue::Int(expected as i64),
        r.0.evidence@[2].0@ == "actual_generation"@,
        r.0.evidence@[2].1 == ScalarValue::Int(actual as i64),
{
    let mut err = plugin_failure(ERR_RUNTIME_BACKEND_GENERATION_MISMATCH, plugin_id, route);
    err.evidence.push((String::from_str("expected_generation"), ScalarValue::Int(expected as i64)));
    err.evidence.push((String::from_str("actual_generation"), ScalarValue::Int(actual as i64)));
    RuntimeFailure::new(err)
}

/// A request about an agent, refused with `code`; the route names the request and the agent.
pub fn agent_failure(code: &str, route_prefix: &str, agent_id: &str) -> (r: RuntimeFailure)
    ensures
        r.0.code@ == code@,
        r.0.source@ == "runtime.agent_registry"@,
        r.0.route@ == route_prefix@ + agent_id@,
        r.0.evidence@.len() == 1,
        r.0.evidence@[0].0@ == "agent_id"@,
        r.0.evidence@[0].1 matches ScalarValue::String(s) && s@ == agent_id@,
{
    let mut route = String::from_str(route_prefix);
    route.append(agent_id);
    let mut err = RuntimeError::new(code, "runtime.agent_registry", route.as_str());
    err.evidence.push((String::from_str("agent_id"), ScalarValue::String(String::from_str(agent_id))));
    RuntimeFailure::new(err)
}

} // verus!
