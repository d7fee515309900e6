//! Routing of the plugin ABI: which handler serves a request on the guest (plugin)
//! side and on the host side, and the initialization state of a configured guest.
//! A refusal names the response opcode, the error route and its detail.
use vstd::prelude::*;
use vstd::string::*;

use crate::jsonl::{hex16, hex16_text};
use crate::protocol::{Opcode, WireCodecError};
use crate::schema::operation_type_names;
use crate::text::str_eq;

verus! {

/// A request the ABI answers with an error instead of a handler.
#[derive(Clone, Debug, PartialEq, Eq)]
pub struct AbiRefusal {
    pub opcode: Opcode,
    pub route: String,
    pub detail: String,
}

/// `refusal` answers `opcode` on `route` with `detail`.
pub open spec fn refuses(refusal: AbiRefusal, opcode: Opcode, route: Seq<char>, detail: Seq<char>) -> bool {
    refusal.opcode == opcode && refusal.route@ == route && refusal.detail@ == detail
}

fn refusal(opcode: Opcode, route: &str, detail: String) -> (r: AbiRefusal)
    ensures
        refuses(r, opcode, route@, detail@),
{
    AbiRefusal { opcode, route: String::from_str(route), detail }
}

/// The work a guest hands to one of its runners or resource providers.
#[derive(Clone, Copy, Debug, PartialEq, Eq)]
pub enum GuestCall {
    RunBatch,
    CancelRunner,
    DisposeRunner,
    CreateBlob,
    CreateCowState,
    CreateCapability,
    CollectReadPlan,
    SnapshotReadPlan,
    OpenStreamPlan,
    ExportPlan,
    CommitWritePlan,
    CommandPlan,
    CommandBatch,
    SagaPlan,
}

/// The runner operation an opcode asks a guest for.
pub open spec fn runner_call(opcode: Opcode) -> Option<GuestCall> {
    match opcode {
        Opcode::RunnerRunBatch => Some(GuestCall::RunBatch),
        Opcode::RunnerCancel => Some(GuestCall::CancelRunner),
        Opcode::RunnerDispose => Some(GuestCall::DisposeRunner),
        _ => None,
    }
}

/// The resource-provider operation an opcode asks a guest for.
pub open spec fn provider_call(opcode: Opcode) -> Option<GuestCall> {
    match opcode {
        Opcode::ResourceCreateBlob => Some(GuestCall::CreateBlob),
        Opcode::ResourceCreateCowState => Some(GuestCall::CreateCowState),
        Opcode::ResourceCreateCapability => Some(GuestCall::CreateCapability),
        Opcode::ResourceReadCollect => Some(GuestCall::CollectReadPlan),
        Opcode::ResourceReadSnapshot => Some(GuestCall::SnapshotReadPlan),
        Opcode::ResourceStreamOpen => Some(GuestCall::OpenStreamPlan),
        Opcode::ResourceExport => Some(GuestCall::ExportPlan),
        Opcode::ResourceWriteCommit => Some(GuestCall::CommitWritePlan),
        Opcode::ResourceCommand => Some(GuestCall::CommandPlan),
        Opcode::ResourceCommandBatch => Some(GuestCall::CommandBatch),
        Opcode::ResourceSaga => Some(GuestCall::SagaPlan),
        _ => None,
    }
}

/// The wire request type each guest call serves.
pub open spec fn guest_call_request(call: GuestCall) -> Seq<char> {
    match call {
        GuestCall::RunBatch => "RunBatchRequest"@,
        GuestCall::CancelRunner => "CancelRunnerRequest"@,
        GuestCall::DisposeRunner => "DisposeRunnerRequest"@,
        GuestCall::CreateBlob => "CreateBlobRequest"@,
        GuestCall::CreateCowState => "CreateCowStateRequest"@,
        GuestCall::CreateCapability => "CreateCapabilityRequest"@,
        GuestCall::CollectReadPlan => "CollectReadPlanRequest"@,
        GuestCall::SnapshotReadPlan => "SnapshotReadPlanRequest"@,
        GuestCall::OpenStreamPlan => "OpenStreamPlanRequest"@,
        GuestCall::ExportPlan => "ExportPlanRequest"@,
        GuestCall::CommitWritePlan => "CommitWritePlanRequest"@,
        GuestCall::CommandPlan => "CommandPlanRequest"@,
        GuestCall::CommandBatch => "CommandBatchRequest"@,
        GuestCall::SagaPlan => "SagaPlanRequest"@,
    }
}

/// A guest hands each request to the call that serves the request's own type:
/// the call chosen for an opcode serves the request type the schema registry
/// gives that opcode.
pub proof fn lemma_guest_calls_serve_their_opcode(opcode: Opcode)
    ensures
        runner_call(opcode) matches Some(c) ==> guest_call_request(c) == operation_type_names(opcode).0,
        provider_call(opcode) matches Some(c) ==> guest_call_request(c) == operation_type_names(opcode).0,
        runner_call(opcode) is Some || provider_call(opcode) is Some || opcode is PluginInitialize || opcode is TaskSubmitBatch
            || opcode is TaskCancel || opcode is TaskOutcome,
{
}

fn guest_calls(opcode: Opcode) -> (r: (Option<GuestCall>, Option<GuestCall>))
    ensures
        r == (runner_call(opcode), provider_call(opcode)),
{
    match opcode {
        Opcode::RunnerRunBatch => (Some(GuestCall::RunBatch), None),
        Opcode::RunnerCancel => (Some(GuestCall::CancelRunner), None),
        Opcode::RunnerDispose => (Some(GuestCall::DisposeRunner), None),
        Opcode::ResourceCreateBlob => (None, Some(GuestCall::CreateBlob)),
        Opcode::ResourceCreateCowState => (None, Some(GuestCall::CreateCowState)),
        Opcode::ResourceCreateCapability => (None, Some(GuestCall::CreateCapability)),
        Opcode::ResourceReadCollect => (None, Some(GuestCall::CollectReadPlan)),
        Opcode::ResourceReadSnapshot => (None, Some(GuestCall::SnapshotReadPlan)),
        Opcode::ResourceStreamOpen => (None, Some(GuestCall::OpenStreamPlan)),
        Opcode::ResourceExport => (None, Some(GuestCall::ExportPlan)),
        Opcode::ResourceWriteCommit => (None, Some(GuestCall::CommitWritePlan)),
        Opcode::ResourceCommand => (None, Some(GuestCall::CommandPlan)),
        Opcode::ResourceCommandBatch => (None, Some(GuestCall::CommandBatch)),
        Opcode::ResourceSaga => (None, Some(GuestCall::SagaPlan)),
        _ => (None, None),
    }
}

/// Where a guest sends a request.
#[derive(Clone, Debug, PartialEq, Eq)]
pub enum GuestRoute {
    /// The initialization handshake.
    Initialize,
    /// The runner at this position of the guest's runner ids.
    Runner { call: GuestCall, runner: usize },
    /// The provider at this position of the guest's provider ids.
    Provider { call: GuestCall, provider: usize },
    Refuse(AbiRefusal),
}

/// The position of the first of `ids` equal to `id`.
pub open spec fn first_position(ids: Seq<String>, id: Seq<char>, k: int) -> bool {
    0 <= k < ids.len() && ids[k]@ == id && forall|j: int| 0 <= j < k ==> (#[trigger] ids[j])@ != id
}

pub open spec fn has_id(ids: Seq<String>, id: Seq<char>) -> bool {
    exists|k: int| 0 <= k < ids.len() && (#[trigger] ids[k])@ == id
}

fn find_id(ids: &[String], id: &str) -> (r: Option<usize>)
    ensures
        match r {
            Some(k) => first_position(ids@, id@, k as int),
            None => !has_id(ids@, id@),
        },
{
    let mut k: usize = 0;
    while k < ids.len()
        invariant
            0 <= k <= ids@.len(),
            forall|j: int| 0 <= j < k ==> (#[trigger] ids@[j])@ != id@,
        decreases ids@.len() - k,
    {
        if str_eq(ids[k].as_str(), id) {
            return Some(k);
        }
        k = k + 1;
    }
    None
}

/// The answer for an opcode no handler serves on one side: `side` is "guest" or "host".
pub open spec fn unsupported_detail(side: Seq<char>, opcode: Opcode) -> Seq<char> {
    "unsupported "@ + side + " opcode "@ + hex16(opcode.code())
}

fn unsupported(side: &str, route: &str, opcode: Opcode) -> (r: AbiRefusal)
    ensures
        refuses(r, opcode, route@, unsupported_detail(side@, opcode)),
{
    let mut detail = String::from_str("unsupported ");
    detail.append(side);
    detail.append(" opcode ");
    detail.append(hex16_text(opcode.to_u16()).as_str());
    refusal(opcode, route, detail)
}

/// Routes a request inside a guest that holds the runners `runner_ids` and the
/// providers `provider_ids`. Initialization is accepted once; every other request
/// waits for it. Runner requests name their runner, provider requests may name
/// their provider; the remaining opcodes are the host's and are refused.
pub fn route_guest_request(
    initialized: bool,
    runner_ids: &[String],
    provider_ids: &[String],
    opcode: Opcode,
    runner_id: Option<&str>,
    provider_id: Option<&str>,
) -> (r: GuestRoute)
    requires
        runner_call(opcode) is Some ==> runner_id is Some,
    ensures
        opcode is PluginInitialize ==> if initialized {
            r matches GuestRoute::Refuse(a) && refuses(
                a,
                Opcode::PluginInitialize,
                "abi.already_initialized"@,
                "plugin.initialize may only be called once"@,
            )
        } else {
            r is Initialize
        },
        !(opcode is PluginInitialize) && !initialized ==> (r matches GuestRoute::Refuse(a) && refuses(
            a,
            opcode,
            "abi.not_initialized"@,
            "plugin.initialize must precede business requests"@,
        )),
        initialized && runner_call(opcode) is Some ==> match runner_id {
            Some(id) => if has_id(runner_ids@, id@) {
                r matches GuestRoute::Runner { call, runner } && call == runner_call(opcode)->0
                    && first_position(runner_ids@, id@, runner as int)
            } else {
                r matches GuestRoute::Refuse(a) && refuses(a, opcode, "abi.runner_not_found"@, id@)
            },
            None => false,
        },
        initialized && provider_call(opcode) is Some ==> match provider_id {
            None => r matches GuestRoute::Refuse(a) && refuses(
                a,
                opcode,
                "abi.provider_missing"@,
                "provider_id is required"@,
            ),
            Some(id) => if has_id(provider_ids@, id@) {
                r matches GuestRoute::Provider { call, provider } && call == provider_call(opcode)->0
                    && first_position(provider_ids@, id@, provider as int)
            } else {
                r matches GuestRoute::Refuse(a) && refuses(a, opcode, "abi.provider_not_found"@, id@)
            },
        },
        r matches GuestRoute::Runner { call, .. } ==> guest_call_request(call) == operation_type_names(opcode).0,
        r matches GuestRoute::Provider { call, .. } ==> guest_call_request(call) == operation_type_names(opcode).0,
        initialized && !(opcode is PluginInitialize) && runner_call(opcode) is None && provider_call(opcode)
            is None ==> (r matches GuestRoute::Refuse(a) && refuses(
            a,
            opcode,
            "abi.guest_opcode_unsupported"@,
            unsupported_detail("guest"@, opcode),
        )),
{
    if let Opcode::PluginInitialize = opcode {
        if initialized {
            return GuestRoute::Refuse(
                refusal(
                    Opcode::PluginInitialize,
                    "abi.already_initialized",
                    String::from_str("plugin.initialize may only be called once"),
                ),
            );
        }
        return GuestRoute::Initialize;
    }
    if !initialized {
        return GuestRoute::Refuse(
            refusal(opcode, "abi.not_initialized", String::from_str("plugin.initialize must precede business requests")),
        );
    }
    let (runner, provider) = guest_calls(opcode);
    if let Some(call) = runner {
        let id = runner_id.unwrap();
        return match find_id(runner_ids, id) {
            Some(k) => GuestRoute::Runner { call, runner: k },
            None => GuestRoute::Refuse(refusal(opcode, "abi.runner_not_found", String::from_str(id))),
        };
    }
    if let Some(call) = provider {
        return match provider_id {
            None => GuestRoute::Refuse(
                refusal(opcode, "abi.provider_missing", String::from_str("provider_id is required")),
            ),
            Some(id) => match find_id(provider_ids, id) {
                Some(k) => GuestRoute::Provider { call, provider: k },
                None => GuestRoute::Refuse(refusal(opcode, "abi.provider_not_found", String::from_str(id))),
            },
        };
    }
    GuestRoute::Refuse(unsupported("guest", "abi.guest_opcode_unsupported", opcode))
}

/// Where a configured guest stands: no initialization tried yet, one tried and
/// failed, or a plugin built and initialized.
#[derive(Clone, Copy, Debug, PartialEq, Eq)]
pub enum ConfiguredGuestState {
    Fresh,
    Attempted,
    Ready,
}

/// What a configured guest does with a request.
#[derive(Clone, Debug, PartialEq, Eq)]
pub enum ConfiguredGuestAction {
    /// Hand the request to the initialized plugin.
    Delegate,
    /// Build the plugin from its configuration and initialize it.
    Initialize,
    Refuse(AbiRefusal),
}

/// One request to a configured guest: a ready guest delegates everything; before
/// that, only a first initialization is accepted. Once tried, initialization is
/// never tried again and the guest never returns to fresh.
pub fn configured_guest_step(state: ConfiguredGuestState, opcode: Opcode) -> (r: (
    ConfiguredGuestState,
    ConfiguredGuestAction,
))
    ensures
        state is Ready ==> r == (ConfiguredGuestState::Ready, ConfiguredGuestAction::Delegate),
        !(state is Ready) && !(opcode is PluginInitialize) ==> r.0 == state && (r.1 matches ConfiguredGuestAction::Refuse(
            a,
        ) && refuses(a, opcode, "abi.not_initialized"@, "plugin.initialize must precede business requests"@)),
        state is Attempted && opcode is PluginInitialize ==> r.0 == state && (r.1 matches ConfiguredGuestAction::Refuse(
            a,
        ) && refuses(
            a,
            Opcode::PluginInitialize,
            "abi.already_initialized"@,
            "plugin.initialize may only be called once"@,
        )),
        state is Fresh && opcode is PluginInitialize ==> r == (
            ConfiguredGuestState::Attempted,
            ConfiguredGuestAction::Initialize,
        ),
        !(state is Fresh) ==> !(r.1 is Initialize) && !(r.0 is Fresh),
{
    match state {
        ConfiguredGuestState::Ready => (ConfiguredGuestState::Ready, ConfiguredGuestAction::Delegate),
        _ => {
            if let Opcode::PluginInitialize = opcode {
                if let ConfiguredGuestState::Attempted = state {
                    (
                        state,
                        ConfiguredGuestAction::Refuse(
                            refusal(
                                Opcode::PluginInitialize,
                                "abi.already_initialized",
                                String::from_str("plugin.initialize may only be called once"),
                            ),
                        ),
                    )
                } else {
                    (ConfiguredGuestState::Attempted, ConfiguredGuestAction::Initialize)
                }
            } else {
                (
                    state,
                    ConfiguredGuestAction::Refuse(
                        refusal(
                            opcode,
                            "abi.not_initialized",
                            String::from_str("plugin.initialize must precede business requests"),
                        ),
                    ),
                )
            }
        },
    }
}

/// The state after an initialization was tried: ready when the plugin was built
/// and accepted the handshake.
pub fn finish_initialization(succeeded: bool) -> (r: ConfiguredGuestState)
    ensures
        r == (if succeeded { ConfiguredGuestState::Ready } else { ConfiguredGuestState::Attempted }),
{
    if succeeded {
        ConfiguredGuestState::Ready
    } else {
        ConfiguredGuestState::Attempted
    }
}

/// The host service that serves a request from a plugin.
#[derive(Clone, Copy, Debug, PartialEq, Eq)]
pub enum HostCall {
    SubmitTaskBatch,
    CancelTask,
    TaskOutcome,
    CollectReadPlan,
    SnapshotReadPlan,
    OpenStreamPlan,
    ExportPlan,
    CommitWritePlan,
    CommandPlan,
    CommandBatch,
    SagaPlan,
}

/// The host service for each opcode a plugin may send to its host.
pub open spec fn host_call(opcode: Opcode) -> Option<HostCall> {
    match opcode {
        Opcode::TaskSubmitBatch => Some(HostCall::SubmitTaskBatch),
        Opcode::TaskCancel => Some(HostCall::CancelTask),
        Opcode::TaskOutcome => Some(HostCall::TaskOutcome),
        Opcode::ResourceReadCollect => Some(HostCall::CollectReadPlan),
        Opcode::ResourceReadSnapshot => Some(HostCall::SnapshotReadPlan),
        Opcode::ResourceStreamOpen => Some(HostCall::OpenStreamPlan),
        Opcode::ResourceExport => Some(HostCall::ExportPlan),
        Opcode::ResourceWriteCommit => Some(HostCall::CommitWritePlan),
        Opcode::ResourceCommand => Some(HostCall::CommandPlan),
        Opcode::ResourceCommandBatch => Some(HostCall::CommandBatch),
        Opcode::ResourceSaga => Some(HostCall::SagaPlan),
        _ => None,
    }
}

/// The wire request type each host service serves.
pub open spec fn host_call_request(call: HostCall) -> Seq<char> {
    match call {
        HostCall::SubmitTaskBatch => "SubmitTaskBatchRequest"@,
        HostCall::CancelTask => "CancelTaskRequest"@,
        HostCall::TaskOutcome => "TaskOutcomeRequest"@,
        HostCall::CollectReadPlan => "CollectReadPlanRequest"@,
        HostCall::SnapshotReadPlan => "SnapshotReadPlanRequest"@,
        HostCall::OpenStreamPlan => "OpenStreamPlanRequest"@,
        HostCall::ExportPlan => "ExportPlanRequest"@,
        HostCall::CommitWritePlan => "CommitWritePlanRequest"@,
        HostCall::CommandPlan => "CommandPlanRequest"@,
        HostCall::CommandBatch => "CommandBatchRequest"@,
        HostCall::SagaPlan => "SagaPlanRequest"@,
    }
}

/// The host hands each request to the service that serves the request's own type.
pub proof fn lemma_host_calls_serve_their_opcode(opcode: Opcode)
    ensures
        host_call(opcode) matches Some(c) ==> host_call_request(c) == operation_type_names(opcode).0,
{
}

/// Where the host sends a plugin's request.
#[derive(Clone, Debug, PartialEq, Eq)]
pub enum HostRoute {
    Call(HostCall),
    Refuse(AbiRefusal),
    /// The request did not decode; it has no trustworthy request id, and the
    /// error is answered on route `abi.host_decode`.
    Undecodable(WireCodecError),
}

/// Routes a plugin's request to the host service for its opcode; a request that
/// did not decode, or whose opcode the host does not serve, is answered with an
/// error.
pub fn route_host_request(decoded: Result<Opcode, WireCodecError>) -> (r: HostRoute)
    ensures
        match decoded {
            Err(e) => r == HostRoute::Undecodable(e),
            Ok(opcode) => match host_call(opcode) {
                Some(call) => r == HostRoute::Call(call),
                None => r matches HostRoute::Refuse(a) && refuses(
                    a,
                    opcode,
                    "abi.host_opcode_unsupported"@,
                    unsupported_detail("host"@, opcode),
                ),
            },
        },
        decoded is Ok && r is Call ==> host_call_request(r->Call_0) == operation_type_names(decoded->Ok_0).0,
{
    let opcode = match decoded {
        Err(e) => {
            return HostRoute::Undecodable(e);
        },
        Ok(opcode) => opcode,
    };
    match opcode {
        Opcode::TaskSubmitBatch => HostRoute::Call(HostCall::SubmitTaskBatch),
        Opcode::TaskCancel => HostRoute::Call(HostCall::CancelTask),
        Opcode::TaskOutcome => HostRoute::Call(HostCall::TaskOutcome),
        Opcode::ResourceReadCollect => HostRoute::Call(HostCall::CollectReadPlan),
        Opcode::ResourceReadSnapshot => HostRoute::Call(HostCall::SnapshotReadPlan),
        Opcode::ResourceStreamOpen => HostRoute::Call(HostCall::OpenStreamPlan),
        Opcode::ResourceExport => HostRoute::Call(HostCall::ExportPlan),
        Opcode::ResourceWriteCommit => HostRoute::Call(HostCall::CommitWritePlan),
        Opcode::ResourceCommand => HostRoute::Call(HostCall::CommandPlan),
        Opcode::ResourceCommandBatch => HostRoute::Call(HostCall::CommandBatch),
        Opcode::ResourceSaga => HostRoute::Call(HostCall::SagaPlan),
        _ => HostRoute::Refuse(unsupported("host", "abi.host_opcode_unsupported", opcode)),
    }
}

} // verus!
