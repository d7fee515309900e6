//! The request and response type names of the published schema, and the hex
//! rendering used by the golden vectors.
use vstd::prelude::*;
use vstd::string::*;

use crate::protocol::Opcode;

verus! {

/// The schema names of the request and response types of `opcode`.
pub open spec fn operation_type_names(opcode: Opcode) -> (Seq<char>, Seq<char>) {
    match opcode {
        Opcode::PluginInitialize => ("InitializeRequest"@, "ProtocolHelloAck"@),
        Opcode::RunnerRunBatch => ("RunBatchRequest"@, "CompletionBatch"@),
        Opcode::RunnerCancel => ("CancelRunnerRequest"@, "Unit"@),
        Opcode::RunnerDispose => ("DisposeRunnerRequest"@, "Unit"@),
        Opcode::TaskSubmitBatch => ("SubmitTaskBatchRequest"@, "TaskHandle[]"@),
        Opcode::TaskCancel => ("CancelTaskRequest"@, "Unit"@),
        Opcode::TaskOutcome => ("TaskOutcomeRequest"@, "TaskOutcome?"@),
        Opcode::ResourceReadCollect => ("CollectReadPlanRequest"@, "Bytes"@),
        Opcode::ResourceReadSnapshot => ("SnapshotReadPlanRequest"@, "SnapshotDescriptor"@),
        Opcode::ResourceStreamOpen => ("OpenStreamPlanRequest"@, "StreamPlan"@),
        Opcode::ResourceExport => ("ExportPlanRequest"@, "PlanReceipt"@),
        Opcode::ResourceWriteCommit => ("CommitWritePlanRequest"@, "PlanReceipt"@),
        Opcode::ResourceCommand => ("CommandPlanRequest"@, "PlanReceipt"@),
        Opcode::ResourceCommandBatch => ("CommandBatchRequest"@, "PlanReceipt[]"@),
        Opcode::ResourceSaga => ("SagaPlanRequest"@, "PlanReceipt[]"@),
        Opcode::ResourceCreateBlob => ("CreateBlobRequest"@, "ResourceRef"@),
        Opcode::ResourceCreateCowState => ("CreateCowStateRequest"@, "ResourceRef"@),
        Opcode::ResourceCreateCapability => ("CreateCapabilityRequest"@, "ResourceRef"@),
    }
}

pub fn operation_types(opcode: Opcode) -> (r: (&'static str, &'static str))
    ensures
        (r.0@, r.1@) == operation_type_names(opcode),
{
    match opcode {
        Opcode::PluginInitialize => ("InitializeRequest", "ProtocolHelloAck"),
        Opcode::RunnerRunBatch => ("RunBatchRequest", "CompletionBatch"),
        Opcode::RunnerCancel => ("CancelRunnerRequest", "Unit"),
        Opcode::RunnerDispose => ("DisposeRunnerRequest", "Unit"),
        Opcode::TaskSubmitBatch => ("SubmitTaskBatchRequest", "TaskHandle[]"),
        Opcode::TaskCancel => ("CancelTaskRequest", "Unit"),
        Opcode::TaskOutcome => ("TaskOutcomeRequest", "TaskOutcome?"),
        Opcode::ResourceReadCollect => ("CollectReadPlanRequest", "Bytes"),
        Opcode::ResourceReadSnapshot => ("SnapshotReadPlanRequest", "SnapshotDescriptor"),
        Opcode::ResourceStreamOpen => ("OpenStreamPlanRequest", "StreamPlan"),
        Opcode::ResourceExport => ("ExportPlanRequest", "PlanReceipt"),
        Opcode::ResourceWriteCommit => ("CommitWritePlanRequest", "PlanReceipt"),
        Opcode::ResourceCommand => ("CommandPlanRequest", "PlanReceipt"),
        Opcode::ResourceCommandBatch => ("CommandBatchRequest", "PlanReceipt[]"),
        Opcode::ResourceSaga => ("SagaPlanRequest", "PlanReceipt[]"),
        Opcode::ResourceCreateBlob => ("CreateBlobRequest", "ResourceRef"),
        Opcode::ResourceCreateCowState => ("CreateCowStateRequest", "ResourceRef"),
        Opcode::ResourceCreateCapability => ("CreateCapabilityRequest", "ResourceRef"),
    }
}

pub open spec fn hex_digit(n: int) -> char {
    "0123456789abcdef"@[n]
}

/// Two lower-case hex digits per byte, most significant nibble first.
pub open spec fn hex_chars(bytes: Seq<u8>) -> Seq<char>
    decreases bytes.len(),
{
    if bytes.len() == 0 {
        Seq::empty()
    } else {
        hex_chars(bytes.drop_last()) + seq![
            hex_digit((bytes.last() / 16) as int),
            hex_digit((bytes.last() % 16) as int),
        ]
    }
}

fn hex_nibble(n: u8) -> (r: &'static str)
    requires
        n < 16,
    ensures
        r@ == seq![hex_digit(n as int)],
{
    let digits = "0123456789abcdef";
    proof {
        reveal_strlit("0123456789abcdef");
    }
    let r = digits.substring_ascii(n as usize, n as usize + 1);
    assert(r@ =~= seq![hex_digit(n as int)]);
    r
}

pub fn hex(bytes: &[u8]) -> (r: String)
    ensures
        r@ == hex_chars(bytes@),
{
    let mut out = String::new();
    let mut i: usize = 0;
    while i < bytes.len()
        invariant
            0 <= i <= bytes.len(),
            out@ == hex_chars(bytes@.take(i as int)),
        decreases bytes.len() - i,
    {
        let byte = bytes[i];
        out.append(hex_nibble(byte / 16));
        out.append(hex_nibble(byte % 16));
        assert(bytes@.take(i + 1).drop_last() =~= bytes@.take(i as int));
        i = i + 1;
    }
    assert(bytes@.take(bytes.len() as int) =~= bytes@);
    out
}

} // verus!
