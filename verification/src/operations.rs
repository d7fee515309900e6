//! The typed requests whose fields are plain values, and the inline-resource rule:
//! large resource bytes must travel as a resource reference or a stream.
use vstd::prelude::*;

use crate::protocol::{Opcode, WireCodecError, WireLimits};

verus! {

/// Inline resource bytes above the limit are refused.
pub fn validate_inline_resource_bytes(length: usize, limits: WireLimits) -> (r: Result<
    (),
    WireCodecError,
>)
    ensures
        r is Ok <==> length <= limits.max_inline_resource_bytes,
        r is Err ==> r == Err::<(), WireCodecError>(
            WireCodecError::InlineResourceOversized {
                actual: length,
                limit: limits.max_inline_resource_bytes,
            },
        ),
{
    if length > limits.max_inline_resource_bytes {
        return Err(
            WireCodecError::InlineResourceOversized {
                actual: length,
                limit: limits.max_inline_resource_bytes,
            },
        );
    }
    Ok(())
}

/// A request of the wire registry: its opcode, and the checks it must pass
/// under the connection's limits before it is encoded or after it is decoded.
pub trait WireRequest {
    spec fn request_opcode() -> Opcode;

    /// How many resource bytes the request carries inline (0 for none).
    spec fn inline_bytes(&self) -> nat;

    fn opcode() -> (r: Opcode)
        ensures
            r == Self::request_opcode(),
    ;

    fn validate(&self, limits: WireLimits) -> (r: Result<(), WireCodecError>)
        ensures
            r is Ok <==> self.inline_bytes() <= limits.max_inline_resource_bytes,
            r is Err ==> r == Err::<(), WireCodecError>(
                WireCodecError::InlineResourceOversized {
                    actual: self.inline_bytes() as usize,
                    limit: limits.max_inline_resource_bytes,
                },
            ),
    ;
}

#[derive(Clone, Debug, PartialEq, Eq)]
pub struct CancelRunnerRequest {
    pub runner_id: String,
    pub invocation_id: String,
}

#[derive(Clone, Debug, PartialEq, Eq)]
pub struct DisposeRunnerRequest {
    pub runner_id: String,
}

#[derive(Clone, Debug, PartialEq, Eq)]
pub struct CreateBlobRequest {
    pub provider_id: Option<String>,
    pub schema: String,
    pub bytes: Vec<u8>,
}

#[derive(Clone, Debug, PartialEq, Eq)]
pub struct CreateCowStateRequest {
    pub provider_id: Option<String>,
    pub kind_id: String,
    pub schema: String,
    pub bytes: Vec<u8>,
}

#[derive(Clone, Debug, PartialEq, Eq)]
pub struct CreateCapabilityRequest {
    pub provider_id: Option<String>,
    pub kind_id: String,
    pub schema: String,
}

impl WireRequest for CancelRunnerRequest {
    open spec fn request_opcode() -> Opcode {
        Opcode::RunnerCancel
    }

    open spec fn inline_bytes(&self) -> nat {
        0
    }

    fn opcode() -> (r: Opcode) {
        Opcode::RunnerCancel
    }

    fn validate(&self, limits: WireLimits) -> (r: Result<(), WireCodecError>) {
        Ok(())
    }
}

impl WireRequest for DisposeRunnerRequest {
    open spec fn request_opcode() -> Opcode {
        Opcode::RunnerDispose
    }

    open spec fn inline_bytes(&self) -> nat {
        0
    }

    fn opcode() -> (r: Opcode) {
        Opcode::RunnerDispose
    }

    fn validate(&self, limits: WireLimits) -> (r: Result<(), WireCodecError>) {
        Ok(())
    }
}

impl WireRequest for CreateBlobRequest {
    open spec fn request_opcode() -> Opcode {
        Opcode::ResourceCreateBlob
    }

    open spec fn inline_bytes(&self) -> nat {
        self.bytes@.len()
    }

    fn opcode() -> (r: Opcode) {
        Opcode::ResourceCreateBlob
    }

    fn validate(&self, limits: WireLimits) -> (r: Result<(), WireCodecError>) {
        validate_inline_resource_bytes(self.bytes.len(), limits)
    }
}

impl WireRequest for CreateCowStateRequest {
    open spec fn request_opcode() -> Opcode {
        Opcode::ResourceCreateCowState
    }

    open spec fn inline_bytes(&self) -> nat {
        self.bytes@.len()
    }

    fn opcode() -> (r: Opcode) {
        Opcode::ResourceCreateCowState
    }

    fn validate(&self, limits: WireLimits) -> (r: Result<(), WireCodecError>) {
        validate_inline_resource_bytes(self.bytes.len(), limits)
    }
}

impl WireRequest for CreateCapabilityRequest {
    open spec fn request_opcode() -> Opcode {
        Opcode::ResourceCreateCapability
    }

    open spec fn inline_bytes(&self) -> nat {
        0
    }

    fn opcode() -> (r: Opcode) {
        Opcode::ResourceCreateCapability
    }

    fn validate(&self, limits: WireLimits) -> (r: Result<(), WireCodecError>) {
        Ok(())
    }
}

} // verus!
