//! Protocol version, limits, opcode registry and the initialization handshake.
use vstd::prelude::*;
use vstd::string::*;

use crate::text::{clone_strings, str_eq, views};

verus! {

pub const DEBUG_JSONL_CODEC_ID: &'static str = "mutsuki.codec.typed-jsonl.v1";

pub const BINARY_CODEC_ID: &'static str = "mutsuki.codec.typed-msgpack.v1";

pub const SCHEMA_REVISION: &'static str = "mutsuki.runtime.wire/1.0.0";

pub const MAX_FRAME_BYTES: usize = 8 * 1024 * 1024;

pub const MAX_PAYLOAD_BYTES: usize = 4 * 1024 * 1024;

pub const MAX_JSONL_LINE_BYTES: usize = 8 * 1024 * 1024;

pub const MAX_INLINE_RESOURCE_BYTES: usize = 64 * 1024;

pub const MAX_IN_FLIGHT_REQUESTS: usize = 64;

pub const MANAGEMENT_RESERVED_REQUESTS: usize = 8;

/// Errors of the wire codecs and of the handshake.
#[derive(Clone, Debug, PartialEq, Eq)]
pub enum WireCodecError {
    VersionMismatch { expected_major: u16, actual_major: u16 },
    CodecMismatch { expected: String, actual: String },
    SchemaMismatch { expected: String, actual: String },
    UnknownOpcode(u16),
    UnknownMethod(String),
    MethodMismatch { opcode: u16, expected: String, actual: String },
    PayloadOversized { actual: usize, limit: usize },
    FrameOversized { actual: usize, limit: usize },
    Truncated { expected: usize, actual: usize },
    InvalidMagic(u32),
    InvalidFlags(u16),
    InvalidRequestId,
    PayloadLengthMismatch { declared: usize, actual: usize },
    InlineResourceOversized { actual: usize, limit: usize },
    ResponseMismatch,
    ManagementChannelRequired,
    LimitMismatch,
    Encode(String),
    Decode(String),
    Io(String),
}

#[derive(Clone, Copy, Debug, PartialEq, Eq, Structural)]
pub struct WireProtocolVersion {
    pub major: u16,
    pub minor: u16,
}

pub const CURRENT_MAJOR: u16 = 1;

pub const CURRENT_MINOR: u16 = 0;

impl WireProtocolVersion {
    /// The version this library speaks.
    pub fn current() -> (r: Self)
        ensures
            r.major == CURRENT_MAJOR,
            r.minor == CURRENT_MINOR,
    {
        WireProtocolVersion { major: CURRENT_MAJOR, minor: CURRENT_MINOR }
    }

    /// Only the major version decides compatibility: minor revisions are additive.
    pub fn ensure_compatible(self) -> (r: Result<(), WireCodecError>)
        ensures
            r is Ok <==> self.major == CURRENT_MAJOR,
            r is Err ==> r == Err::<(), WireCodecError>(
                WireCodecError::VersionMismatch {
                    expected_major: CURRENT_MAJOR,
                    actual_major: self.major,
                },
            ),
    {
        if self.major != CURRENT_MAJOR {
            return Err(
                WireCodecError::VersionMismatch {
                    expected_major: CURRENT_MAJOR,
                    actual_major: self.major,
                },
            );
        }
        Ok(())
    }
}

/// Resource limits of one wire connection.
#[derive(Clone, Copy, Debug, PartialEq, Eq, Structural)]
pub struct WireLimits {
    pub max_frame_bytes: usize,
    pub max_payload_bytes: usize,
    pub max_jsonl_line_bytes: usize,
    pub max_inline_resource_bytes: usize,
    pub max_in_flight_requests: usize,
    pub management_reserved_requests: usize,
}

impl Default for WireLimits {
    /// The limits published in the schema: 8 MiB frames, 4 MiB payloads, 64 KiB inline
    /// resources, 64 in-flight requests of which 8 are reserved for management.
    fn default() -> (r: Self)
        ensures
            r == default_wire_limits(),
    {
        WireLimits {
            max_frame_bytes: MAX_FRAME_BYTES,
            max_payload_bytes: MAX_PAYLOAD_BYTES,
            max_jsonl_line_bytes: MAX_JSONL_LINE_BYTES,
            max_inline_resource_bytes: MAX_INLINE_RESOURCE_BYTES,
            max_in_flight_requests: MAX_IN_FLIGHT_REQUESTS,
            management_reserved_requests: MANAGEMENT_RESERVED_REQUESTS,
        }
    }
}

pub open spec fn default_wire_limits() -> WireLimits {
    WireLimits {
        max_frame_bytes: MAX_FRAME_BYTES,
        max_payload_bytes: MAX_PAYLOAD_BYTES,
        max_jsonl_line_bytes: MAX_JSONL_LINE_BYTES,
        max_inline_resource_bytes: MAX_INLINE_RESOURCE_BYTES,
        max_in_flight_requests: MAX_IN_FLIGHT_REQUESTS,
        management_reserved_requests: MANAGEMENT_RESERVED_REQUESTS,
    }
}

impl WireLimits {
    /// The management reservation must leave at least one slot for business requests.
    pub open spec fn consistent(self) -> bool {
        self.management_reserved_requests < self.max_in_flight_requests
    }

    pub fn validate(&self) -> (r: Result<(), WireCodecError>)
        ensures
            r is Ok <==> self.consistent(),
            r is Err ==> r == Err::<(), WireCodecError>(WireCodecError::LimitMismatch),
    {
        if self.management_reserved_requests >= self.max_in_flight_requests {
            return Err(WireCodecError::LimitMismatch);
        }
        Ok(())
    }
}

/// What the plugin side reports about itself when it accepts a handshake.
#[derive(Clone, Debug, PartialEq, Eq)]
pub struct InitializedPlugin {
    pub plugin_id: String,
    pub resource_provider_ids: Vec<String>,
}

/// The host's opening message of a connection.
#[derive(Clone, Debug, PartialEq, Eq)]
pub struct ProtocolHello {
    pub protocol: WireProtocolVersion,
    pub codec_id: String,
    pub schema_revision: String,
    pub max_frame_bytes: u32,
    pub max_payload_bytes: u32,
    pub max_in_flight_requests: u32,
    pub management_channel: bool,
    pub feature_flags: Vec<String>,
}

/// The plugin's answer to a [`ProtocolHello`].
#[derive(Clone, Debug, PartialEq, Eq)]
pub struct ProtocolHelloAck {
    pub protocol: WireProtocolVersion,
    pub codec_id: String,
    pub schema_revision: String,
    pub max_frame_bytes: u32,
    pub max_payload_bytes: u32,
    pub max_in_flight_requests: u32,
    pub management_channel: bool,
    pub feature_flags: Vec<String>,
    pub plugin: Option<InitializedPlugin>,
}

/// The features every hello of this library advertises.
pub open spec fn default_feature_flags() -> Seq<Seq<char>> {
    seq!["typed_requests"@, "out_of_order_responses"@, "resource_ref_required_for_large_bytes"@]
}

/// `hello` is the hello of this library for `codec` with the given advertised limits.
pub open spec fn hello_for(
    hello: ProtocolHello,
    codec: Seq<char>,
    frame: int,
    payload: int,
    in_flight: int,
) -> bool {
    &&& hello.protocol.major == CURRENT_MAJOR
    &&& hello.protocol.minor == CURRENT_MINOR
    &&& hello.codec_id@ == codec
    &&& hello.schema_revision@ == SCHEMA_REVISION@
    &&& hello.max_frame_bytes == frame
    &&& hello.max_payload_bytes == payload
    &&& hello.max_in_flight_requests == in_flight
    &&& hello.management_channel
    &&& views(hello.feature_flags@) == default_feature_flags()
}

/// The acknowledgement that accepting `hello` produces.
pub open spec fn ack_of(ack: ProtocolHelloAck, hello: ProtocolHello, plugin: Option<InitializedPlugin>) -> bool {
    &&& ack.protocol.major == CURRENT_MAJOR
    &&& ack.protocol.minor == CURRENT_MINOR
    &&& ack.codec_id@ == hello.codec_id@
    &&& ack.schema_revision@ == hello.schema_revision@
    &&& ack.max_frame_bytes == hello.max_frame_bytes
    &&& ack.max_payload_bytes == hello.max_payload_bytes
    &&& ack.max_in_flight_requests == hello.max_in_flight_requests
    &&& ack.management_channel
    &&& ack.feature_flags@ == hello.feature_flags@
    &&& ack.plugin == plugin
}

fn default_feature_flag_list() -> (r: Vec<String>)
    ensures
        views(r@) == default_feature_flags(),
{
    let r = vec![
        String::from_str("typed_requests"),
        String::from_str("out_of_order_responses"),
        String::from_str("resource_ref_required_for_large_bytes"),
    ];
    assert(views(r@) =~= default_feature_flags());
    r
}

impl ProtocolHello {
    fn for_codec(codec_id: &str, frame: u32, payload: u32, in_flight: u32) -> (r: Self)
        ensures
            hello_for(r, codec_id@, frame as int, payload as int, in_flight as int),
    {
        ProtocolHello {
            protocol: WireProtocolVersion::current(),
            codec_id: String::from_str(codec_id),
            schema_revision: String::from_str(SCHEMA_REVISION),
            max_frame_bytes: frame,
            max_payload_bytes: payload,
            max_in_flight_requests: in_flight,
            management_channel: true,
            feature_flags: default_feature_flag_list(),
        }
    }

    /// The hello of the typed JSONL debug codec with the default limits.
    pub fn debug_jsonl() -> (r: Self)
        ensures
            hello_for(
                r,
                DEBUG_JSONL_CODEC_ID@,
                MAX_FRAME_BYTES as int,
                MAX_PAYLOAD_BYTES as int,
                MAX_IN_FLIGHT_REQUESTS as int,
            ),
    {
        Self::for_codec(
            DEBUG_JSONL_CODEC_ID,
            MAX_FRAME_BYTES as u32,
            MAX_PAYLOAD_BYTES as u32,
            MAX_IN_FLIGHT_REQUESTS as u32,
        )
    }

    /// The hello of the binary MessagePack codec with the default limits.
    pub fn binary() -> (r: Self)
        ensures
            hello_for(
                r,
                BINARY_CODEC_ID@,
                MAX_FRAME_BYTES as int,
                MAX_PAYLOAD_BYTES as int,
                MAX_IN_FLIGHT_REQUESTS as int,
            ),
    {
        Self::for_codec(
            BINARY_CODEC_ID,
            MAX_FRAME_BYTES as u32,
            MAX_PAYLOAD_BYTES as u32,
            MAX_IN_FLIGHT_REQUESTS as u32,
        )
    }

    /// The hello of the typed JSONL debug codec advertising custom limits.
    pub fn debug_jsonl_with_limits(limits: WireLimits) -> (r: Result<Self, WireCodecError>)
        ensures
            r is Ok <==> limits.consistent() && limits.max_frame_bytes <= u32::MAX
                && limits.max_payload_bytes <= u32::MAX && limits.max_in_flight_requests
                <= u32::MAX,
            r is Err ==> r == Err::<Self, WireCodecError>(WireCodecError::LimitMismatch),
            r matches Ok(hello) ==> hello_for(
                hello,
                DEBUG_JSONL_CODEC_ID@,
                limits.max_frame_bytes as int,
                limits.max_payload_bytes as int,
                limits.max_in_flight_requests as int,
            ),
    {
        limits.validate()?;
        if limits.max_frame_bytes > u32::MAX as usize || limits.max_payload_bytes > u32::MAX as usize
            || limits.max_in_flight_requests > u32::MAX as usize {
            return Err(WireCodecError::LimitMismatch);
        }
        Ok(
            Self::for_codec(
                DEBUG_JSONL_CODEC_ID,
                limits.max_frame_bytes as u32,
                limits.max_payload_bytes as u32,
                limits.max_in_flight_requests as u32,
            ),
        )
    }

    /// Accepts this hello on a plugin that speaks `codec_id`.
    pub fn accept(&self, codec_id: &str, plugin: Option<InitializedPlugin>) -> (r: Result<
        ProtocolHelloAck,
        WireCodecError,
    >)
        ensures
            r is Ok <==> self.protocol.major == CURRENT_MAJOR && self.management_channel
                && self.codec_id@ == codec_id@ && self.schema_revision@ == SCHEMA_REVISION@,
            self.protocol.major != CURRENT_MAJOR ==> r == Err::<ProtocolHelloAck, WireCodecError>(
                WireCodecError::VersionMismatch {
                    expected_major: CURRENT_MAJOR,
                    actual_major: self.protocol.major,
                },
            ),
            self.protocol.major == CURRENT_MAJOR && !self.management_channel ==> r == Err::<
                ProtocolHelloAck,
                WireCodecError,
            >(WireCodecError::ManagementChannelRequired),
            self.protocol.major == CURRENT_MAJOR && self.management_channel && self.codec_id@
                != codec_id@ ==> (r matches Err(WireCodecError::CodecMismatch { expected, actual })
                && expected@ == codec_id@ && actual@ == self.codec_id@),
            self.protocol.major == CURRENT_MAJOR && self.management_channel && self.codec_id@
                == codec_id@ && self.schema_revision@ != SCHEMA_REVISION@ ==> (r matches Err(
                WireCodecError::SchemaMismatch { expected, actual },
            ) && expected@ == SCHEMA_REVISION@ && actual@ == self.schema_revision@),
            r matches Ok(ack) ==> ack_of(ack, *self, plugin),
    {
        self.protocol.ensure_compatible()?;
        if !self.management_channel {
            return Err(WireCodecError::ManagementChannelRequired);
        }
        if !str_eq(self.codec_id.as_str(), codec_id) {
            return Err(
                WireCodecError::CodecMismatch {
                    expected: String::from_str(codec_id),
                    actual: self.codec_id.clone(),
                },
            );
        }
        if !str_eq(self.schema_revision.as_str(), SCHEMA_REVISION) {
            return Err(
                WireCodecError::SchemaMismatch {
                    expected: String::from_str(SCHEMA_REVISION),
                    actual: self.schema_revision.clone(),
                },
            );
        }
        Ok(
            ProtocolHelloAck {
                protocol: WireProtocolVersion::current(),
                codec_id: self.codec_id.clone(),
                schema_revision: self.schema_revision.clone(),
                max_frame_bytes: self.max_frame_bytes,
                max_payload_bytes: self.max_payload_bytes,
                max_in_flight_requests: self.max_in_flight_requests,
                management_channel: true,
                feature_flags: clone_strings(&self.feature_flags),
                plugin,
            },
        )
    }
}

impl ProtocolHelloAck {
    /// Checks that this acknowledgement answers `hello`.
    pub fn validate_for(&self, hello: &ProtocolHello) -> (r: Result<(), WireCodecError>)
        ensures
            r is Ok <==> self.protocol.major == CURRENT_MAJOR && self.codec_id@ == hello.codec_id@
                && self.schema_revision@ == hello.schema_revision@,
            self.protocol.major != CURRENT_MAJOR ==> r == Err::<(), WireCodecError>(
                WireCodecError::VersionMismatch {
                    expected_major: CURRENT_MAJOR,
                    actual_major: self.protocol.major,
                },
            ),
            self.protocol.major == CURRENT_MAJOR && self.codec_id@ != hello.codec_id@ ==> (r matches Err(
                WireCodecError::CodecMismatch { expected, actual },
            ) && expected@ == hello.codec_id@ && actual@ == self.codec_id@),
            self.protocol.major == CURRENT_MAJOR && self.codec_id@ == hello.codec_id@
                && self.schema_revision@ != hello.schema_revision@ ==> (r matches Err(
                WireCodecError::SchemaMismatch { expected, actual },
            ) && expected@ == hello.schema_revision@ && actual@ == self.schema_revision@),
    {
        self.protocol.ensure_compatible()?;
        if self.codec_id != hello.codec_id {
            return Err(
                WireCodecError::CodecMismatch {
                    expected: hello.codec_id.clone(),
                    actual: self.codec_id.clone(),
                },
            );
        }
        if self.schema_revision != hello.schema_revision {
            return Err(
                WireCodecError::SchemaMismatch {
                    expected: hello.schema_revision.clone(),
                    actual: self.schema_revision.clone(),
                },
            );
        }
        Ok(())
    }
}

/// An acknowledgement produced by `accept` always validates against the hello it answers.
pub proof fn lemma_accepted_ack_validates(
    hello: ProtocolHello,
    ack: ProtocolHelloAck,
    plugin: Option<InitializedPlugin>,
)
    requires
        hello.protocol.major == CURRENT_MAJOR,
        ack_of(ack, hello, plugin),
    ensures
        ack.protocol.major == CURRENT_MAJOR,
        ack.codec_id@ == hello.codec_id@,
        ack.schema_revision@ == hello.schema_revision@,
{
}


/// The closed registry of wire operations. Codes are append-only and never reused.
#[derive(Clone, Copy, Debug, PartialEq, Eq, PartialOrd, Ord, Hash, Structural)]
pub enum Opcode {
    PluginInitialize,
    RunnerRunBatch,
    RunnerCancel,
    RunnerDispose,
    TaskSubmitBatch,
    TaskCancel,
    TaskOutcome,
    ResourceReadCollect,
    ResourceReadSnapshot,
    ResourceStreamOpen,
    ResourceExport,
    ResourceWriteCommit,
    ResourceCommand,
    ResourceCommandBatch,
    ResourceSaga,
    ResourceCreateBlob,
    ResourceCreateCowState,
    ResourceCreateCapability,
}

impl Opcode {
    /// The numeric code carried in frames.
    pub open spec fn code(self) -> u16 {
        match self {
            Opcode::PluginInitialize => 0x0001,
            Opcode::RunnerRunBatch => 0x1001,
            Opcode::RunnerCancel => 0x1002,
            Opcode::RunnerDispose => 0x1003,
            Opcode::TaskSubmitBatch => 0x2001,
            Opcode::TaskCancel => 0x2002,
            Opcode::TaskOutcome => 0x2003,
            Opcode::ResourceReadCollect => 0x3001,
            Opcode::ResourceReadSnapshot => 0x3002,
            Opcode::ResourceStreamOpen => 0x3003,
            Opcode::ResourceExport => 0x3004,
            Opcode::ResourceWriteCommit => 0x3005,
            Opcode::ResourceCommand => 0x3006,
            Opcode::ResourceCommandBatch => 0x3007,
            Opcode::ResourceSaga => 0x3008,
            Opcode::ResourceCreateBlob => 0x3009,
            Opcode::ResourceCreateCowState => 0x300a,
            Opcode::ResourceCreateCapability => 0x300b,
        }
    }

    /// The readable method name used by the debug codec.
    pub open spec fn method_name(self) -> Seq<char> {
        match self {
            Opcode::PluginInitialize => "plugin.initialize"@,
            Opcode::RunnerRunBatch => "runner.run_batch"@,
            Opcode::RunnerCancel => "runner.cancel"@,
            Opcode::RunnerDispose => "runner.dispose"@,
            Opcode::TaskSubmitBatch => "task.submit_batch"@,
            Opcode::TaskCancel => "task.cancel"@,
            Opcode::TaskOutcome => "task.outcome"@,
            Opcode::ResourceReadCollect => "resource.read.collect"@,
            Opcode::ResourceReadSnapshot => "resource.read.snapshot"@,
            Opcode::ResourceStreamOpen => "resource.stream.open"@,
            Opcode::ResourceExport => "resource.export"@,
            Opcode::ResourceWriteCommit => "resource.write.commit"@,
            Opcode::ResourceCommand => "resource.command"@,
            Opcode::ResourceCommandBatch => "resource.command_batch"@,
            Opcode::ResourceSaga => "resource.saga"@,
            Opcode::ResourceCreateBlob => "resource.create_blob"@,
            Opcode::ResourceCreateCowState => "resource.create_cow_state"@,
            Opcode::ResourceCreateCapability => "resource.create_capability"@,
        }
    }

    /// Management operations may use the reserved in-flight slots.
    pub open spec fn management(self) -> bool {
        self is PluginInitialize || self is RunnerCancel || self is RunnerDispose
    }

    /// Every opcode, in registry order.
    pub open spec fn registry() -> Seq<Opcode> {
        seq![Opcode::PluginInitialize, Opcode::RunnerRunBatch, Opcode::RunnerCancel, Opcode::RunnerDispose, Opcode::TaskSubmitBatch, Opcode::TaskCancel, Opcode::TaskOutcome, Opcode::ResourceReadCollect, Opcode::ResourceReadSnapshot, Opcode::ResourceStreamOpen, Opcode::ResourceExport, Opcode::ResourceWriteCommit, Opcode::ResourceCommand, Opcode::ResourceCommandBatch, Opcode::ResourceSaga, Opcode::ResourceCreateBlob, Opcode::ResourceCreateCowState, Opcode::ResourceCreateCapability]
    }

    pub fn to_u16(self) -> (r: u16)
        ensures
            r == self.code(),
    {
        match self {
            Opcode::PluginInitialize => 0x0001,
            Opcode::RunnerRunBatch => 0x1001,
            Opcode::RunnerCancel => 0x1002,
            Opcode::RunnerDispose => 0x1003,
            Opcode::TaskSubmitBatch => 0x2001,
            Opcode::TaskCancel => 0x2002,
            Opcode::TaskOutcome => 0x2003,
            Opcode::ResourceReadCollect => 0x3001,
            Opcode::ResourceReadSnapshot => 0x3002,
            Opcode::ResourceStreamOpen => 0x3003,
            Opcode::ResourceExport => 0x3004,
            Opcode::ResourceWriteCommit => 0x3005,
            Opcode::ResourceCommand => 0x3006,
            Opcode::ResourceCommandBatch => 0x3007,
            Opcode::ResourceSaga => 0x3008,
            Opcode::ResourceCreateBlob => 0x3009,
            Opcode::ResourceCreateCowState => 0x300a,
            Opcode::ResourceCreateCapability => 0x300b,
        }
    }

    pub fn method(self) -> (r: &'static str)
        ensures
            r@ == self.method_name(),
    {
        match self {
            Opcode::PluginInitialize => "plugin.initialize",
            Opcode::RunnerRunBatch => "runner.run_batch",
            Opcode::RunnerCancel => "runner.cancel",
            Opcode::RunnerDispose => "runner.dispose",
            Opcode::TaskSubmitBatch => "task.submit_batch",
            Opcode::TaskCancel => "task.cancel",
            Opcode::TaskOutcome => "task.outcome",
            Opcode::ResourceReadCollect => "resource.read.collect",
            Opcode::ResourceReadSnapshot => "resource.read.snapshot",
            Opcode::ResourceStreamOpen => "resource.stream.open",
            Opcode::ResourceExport => "resource.export",
            Opcode::ResourceWriteCommit => "resource.write.commit",
            Opcode::ResourceCommand => "resource.command",
            Opcode::ResourceCommandBatch => "resource.command_batch",
            Opcode::ResourceSaga => "resource.saga",
            Opcode::ResourceCreateBlob => "resource.create_blob",
            Opcode::ResourceCreateCowState => "resource.create_cow_state",
            Opcode::ResourceCreateCapability => "resource.create_capability",
        }
    }

    pub fn is_management(self) -> (r: bool)
        ensures
            r == self.management(),
    {
        match self {
            Opcode::PluginInitialize | Opcode::RunnerCancel | Opcode::RunnerDispose => true,
            _ => false,
        }
    }

    /// Every opcode, in registry order.
    pub fn all() -> (r: Vec<Opcode>)
        ensures
            r@ == Self::registry(),
    {
        let r = vec![Opcode::PluginInitialize, Opcode::RunnerRunBatch, Opcode::RunnerCancel, Opcode::RunnerDispose, Opcode::TaskSubmitBatch, Opcode::TaskCancel, Opcode::TaskOutcome, Opcode::ResourceReadCollect, Opcode::ResourceReadSnapshot, Opcode::ResourceStreamOpen, Opcode::ResourceExport, Opcode::ResourceWriteCommit, Opcode::ResourceCommand, Opcode::ResourceCommandBatch, Opcode::ResourceSaga, Opcode::ResourceCreateBlob, Opcode::ResourceCreateCowState, Opcode::ResourceCreateCapability];
        assert(r@ =~= Self::registry());
        r
    }

    pub fn from_u16(value: u16) -> (r: Result<Opcode, WireCodecError>)
        ensures
            match r {
                Ok(op) => op.code() == value,
                Err(e) => e == WireCodecError::UnknownOpcode(value) && forall|op: Opcode|
                    op.code() != value,
            },
    {
        match value {
            0x0001 => Ok(Opcode::PluginInitialize),
            0x1001 => Ok(Opcode::RunnerRunBatch),
            0x1002 => Ok(Opcode::RunnerCancel),
            0x1003 => Ok(Opcode::RunnerDispose),
            0x2001 => Ok(Opcode::TaskSubmitBatch),
            0x2002 => Ok(Opcode::TaskCancel),
            0x2003 => Ok(Opcode::TaskOutcome),
            0x3001 => Ok(Opcode::ResourceReadCollect),
            0x3002 => Ok(Opcode::ResourceReadSnapshot),
            0x3003 => Ok(Opcode::ResourceStreamOpen),
            0x3004 => Ok(Opcode::ResourceExport),
            0x3005 => Ok(Opcode::ResourceWriteCommit),
            0x3006 => Ok(Opcode::ResourceCommand),
            0x3007 => Ok(Opcode::ResourceCommandBatch),
            0x3008 => Ok(Opcode::ResourceSaga),
            0x3009 => Ok(Opcode::ResourceCreateBlob),
            0x300a => Ok(Opcode::ResourceCreateCowState),
            0x300b => Ok(Opcode::ResourceCreateCapability),
            _ => Err(WireCodecError::UnknownOpcode(value)),
        }
    }

    pub fn from_method(value: &str) -> (r: Result<Opcode, WireCodecError>)
        ensures
            match r {
                Ok(op) => op.method_name() == value@,
                Err(e) => (e matches WireCodecError::UnknownMethod(s) && s@ == value@) && forall|
                    op: Opcode,
                | op.method_name() != value@,
            },
    {
        if str_eq(value, "plugin.initialize") {
            return Ok(Opcode::PluginInitialize);
        }
        if str_eq(value, "runner.run_batch") {
            return Ok(Opcode::RunnerRunBatch);
        }
        if str_eq(value, "runner.cancel") {
            return Ok(Opcode::RunnerCancel);
        }
        if str_eq(value, "runner.dispose") {
            return Ok(Opcode::RunnerDispose);
        }
        if str_eq(value, "task.submit_batch") {
            return Ok(Opcode::TaskSubmitBatch);
        }
        if str_eq(value, "task.cancel") {
            return Ok(Opcode::TaskCancel);
        }
        if str_eq(value, "task.outcome") {
            return Ok(Opcode::TaskOutcome);
        }
        if str_eq(value, "resource.read.collect") {
            return Ok(Opcode::ResourceReadCollect);
        }
        if str_eq(value, "resource.read.snapshot") {
            return Ok(Opcode::ResourceReadSnapshot);
        }
        if str_eq(value, "resource.stream.open") {
            return Ok(Opcode::ResourceStreamOpen);
        }
        if str_eq(value, "resource.export") {
            return Ok(Opcode::ResourceExport);
        }
        if str_eq(value, "resource.write.commit") {
            return Ok(Opcode::ResourceWriteCommit);
        }
        if str_eq(value, "resource.command") {
            return Ok(Opcode::ResourceCommand);
        }
        if str_eq(value, "resource.command_batch") {
            return Ok(Opcode::ResourceCommandBatch);
        }
        if str_eq(value, "resource.saga") {
            return Ok(Opcode::ResourceSaga);
        }
        if str_eq(value, "resource.create_blob") {
            return Ok(Opcode::ResourceCreateBlob);
        }
        if str_eq(value, "resource.create_cow_state") {
            return Ok(Opcode::ResourceCreateCowState);
        }
        if str_eq(value, "resource.create_capability") {
            return Ok(Opcode::ResourceCreateCapability);
        }
        Err(WireCodecError::UnknownMethod(String::from_str(value)))
    }
}

/// Distinct opcodes have distinct codes.
pub proof fn lemma_opcode_codes_distinct(a: Opcode, b: Opcode)
    ensures
        a.code() == b.code() ==> a == b,
{
}

/// Length, first character and tenth character tell the method names apart.
proof fn lemma_method_key(op: Opcode)
    ensures
        op.method_name().len() == method_key(op).0,
        op.method_name()[0] == method_key(op).1,
        op.method_name()[9] == method_key(op).2,
{
    match op {
        Opcode::PluginInitialize => {
            reveal_strlit("plugin.initialize");
        },
        Opcode::RunnerRunBatch => {
            reveal_strlit("runner.run_batch");
        },
        Opcode::RunnerCancel => {
            reveal_strlit("runner.cancel");
        },
        Opcode::RunnerDispose => {
            reveal_strlit("runner.dispose");
        },
        Opcode::TaskSubmitBatch => {
            reveal_strlit("task.submit_batch");
        },
        Opcode::TaskCancel => {
            reveal_strlit("task.cancel");
        },
        Opcode::TaskOutcome => {
            reveal_strlit("task.outcome");
        },
        Opcode::ResourceReadCollect => {
            reveal_strlit("resource.read.collect");
        },
        Opcode::ResourceReadSnapshot => {
            reveal_strlit("resource.read.snapshot");
        },
        Opcode::ResourceStreamOpen => {
            reveal_strlit("resource.stream.open");
        },
        Opcode::ResourceExport => {
            reveal_strlit("resource.export");
        },
        Opcode::ResourceWriteCommit => {
            reveal_strlit("resource.write.commit");
        },
        Opcode::ResourceCommand => {
            reveal_strlit("resource.command");
        },
        Opcode::ResourceCommandBatch => {
            reveal_strlit("resource.command_batch");
        },
        Opcode::ResourceSaga => {
            reveal_strlit("resource.saga");
        },
        Opcode::ResourceCreateBlob => {
            reveal_strlit("resource.create_blob");
        },
        Opcode::ResourceCreateCowState => {
            reveal_strlit("resource.create_cow_state");
        },
        Opcode::ResourceCreateCapability => {
            reveal_strlit("resource.create_capability");
        },
    }
}

spec fn method_key(op: Opcode) -> (int, char, char) {
    match op {
        Opcode::PluginInitialize => (17, 'p', 'i'),
        Opcode::RunnerRunBatch => (16, 'r', 'n'),
        Opcode::RunnerCancel => (13, 'r', 'n'),
        Opcode::RunnerDispose => (14, 'r', 's'),
        Opcode::TaskSubmitBatch => (17, 't', 'i'),
        Opcode::TaskCancel => (11, 't', 'e'),
        Opcode::TaskOutcome => (12, 't', 'o'),
        Opcode::ResourceReadCollect => (21, 'r', 'r'),
        Opcode::ResourceReadSnapshot => (22, 'r', 'r'),
        Opcode::ResourceStreamOpen => (20, 'r', 's'),
        Opcode::ResourceExport => (15, 'r', 'e'),
        Opcode::ResourceWriteCommit => (21, 'r', 'w'),
        Opcode::ResourceCommand => (16, 'r', 'c'),
        Opcode::ResourceCommandBatch => (22, 'r', 'c'),
        Opcode::ResourceSaga => (13, 'r', 's'),
        Opcode::ResourceCreateBlob => (20, 'r', 'c'),
        Opcode::ResourceCreateCowState => (25, 'r', 'c'),
        Opcode::ResourceCreateCapability => (26, 'r', 'c'),
    }
}

/// Distinct opcodes have distinct method names.
pub proof fn lemma_opcode_methods_distinct(a: Opcode, b: Opcode)
    ensures
        a.method_name() == b.method_name() ==> a == b,
{
    lemma_method_key(a);
    lemma_method_key(b);
}

} // verus!
