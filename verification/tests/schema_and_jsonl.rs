use mutsuki_runtime::jsonl::{
    check_declared_payload, check_response_header, check_envelope_header, validate_envelope, validate_jsonl_line_len,
    validate_payload_len,
};
use mutsuki_runtime::protocol::{Opcode, WireCodecError, WireLimits, WireProtocolVersion};
use mutsuki_runtime::schema::{hex, operation_types};

#[test]
fn operation_types_follow_the_schema_registry() {
    assert_eq!(operation_types(Opcode::PluginInitialize), ("InitializeRequest", "ProtocolHelloAck"));
    assert_eq!(operation_types(Opcode::TaskOutcome), ("TaskOutcomeRequest", "TaskOutcome?"));
    assert_eq!(operation_types(Opcode::ResourceSaga), ("SagaPlanRequest", "PlanReceipt[]"));
}

#[test]
fn hex_renders_two_lower_case_digits_per_byte() {
    assert_eq!(hex(&[]), "");
    assert_eq!(hex(&[0x00, 0xab, 0xff, 0x10]), "00abff10");
}

#[test]
fn jsonl_length_limits() {
    let limits = WireLimits::default();
    assert!(validate_payload_len(limits.max_payload_bytes, limits).is_ok());
    assert_eq!(
        validate_payload_len(limits.max_payload_bytes + 1, limits),
        Err(WireCodecError::PayloadOversized {
            actual: limits.max_payload_bytes + 1,
            limit: limits.max_payload_bytes
        })
    );
    assert_eq!(
        validate_jsonl_line_len(limits.max_jsonl_line_bytes + 1, limits),
        Err(WireCodecError::FrameOversized {
            actual: limits.max_jsonl_line_bytes + 1,
            limit: limits.max_jsonl_line_bytes
        })
    );
    assert_eq!(check_declared_payload(4, 4, limits), Ok(()));
    assert_eq!(
        check_declared_payload(5, 4, limits),
        Err(WireCodecError::PayloadLengthMismatch { declared: 5, actual: 4 })
    );
}

#[test]
fn jsonl_envelope_headers_are_checked_in_order() {
    let v1 = WireProtocolVersion { major: 1, minor: 3 };
    assert_eq!(check_envelope_header(0, v1, 0x1002, None), Err(WireCodecError::InvalidRequestId));
    assert_eq!(
        check_envelope_header(1, WireProtocolVersion { major: 2, minor: 0 }, 0x1002, None),
        Err(WireCodecError::VersionMismatch { expected_major: 1, actual_major: 2 })
    );
    assert_eq!(check_envelope_header(1, v1, 0x7fff, None), Err(WireCodecError::UnknownOpcode(0x7fff)));
    assert_eq!(check_envelope_header(1, v1, 0x1002, Some("runner.cancel")), Ok(Opcode::RunnerCancel));
    assert_eq!(
        check_envelope_header(1, v1, 0x1002, Some("runner.dispose")),
        Err(WireCodecError::MethodMismatch {
            opcode: 0x1002,
            expected: "runner.cancel".into(),
            actual: "runner.dispose".into(),
        })
    );
}

#[test]
fn jsonl_envelope_measures_the_payload() {
    let limits = WireLimits::default();
    let v1 = WireProtocolVersion { major: 1, minor: 0 };
    let payload = serde_json::to_vec(&serde_json::Value::String("abc".into())).unwrap();
    assert_eq!(validate_envelope(1, v1, 0x1003, None, 5, &payload, limits), Ok(()));
    assert_eq!(
        validate_envelope(1, v1, 0x1003, None, 4, &payload, limits),
        Err(WireCodecError::PayloadLengthMismatch { declared: 4, actual: 5 })
    );
    let null = serde_json::to_vec(&serde_json::Value::Null).unwrap();
    assert_eq!(validate_envelope(1, v1, 0x1003, None, 4, &null, limits), Ok(()));
}

#[test]
fn response_headers_must_answer_the_request() {
    let v1 = WireProtocolVersion::current();
    let cancel = Opcode::RunnerCancel;
    let code = cancel.to_u16();
    assert_eq!(check_response_header(7, cancel, 7, v1, code, true, true, false), Ok(()));
    assert_eq!(check_response_header(7, cancel, 7, v1, code, false, false, true), Ok(()));
    assert_eq!(
        check_response_header(7, cancel, 8, v1, code, true, true, false),
        Err(WireCodecError::Decode("response request id mismatch: expected 7, got 8".into()))
    );
    assert_eq!(
        check_response_header(7, cancel, 7, v1, 0x0001, true, true, false),
        Err(WireCodecError::Decode("response opcode mismatch: expected 0x1002, got 0x0001".into()))
    );
    assert_eq!(
        check_response_header(7, cancel, 7, WireProtocolVersion { major: 2, minor: 0 }, code, true, true, false),
        Err(WireCodecError::VersionMismatch { expected_major: 1, actual_major: 2 })
    );
    assert_eq!(
        check_response_header(7, cancel, 7, v1, code, true, true, true),
        Err(WireCodecError::Decode("successful response contains error".into()))
    );
    assert_eq!(
        check_response_header(7, cancel, 7, v1, code, false, true, true),
        Err(WireCodecError::Decode("failed response contains result".into()))
    );
    assert_eq!(
        check_response_header(7, cancel, 7, v1, code, false, false, false),
        Err(WireCodecError::Decode("response missing error".into()))
    );
}

#[test]
fn measured_envelopes_are_accepted_only_at_their_declared_length() {
    let limits = WireLimits::default();
    let version = WireProtocolVersion { major: 1, minor: 0 };
    let code = Opcode::RunnerCancel.to_u16();
    assert_eq!(validate_envelope(7, version, code, Some("runner.cancel"), 71, &[b' '; 71], limits), Ok(()));
    assert_eq!(
        validate_envelope(7, version, code, Some("runner.cancel"), 70, &[b' '; 71], limits),
        Err(WireCodecError::PayloadLengthMismatch { declared: 70, actual: 71 })
    );
    assert_eq!(
        validate_envelope(7, WireProtocolVersion { major: 2, minor: 0 }, code, None, 71, &[b' '; 71], limits),
        Err(WireCodecError::VersionMismatch { expected_major: 1, actual_major: 2 })
    );
    assert_eq!(
        validate_envelope(0, version, code, None, 71, &[b' '; 71], limits),
        Err(WireCodecError::InvalidRequestId)
    );
    let big = limits.max_payload_bytes + 1;
    assert_eq!(
        validate_envelope(7, version, code, None, 71, &vec![b' '; big], limits),
        Err(WireCodecError::PayloadOversized { actual: big, limit: limits.max_payload_bytes })
    );
}
