use std::io::Cursor;

use mutsuki_runtime::binary::{
    check_outgoing_request, check_response_frame, encode_binary_request, encode_binary_response, read_binary_frame,
    frame_prefix_step, read_binary_frame_bytes, validate_binary_payload, validate_request_frame,
};
use mutsuki_runtime::frame::{decode_binary_frame, encode_frame, WireFlags};
use mutsuki_runtime::operations::{CreateBlobRequest, WireRequest};
use mutsuki_runtime::protocol::{
    InitializedPlugin, Opcode, ProtocolHello, WireCodecError, WireLimits, WireProtocolVersion,
    BINARY_CODEC_ID, DEBUG_JSONL_CODEC_ID, SCHEMA_REVISION,
};

/// `{"runner_id": "runner-a"}` as MessagePack.
fn dispose_payload() -> Vec<u8> {
    let mut payload = vec![0x81, 0xa9];
    payload.extend_from_slice(b"runner_id");
    payload.push(0xa8);
    payload.extend_from_slice(b"runner-a");
    payload
}

#[test]
fn initialization_negotiates_limits_and_rejects_missing_management_support() {
    let hello = ProtocolHello::debug_jsonl();
    let ack = hello.accept(DEBUG_JSONL_CODEC_ID, None).unwrap();
    ack.validate_for(&hello).unwrap();

    let mut incompatible = hello.clone();
    incompatible.management_channel = false;
    let error = incompatible.accept(DEBUG_JSONL_CODEC_ID, None).unwrap_err();
    assert_eq!(error, WireCodecError::ManagementChannelRequired);
}

#[test]
fn custom_limits_are_advertised_and_invalid_reservations_are_rejected() {
    let limits = WireLimits {
        max_in_flight_requests: 12,
        management_reserved_requests: 2,
        ..WireLimits::default()
    };
    let hello = ProtocolHello::debug_jsonl_with_limits(limits).unwrap();
    assert_eq!(hello.max_in_flight_requests, 12);
    let ack = hello.accept(DEBUG_JSONL_CODEC_ID, None).unwrap();
    ack.validate_for(&hello).unwrap();

    let invalid = WireLimits {
        max_in_flight_requests: 2,
        management_reserved_requests: 2,
        ..WireLimits::default()
    };
    assert_eq!(invalid.validate(), Err(WireCodecError::LimitMismatch));
}

#[test]
fn binary_frame_is_length_prefixed_typed_messagepack() {
    let payload = dispose_payload();
    let encoded = encode_binary_request(
        11,
        Opcode::RunnerDispose,
        payload.clone(),
        WireLimits::default(),
    )
    .unwrap();
    let frame = decode_binary_frame(&encoded, WireLimits::default()).unwrap();
    assert_eq!(frame.header.opcode, Opcode::RunnerDispose);
    assert!(frame.header.flags.contains(WireFlags::request()));
    assert!(frame.header.flags.contains(WireFlags::management()));
    validate_binary_payload(&frame).unwrap();
    assert_eq!(frame.payload, payload);

    let from_reader = read_binary_frame(&mut Cursor::new(encoded), WireLimits::default()).unwrap();
    assert_eq!(from_reader, frame);
}

#[test]
fn binary_reader_rejects_oversized_prefix_before_payload_allocation() {
    let declared = (WireLimits::default().max_frame_bytes as u32 + 1).to_be_bytes();
    let error = read_binary_frame(&mut Cursor::new(declared), WireLimits::default()).unwrap_err();
    assert!(matches!(error, WireCodecError::FrameOversized { .. }));
}

#[test]
fn large_resource_bytes_must_use_resource_ref_or_stream() {
    let request = CreateBlobRequest {
        provider_id: Some("provider-a".into()),
        schema: "bytes.v1".into(),
        bytes: vec![0; WireLimits::default().max_inline_resource_bytes + 1],
    };
    assert_eq!(
        check_outgoing_request(12, &request, WireLimits::default()),
        Err(WireCodecError::InlineResourceOversized { actual: 65537, limit: 65536 })
    );
    assert_eq!(check_outgoing_request(0, &request, WireLimits::default()), Err(WireCodecError::InvalidRequestId));
    assert_eq!(
        request.validate(WireLimits::default()),
        Err(WireCodecError::InlineResourceOversized { actual: 65537, limit: 65536 })
    );
}

#[test]
fn hello_for_each_codec_advertises_defaults() {
    let hello = ProtocolHello::binary();
    assert_eq!(hello.codec_id, BINARY_CODEC_ID);
    assert_eq!(hello.schema_revision, SCHEMA_REVISION);
    assert_eq!(hello.protocol, WireProtocolVersion { major: 1, minor: 0 });
    assert_eq!(hello.max_frame_bytes, 8 * 1024 * 1024);
    assert_eq!(hello.max_payload_bytes, 4 * 1024 * 1024);
    assert_eq!(hello.max_in_flight_requests, 64);
    assert!(hello.management_channel);
    assert_eq!(
        hello.feature_flags,
        vec![
            "typed_requests".to_string(),
            "out_of_order_responses".to_string(),
            "resource_ref_required_for_large_bytes".to_string(),
        ]
    );
}

#[test]
fn accept_copies_the_hello_and_carries_the_plugin() {
    let hello = ProtocolHello::binary();
    let plugin = InitializedPlugin {
        plugin_id: "plugin-a".into(),
        resource_provider_ids: vec!["provider-a".into()],
    };
    let ack = hello.accept(BINARY_CODEC_ID, Some(plugin.clone())).unwrap();
    assert_eq!(ack.codec_id, hello.codec_id);
    assert_eq!(ack.feature_flags, hello.feature_flags);
    assert_eq!(ack.max_payload_bytes, hello.max_payload_bytes);
    assert_eq!(ack.plugin, Some(plugin));
}

#[test]
fn accept_rejects_version_codec_and_schema_mismatches() {
    let hello = ProtocolHello::binary();
    let error = hello.accept(DEBUG_JSONL_CODEC_ID, None).unwrap_err();
    assert_eq!(
        error,
        WireCodecError::CodecMismatch {
            expected: DEBUG_JSONL_CODEC_ID.into(),
            actual: BINARY_CODEC_ID.into(),
        }
    );

    let mut future = hello.clone();
    future.protocol.major = 2;
    assert_eq!(
        future.accept(BINARY_CODEC_ID, None).unwrap_err(),
        WireCodecError::VersionMismatch { expected_major: 1, actual_major: 2 }
    );

    let mut other_schema = hello.clone();
    other_schema.schema_revision = "other/1".into();
    assert_eq!(
        other_schema.accept(BINARY_CODEC_ID, None).unwrap_err(),
        WireCodecError::SchemaMismatch {
            expected: SCHEMA_REVISION.into(),
            actual: "other/1".into(),
        }
    );
}

#[test]
fn ack_validation_rejects_a_different_codec_or_schema() {
    let hello = ProtocolHello::binary();
    let mut ack = hello.accept(BINARY_CODEC_ID, None).unwrap();
    ack.codec_id = DEBUG_JSONL_CODEC_ID.into();
    assert!(matches!(
        ack.validate_for(&hello),
        Err(WireCodecError::CodecMismatch { .. })
    ));
    let mut ack = hello.accept(BINARY_CODEC_ID, None).unwrap();
    ack.schema_revision = "other/1".into();
    assert!(matches!(
        ack.validate_for(&hello),
        Err(WireCodecError::SchemaMismatch { .. })
    ));
    let mut ack = hello.accept(BINARY_CODEC_ID, None).unwrap();
    ack.protocol.major = 3;
    assert!(matches!(
        ack.validate_for(&hello),
        Err(WireCodecError::VersionMismatch { .. })
    ));
}

#[test]
fn hello_with_limits_rejects_limits_that_do_not_fit() {
    let too_large = WireLimits {
        max_frame_bytes: u32::MAX as usize + 1,
        ..WireLimits::default()
    };
    if usize::BITS > 32 {
        assert_eq!(
            ProtocolHello::debug_jsonl_with_limits(too_large),
            Err(WireCodecError::LimitMismatch)
        );
    }
    assert!(WireLimits::default().validate().is_ok());
}

#[test]
fn opcode_registry_round_trips_codes_and_methods() {
    let all = Opcode::all();
    assert_eq!(all.len(), 18);
    for (i, opcode) in all.iter().enumerate() {
        assert_eq!(Opcode::from_u16(opcode.to_u16()), Ok(*opcode));
        assert_eq!(Opcode::from_method(opcode.method()), Ok(*opcode));
        for other in &all[i + 1..] {
            assert_ne!(opcode.to_u16(), other.to_u16());
            assert_ne!(opcode.method(), other.method());
        }
    }
    assert_eq!(Opcode::RunnerCancel.to_u16(), 0x1002);
    assert_eq!(Opcode::ResourceCreateCowState.method(), "resource.create_cow_state");
    assert_eq!(Opcode::from_u16(0x7fff), Err(WireCodecError::UnknownOpcode(0x7fff)));
    assert_eq!(
        Opcode::from_method("runner.fly"),
        Err(WireCodecError::UnknownMethod("runner.fly".into()))
    );
    let management: Vec<Opcode> = all.into_iter().filter(|op| op.is_management()).collect();
    assert_eq!(
        management,
        vec![Opcode::PluginInitialize, Opcode::RunnerCancel, Opcode::RunnerDispose]
    );
}

#[test]
fn wire_flags_accept_exactly_one_direction() {
    assert_eq!(WireFlags::from_bits(0x0001).unwrap().bits(), 0x0001);
    assert_eq!(WireFlags::from_bits(0x0009).unwrap().bits(), 0x0009);
    assert_eq!(WireFlags::from_bits(0x0006).unwrap().bits(), 0x0006);
    assert_eq!(WireFlags::from_bits(0x0003), Err(WireCodecError::InvalidFlags(0x0003)));
    assert_eq!(WireFlags::from_bits(0x0000), Err(WireCodecError::InvalidFlags(0x0000)));
    assert_eq!(WireFlags::from_bits(0x0005), Err(WireCodecError::InvalidFlags(0x0005)));
    assert_eq!(WireFlags::from_bits(0x0011), Err(WireCodecError::InvalidFlags(0x0011)));
    let both = WireFlags::response().union(WireFlags::error());
    assert!(both.contains(WireFlags::error()));
    assert!(!both.contains(WireFlags::request()));
}

#[test]
fn encoded_frame_has_the_documented_layout() {
    let encoded = encode_frame(
        Opcode::TaskCancel,
        WireFlags::request(),
        0x0102_0304_0506_0708,
        vec![0xc0],
        WireLimits::default(),
    )
    .unwrap();
    assert_eq!(
        encoded,
        vec![
            0, 0, 0, 25, // body length
            0x4d, 0x55, 0x54, 0x53, // magic
            0, 1, 0, 0, // version 1.0
            0x20, 0x02, // opcode
            0, 1, // flags
            1, 2, 3, 4, 5, 6, 7, 8, // request id
            0, 0, 0, 1, // payload length
            0xc0,
        ]
    );
}

#[test]
fn every_encoded_frame_decodes_to_its_header_and_payload() {
    for opcode in Opcode::all() {
        let payload = dispose_payload();
        let encoded = encode_binary_request(7, opcode, payload.clone(), WireLimits::default()).unwrap();
        let frame = decode_binary_frame(&encoded, WireLimits::default()).unwrap();
        assert_eq!(frame.header.opcode, opcode);
        assert_eq!(frame.header.request_id, 7);
        assert_eq!(frame.header.payload_len as usize, payload.len());
        assert_eq!(frame.header.flags.contains(WireFlags::management()), opcode.is_management());
        assert_eq!(frame.payload, payload);
        validate_request_frame(&frame, opcode).unwrap();
    }
}

#[test]
fn decoder_reports_each_header_defect() {
    let limits = WireLimits::default();
    let good = encode_frame(Opcode::TaskCancel, WireFlags::request(), 9, vec![0xc0], limits).unwrap();

    assert_eq!(
        decode_binary_frame(&good[..3], limits),
        Err(WireCodecError::Truncated { expected: 4, actual: 3 })
    );
    assert_eq!(
        decode_binary_frame(&good[..good.len() - 1], limits),
        Err(WireCodecError::Truncated { expected: 25, actual: 24 })
    );

    let mut short = good.clone();
    short[3] = 10;
    assert_eq!(
        decode_binary_frame(&short, limits),
        Err(WireCodecError::Truncated { expected: 24, actual: 10 })
    );

    let mut bad_magic = good.clone();
    bad_magic[4] = 0;
    assert_eq!(
        decode_binary_frame(&bad_magic, limits),
        Err(WireCodecError::InvalidMagic(0x0055_5453))
    );

    let mut bad_version = good.clone();
    bad_version[9] = 2;
    assert_eq!(
        decode_binary_frame(&bad_version, limits),
        Err(WireCodecError::VersionMismatch { expected_major: 1, actual_major: 2 })
    );

    let mut minor = good.clone();
    minor[11] = 7;
    assert_eq!(decode_binary_frame(&minor, limits).unwrap().header.protocol.minor, 7);

    let mut bad_opcode = good.clone();
    bad_opcode[12] = 0x7f;
    bad_opcode[13] = 0xff;
    assert_eq!(
        decode_binary_frame(&bad_opcode, limits),
        Err(WireCodecError::UnknownOpcode(0x7fff))
    );

    let mut bad_flags = good.clone();
    bad_flags[15] = 3;
    assert_eq!(decode_binary_frame(&bad_flags, limits), Err(WireCodecError::InvalidFlags(3)));

    let zero_id = encode_frame(Opcode::TaskCancel, WireFlags::request(), 0, vec![0xc0], limits).unwrap();
    assert_eq!(decode_binary_frame(&zero_id, limits), Err(WireCodecError::InvalidRequestId));

    let mut mismatch = good.clone();
    mismatch[27] = 2;
    assert_eq!(
        decode_binary_frame(&mismatch, limits),
        Err(WireCodecError::PayloadLengthMismatch { declared: 2, actual: 1 })
    );

    let small = WireLimits { max_payload_bytes: 0, ..limits };
    assert_eq!(
        decode_binary_frame(&good, small),
        Err(WireCodecError::PayloadOversized { actual: 1, limit: 0 })
    );

    let tiny_frames = WireLimits { max_frame_bytes: 24, ..limits };
    assert_eq!(
        decode_binary_frame(&good, tiny_frames),
        Err(WireCodecError::FrameOversized { actual: 25, limit: 24 })
    );
}

#[test]
fn encoder_rejects_oversized_payloads_and_frames() {
    let limits = WireLimits { max_payload_bytes: 2, ..WireLimits::default() };
    assert_eq!(
        encode_frame(Opcode::TaskCancel, WireFlags::request(), 1, vec![0; 3], limits),
        Err(WireCodecError::PayloadOversized { actual: 3, limit: 2 })
    );
    let limits = WireLimits { max_frame_bytes: 25, ..WireLimits::default() };
    assert_eq!(
        encode_frame(Opcode::TaskCancel, WireFlags::request(), 1, vec![0; 2], limits),
        Err(WireCodecError::FrameOversized { actual: 26, limit: 25 })
    );
}

#[test]
fn request_encoder_rejects_zero_ids_and_malformed_payloads() {
    assert_eq!(
        encode_binary_request(0, Opcode::TaskCancel, vec![0xc0], WireLimits::default()),
        Err(WireCodecError::InvalidRequestId)
    );
    assert!(matches!(
        encode_binary_request(1, Opcode::TaskCancel, vec![0xc0, 0xc0], WireLimits::default()),
        Err(WireCodecError::Encode(_))
    ));
}

#[test]
fn responses_are_flagged_and_matched_to_their_request() {
    let limits = WireLimits::default();
    let ok = encode_binary_response(5, Opcode::TaskCancel, Ok(vec![0xc0]), limits).unwrap();
    let frame = decode_binary_frame(&ok, limits).unwrap();
    assert_eq!(check_response_frame(&frame, Opcode::TaskCancel, 5), Ok(false));
    assert_eq!(
        check_response_frame(&frame, Opcode::TaskCancel, 6),
        Err(WireCodecError::ResponseMismatch)
    );
    assert_eq!(
        check_response_frame(&frame, Opcode::TaskOutcome, 5),
        Err(WireCodecError::ResponseMismatch)
    );
    assert_eq!(
        validate_request_frame(&frame, Opcode::TaskCancel),
        Err(WireCodecError::ResponseMismatch)
    );

    let failed = encode_binary_response(5, Opcode::TaskCancel, Err(vec![0x80]), limits).unwrap();
    let frame = decode_binary_frame(&failed, limits).unwrap();
    assert_eq!(frame.header.flags.bits(), 0x0006);
    assert_eq!(check_response_frame(&frame, Opcode::TaskCancel, 5), Ok(true));

    assert_eq!(
        encode_binary_response(0, Opcode::TaskCancel, Ok(vec![0xc0]), limits),
        Err(WireCodecError::InvalidRequestId)
    );
}

#[test]
fn frame_bytes_reader_returns_whole_frames_and_stops_at_end_of_input() {
    let limits = WireLimits::default();
    let first = encode_binary_request(1, Opcode::TaskCancel, vec![0xc0], limits).unwrap();
    let second = encode_binary_request(2, Opcode::RunnerDispose, dispose_payload(), limits).unwrap();
    let mut stream = first.clone();
    stream.extend_from_slice(&second);
    let mut cursor = Cursor::new(stream);
    assert_eq!(read_binary_frame_bytes(&mut cursor, limits).unwrap(), Some(first));
    assert_eq!(read_binary_frame_bytes(&mut cursor, limits).unwrap(), Some(second));
    assert_eq!(read_binary_frame_bytes(&mut cursor, limits).unwrap(), None);

    let cut = encode_binary_request(3, Opcode::TaskCancel, vec![0xc0], limits).unwrap();
    let error = read_binary_frame_bytes(&mut Cursor::new(cut[..10].to_vec()), limits).unwrap_err();
    assert!(matches!(error, WireCodecError::Io(_)));
}

#[test]
fn opcode_registry_codes_and_methods_are_unique() {
    let all = Opcode::all();
    let codes: std::collections::BTreeSet<u16> = all.iter().map(|op| op.to_u16()).collect();
    assert_eq!(codes.len(), all.len());
    let methods: std::collections::BTreeSet<&str> = all.iter().map(|op| op.method()).collect();
    assert_eq!(methods.len(), all.len());
    for op in &all {
        assert_eq!(Opcode::from_u16(op.to_u16()), Ok(*op));
        assert_eq!(Opcode::from_method(op.method()), Ok(*op));
    }
}

#[test]
fn frame_prefix_decides_end_length_and_refusal() {
    let limits = WireLimits::default();
    assert_eq!(frame_prefix_step(0, &[], limits), Ok(None));
    assert_eq!(frame_prefix_step(1, &[0, 0, 0, 40], limits), Ok(Some(40)));
    assert_eq!(
        frame_prefix_step(4, &[0, 0, 0, 3], limits),
        Err(WireCodecError::Truncated { expected: 24, actual: 3 })
    );
    assert_eq!(
        frame_prefix_step(4, &[0xff, 0, 0, 0], limits),
        Err(WireCodecError::FrameOversized { actual: 0xff00_0000, limit: limits.max_frame_bytes })
    );
}
