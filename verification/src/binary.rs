//! Binary request and response framing on top of [`crate::frame`]. The payloads
//! are MessagePack bytes produced by the caller's serializer; this module checks
//! their structure, chooses the flags, and frames them.
use vstd::prelude::*;
use vstd::string::*;

use crate::bytes::get_u32_be;
use crate::frame::{
    decode_binary_frame, decode_frame_body, encode_frame, encode_result, frame_agrees,
    frame_bytes, frame_result, has_bits, lemma_encoder_flags_valid, lemma_frame_roundtrip, length_result,
    validate_frame_length, BinaryFrame, WireFlags, WireHeader, BINARY_HEADER_LEN,
    BINARY_LENGTH_PREFIX_LEN, FLAG_ERROR, FLAG_MANAGEMENT, FLAG_REQUEST, FLAG_RESPONSE,
};
use crate::msgpack::{msgpack_valid, validate_messagepack_structure};
use crate::operations::WireRequest;
use crate::protocol::{
    Opcode, WireCodecError, WireLimits, WireProtocolVersion, CURRENT_MAJOR, CURRENT_MINOR,
};

verus! {

/// The flags of a request frame for `opcode`.
pub open spec fn request_flags(opcode: Opcode) -> WireFlags {
    if opcode.management() {
        WireFlags(FLAG_REQUEST | FLAG_MANAGEMENT)
    } else {
        WireFlags(FLAG_REQUEST)
    }
}

/// The flags of a response frame; error responses carry the error flag.
pub open spec fn response_flags(is_error: bool) -> WireFlags {
    if is_error {
        WireFlags(FLAG_RESPONSE | FLAG_ERROR)
    } else {
        WireFlags(FLAG_RESPONSE)
    }
}

/// An executable encoding agrees with a verdict on the bytes.
pub open spec fn bytes_agree(r: Result<Vec<u8>, WireCodecError>, s: Result<Seq<u8>, WireCodecError>) -> bool {
    match r {
        Ok(bytes) => s == Ok::<Seq<u8>, WireCodecError>(bytes@),
        Err(e) => s == Err::<Seq<u8>, WireCodecError>(e),
    }
}

/// Checks an encoded MessagePack payload before it is framed.
fn check_encoded_payload(payload: &Vec<u8>) -> (r: Result<(), WireCodecError>)
    ensures
        r is Ok <==> msgpack_valid(payload@),
        r matches Err(e) ==> e is Encode,
{
    match validate_messagepack_structure(payload.as_slice()) {
        Ok(()) => Ok(()),
        Err(_) => Err(WireCodecError::Encode(String::from_str("payload is not one MessagePack value"))),
    }
}

/// The checks a request passes before it is encoded: a request id first, then
/// the request's own rules (such as the bound on inline resource bytes).
pub fn check_outgoing_request<R: WireRequest>(request_id: u64, request: &R, limits: WireLimits) -> (r: Result<
    (),
    WireCodecError,
>)
    ensures
        request_id == 0 ==> r == Err::<(), WireCodecError>(WireCodecError::InvalidRequestId),
        request_id != 0 ==> (r is Ok <==> request.inline_bytes() <= limits.max_inline_resource_bytes),
        request_id != 0 && r is Err ==> r == Err::<(), WireCodecError>(
            WireCodecError::InlineResourceOversized {
                actual: request.inline_bytes() as usize,
                limit: limits.max_inline_resource_bytes,
            },
        ),
{
    if request_id == 0 {
        return Err(WireCodecError::InvalidRequestId);
    }
    request.validate(limits)
}

/// Frames the MessagePack encoding of a request.
pub fn encode_binary_request(
    request_id: u64,
    opcode: Opcode,
    payload: Vec<u8>,
    limits: WireLimits,
) -> (r: Result<Vec<u8>, WireCodecError>)
    requires
        payload@.len() + BINARY_HEADER_LEN <= usize::MAX,
    ensures
        request_id == 0 ==> r == Err::<Vec<u8>, WireCodecError>(WireCodecError::InvalidRequestId),
        request_id != 0 && !msgpack_valid(payload@) ==> (r matches Err(e) && e is Encode),
        request_id != 0 && msgpack_valid(payload@) ==> bytes_agree(
            r,
            encode_result(opcode, request_flags(opcode), request_id, payload@, limits),
        ),
{
    if request_id == 0 {
        return Err(WireCodecError::InvalidRequestId);
    }
    check_encoded_payload(&payload)?;
    let flags = if opcode.is_management() {
        WireFlags::request().union(WireFlags::management())
    } else {
        WireFlags::request()
    };
    encode_frame(opcode, flags, request_id, payload, limits)
}

/// Frames the MessagePack encoding of a response: the value on success, the
/// runtime error on failure.
pub fn encode_binary_response(
    request_id: u64,
    opcode: Opcode,
    response: Result<Vec<u8>, Vec<u8>>,
    limits: WireLimits,
) -> (r: Result<Vec<u8>, WireCodecError>)
    requires
        match response {
            Ok(p) => p@.len() + BINARY_HEADER_LEN <= usize::MAX,
            Err(p) => p@.len() + BINARY_HEADER_LEN <= usize::MAX,
        },
    ensures
        request_id == 0 ==> r == Err::<Vec<u8>, WireCodecError>(WireCodecError::InvalidRequestId),
        request_id != 0 ==> match response {
            Ok(p) => if msgpack_valid(p@) {
                bytes_agree(r, encode_result(opcode, response_flags(false), request_id, p@, limits))
            } else {
                (r matches Err(e) && e is Encode)
            },
            Err(p) => if msgpack_valid(p@) {
                bytes_agree(r, encode_result(opcode, response_flags(true), request_id, p@, limits))
            } else {
                (r matches Err(e) && e is Encode)
            },
        },
{
    if request_id == 0 {
        return Err(WireCodecError::InvalidRequestId);
    }
    match response {
        Ok(payload) => {
            check_encoded_payload(&payload)?;
            encode_frame(opcode, WireFlags::response(), request_id, payload, limits)
        },
        Err(payload) => {
            check_encoded_payload(&payload)?;
            encode_frame(
                opcode,
                WireFlags::response().union(WireFlags::error()),
                request_id,
                payload,
                limits,
            )
        },
    }
}

/// A decoded frame is a request for `opcode`.
pub fn validate_request_frame(frame: &BinaryFrame, opcode: Opcode) -> (r: Result<(), WireCodecError>)
    ensures
        r is Ok <==> has_bits(frame.header.flags.0, FLAG_REQUEST) && frame.header.opcode == opcode,
        r is Err ==> r == Err::<(), WireCodecError>(WireCodecError::ResponseMismatch),
{
    if !frame.header.flags.contains(WireFlags::request()) || frame.header.opcode != opcode {
        return Err(WireCodecError::ResponseMismatch);
    }
    Ok(())
}

/// A decoded frame answers the request `expected_request_id` for `opcode`; the
/// result tells whether its payload is a runtime error rather than the value.
pub fn check_response_frame(
    frame: &BinaryFrame,
    opcode: Opcode,
    expected_request_id: u64,
) -> (r: Result<bool, WireCodecError>)
    ensures
        r is Ok <==> has_bits(frame.header.flags.0, FLAG_RESPONSE) && frame.header.opcode == opcode
            && frame.header.request_id == expected_request_id,
        r is Err ==> r == Err::<bool, WireCodecError>(WireCodecError::ResponseMismatch),
        r matches Ok(is_error) ==> is_error == has_bits(frame.header.flags.0, FLAG_ERROR),
{
    if !frame.header.flags.contains(WireFlags::response()) || frame.header.opcode != opcode
        || frame.header.request_id != expected_request_id {
        return Err(WireCodecError::ResponseMismatch);
    }
    Ok(frame.header.flags.contains(WireFlags::error()))
}

/// The payload of a decoded frame is one well-formed MessagePack value; the
/// caller's deserializer runs only on payloads that pass.
pub fn validate_binary_payload(frame: &BinaryFrame) -> (r: Result<(), WireCodecError>)
    ensures
        r is Ok <==> msgpack_valid(frame.payload@),
        r matches Err(e) ==> e is Decode,
{
    validate_messagepack_structure(frame.payload.as_slice())
}

/// A request framed by [`encode_binary_request`] decodes to a request frame for the
/// same opcode, request id and payload, flagged as management exactly for management
/// operations, and passes both request-frame and payload validation.
pub proof fn lemma_request_roundtrip(
    request_id: u64,
    opcode: Opcode,
    payload: Seq<u8>,
    limits: WireLimits,
)
    requires
        request_id != 0,
        msgpack_valid(payload),
        payload.len() <= limits.max_payload_bytes,
        BINARY_HEADER_LEN + payload.len() <= limits.max_frame_bytes,
        BINARY_HEADER_LEN + payload.len() <= u32::MAX,
    ensures
        encode_result(opcode, request_flags(opcode), request_id, payload, limits) == Ok::<
            Seq<u8>,
            WireCodecError,
        >(frame_bytes(opcode, request_flags(opcode), request_id, payload)),
        frame_result(frame_bytes(opcode, request_flags(opcode), request_id, payload), limits)
            == Ok::<(WireHeader, Seq<u8>), WireCodecError>(
            (
                WireHeader {
                    protocol: WireProtocolVersion { major: CURRENT_MAJOR, minor: CURRENT_MINOR },
                    opcode,
                    flags: request_flags(opcode),
                    request_id,
                    payload_len: payload.len() as u32,
                },
                payload,
            ),
        ),
        has_bits(request_flags(opcode).0, FLAG_REQUEST),
        !has_bits(request_flags(opcode).0, FLAG_RESPONSE),
        has_bits(request_flags(opcode).0, FLAG_MANAGEMENT) == opcode.management(),
{
    lemma_encoder_flags_valid();
    assert(0x0009u16 & 0x0001u16 == 0x0001u16 && 0x0009u16 & 0x0002u16 != 0x0002u16
        && 0x0001u16 & 0x0001u16 == 0x0001u16 && 0x0001u16 & 0x0002u16 != 0x0002u16) by (bit_vector);
    lemma_frame_roundtrip(opcode, request_flags(opcode), request_id, payload, limits);
}

/// A response framed by [`encode_binary_response`] decodes to a response frame
/// for the same request id, opcode and payload, flagged as an error exactly when
/// it carries an error.
pub proof fn lemma_response_roundtrip(
    request_id: u64,
    opcode: Opcode,
    is_error: bool,
    payload: Seq<u8>,
    limits: WireLimits,
)
    requires
        request_id != 0,
        msgpack_valid(payload),
        payload.len() <= limits.max_payload_bytes,
        BINARY_HEADER_LEN + payload.len() <= limits.max_frame_bytes,
        BINARY_HEADER_LEN + payload.len() <= u32::MAX,
    ensures
        frame_result(frame_bytes(opcode, response_flags(is_error), request_id, payload), limits)
            == Ok::<(WireHeader, Seq<u8>), WireCodecError>(
            (
                WireHeader {
                    protocol: WireProtocolVersion { major: CURRENT_MAJOR, minor: CURRENT_MINOR },
                    opcode,
                    flags: response_flags(is_error),
                    request_id,
                    payload_len: payload.len() as u32,
                },
                payload,
            ),
        ),
        has_bits(response_flags(is_error).0, FLAG_RESPONSE),
        has_bits(response_flags(is_error).0, FLAG_ERROR) == is_error,
{
    lemma_encoder_flags_valid();
    assert(0x0006u16 & 0x0002u16 == 0x0002u16 && 0x0002u16 & 0x0002u16 == 0x0002u16) by (bit_vector);
    lemma_frame_roundtrip(opcode, response_flags(is_error), request_id, payload, limits);
}

/// Wraps `std::io::Read::read_exact`: on success exactly `len` bytes were read.
/// What the bytes are depends on the reader and is not stated.
#[verifier::external_body]
fn read_exact_vec<R: std::io::Read>(reader: &mut R, len: usize) -> (r: Result<Vec<u8>, String>)
    ensures
        r matches Ok(v) ==> v@.len() == len,
{
    let mut buffer = vec![0u8; len];
    match reader.read_exact(&mut buffer) {
        Ok(()) => Ok(buffer),
        Err(error) => Err(error.to_string()),
    }
}

/// Wraps `std::io::Read::read` with a one-byte buffer: on success the count of bytes
/// read (0 at end of input) and the buffer's byte. The reader decides both.
#[verifier::external_body]
fn read_one<R: std::io::Read>(reader: &mut R) -> (r: Result<(usize, u8), String>)
    ensures
        r matches Ok((n, _)) ==> n <= 1,
{
    let mut buffer = [0u8; 1];
    match reader.read(&mut buffer) {
        Ok(count) => Ok((count, buffer[0])),
        Err(error) => Err(error.to_string()),
    }
}

/// Reads one frame: the 4-byte prefix, then, only when the declared length passes
/// the limits, exactly that many body bytes.
pub fn read_binary_frame<R: std::io::Read>(reader: &mut R, limits: WireLimits) -> (r: Result<
    BinaryFrame,
    WireCodecError,
>)
    ensures
        r matches Ok(frame) ==> exists|prefix: Seq<u8>, body: Seq<u8>|
            prefix.len() == BINARY_LENGTH_PREFIX_LEN && frame_agrees(
                r,
                frame_result(prefix + body, limits),
            ),
        r matches Err(e) ==> (e is Io || e is FrameOversized || e is Truncated || exists|
            prefix: Seq<u8>,
            body: Seq<u8>,
        | prefix.len() == BINARY_LENGTH_PREFIX_LEN && frame_agrees(r, frame_result(prefix + body, limits))),
{
    let prefix = match read_exact_vec(reader, BINARY_LENGTH_PREFIX_LEN) {
        Ok(bytes) => bytes,
        Err(detail) => return Err(WireCodecError::Io(detail)),
    };
    let declared = get_u32_be(prefix.as_slice(), 0) as usize;
    validate_frame_length(declared, limits)?;
    let body = match read_exact_vec(reader, declared) {
        Ok(bytes) => bytes,
        Err(detail) => return Err(WireCodecError::Io(detail)),
    };
    let r = decode_frame_body(body.as_slice(), limits);
    proof {
        let whole = prefix@ + body@;
        assert(whole.subrange(0, 4) =~= prefix@);
        assert(whole.subrange(4, whole.len() as int) =~= body@);
        assert(crate::bytes::u32_at(whole, 0) == crate::bytes::u32_at(prefix@, 0));
        assert(frame_result(whole, limits) == crate::frame::body_result(body@, limits));
    }
    r
}

/// The decision after the first read of a frame: a read of no bytes is a clean
/// end of input; otherwise the four prefix bytes declare the body length, which
/// must pass the limits before any body byte is read.
pub fn frame_prefix_step(count: usize, prefix: &[u8], limits: WireLimits) -> (r: Result<
    Option<usize>,
    WireCodecError,
>)
    requires
        count == 0 || prefix@.len() == BINARY_LENGTH_PREFIX_LEN,
    ensures
        count == 0 ==> r == Ok::<Option<usize>, WireCodecError>(None),
        count != 0 ==> match length_result(crate::bytes::u32_at(prefix@, 0), limits) {
            Ok(()) => r == Ok::<Option<usize>, WireCodecError>(
                Some(crate::bytes::u32_at(prefix@, 0) as usize),
            ),
            Err(e) => r == Err::<Option<usize>, WireCodecError>(e),
        },
{
    if count == 0 {
        return Ok(None);
    }
    let declared = get_u32_be(prefix, 0) as usize;
    match validate_frame_length(declared, limits) {
        Ok(()) => Ok(Some(declared)),
        Err(e) => Err(e),
    }
}

/// Reads the raw bytes of one frame, or `None` at a clean end of input. The bytes
/// are returned only after they decode as a frame under `limits`.
pub fn read_binary_frame_bytes<R: std::io::Read>(reader: &mut R, limits: WireLimits) -> (r: Result<
    Option<Vec<u8>>,
    WireCodecError,
>)
    ensures
        r matches Ok(Some(bytes)) ==> frame_result(bytes@, limits) is Ok,
        r matches Err(e) ==> (e is Io || exists|bytes: Seq<u8>|
            bytes.len() >= BINARY_LENGTH_PREFIX_LEN && #[trigger] frame_result(bytes, limits) == Err::<
                (WireHeader, Seq<u8>),
                WireCodecError,
            >(e)),
{
    let (count, first) = match read_one(reader) {
        Ok(read) => read,
        Err(detail) => return Err(WireCodecError::Io(detail)),
    };
    let mut bytes: Vec<u8> = Vec::new();
    if count != 0 {
        let mut rest = match read_exact_vec(reader, BINARY_LENGTH_PREFIX_LEN - 1) {
            Ok(bytes) => bytes,
            Err(detail) => return Err(WireCodecError::Io(detail)),
        };
        bytes.push(first);
        bytes.append(&mut rest);
    }
    let declared = match frame_prefix_step(count, bytes.as_slice(), limits) {
        Ok(Some(length)) => length,
        Ok(None) => return Ok(None),
        Err(e) => {
            assert(frame_result(bytes@, limits) == Err::<(WireHeader, Seq<u8>), WireCodecError>(e));
            return Err(e);
        },
    };
    let mut body = match read_exact_vec(reader, declared) {
        Ok(bytes) => bytes,
        Err(detail) => return Err(WireCodecError::Io(detail)),
    };
    bytes.append(&mut body);
    let decoded = decode_binary_frame(bytes.as_slice(), limits);
    match decoded {
        Ok(_) => Ok(Some(bytes)),
        Err(e) => Err(e),
    }
}

} // verus!
