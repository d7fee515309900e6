//! Envelope checks of the typed JSONL debug codec. The JSON text itself is produced
//! and parsed by the codec; this module decides whether an envelope is acceptable,
//! measuring a payload by the JSON text the codec writes for it.
use vstd::prelude::*;
use vstd::string::*;

use crate::protocol::{Opcode, WireCodecError, WireLimits, WireProtocolVersion, CURRENT_MAJOR};
use crate::schema::{hex, hex_chars};
use crate::text::{decimal, decimal_chars, str_eq};

verus! {

/// A payload longer than the payload limit is refused.
pub fn validate_payload_len(length: usize, limits: WireLimits) -> (r: Result<(), WireCodecError>)
    ensures
        r is Ok <==> length <= limits.max_payload_bytes,
        r is Err ==> r == Err::<(), WireCodecError>(
            WireCodecError::PayloadOversized { actual: length, limit: limits.max_payload_bytes },
        ),
{
    if length > limits.max_payload_bytes {
        return Err(
            WireCodecError::PayloadOversized { actual: length, limit: limits.max_payload_bytes },
        );
    }
    Ok(())
}

/// A JSONL line longer than the line limit is refused.
pub fn validate_jsonl_line_len(length: usize, limits: WireLimits) -> (r: Result<(), WireCodecError>)
    ensures
        r is Ok <==> length <= limits.max_jsonl_line_bytes,
        r is Err ==> r == Err::<(), WireCodecError>(
            WireCodecError::FrameOversized { actual: length, limit: limits.max_jsonl_line_bytes },
        ),
{
    if length > limits.max_jsonl_line_bytes {
        return Err(
            WireCodecError::FrameOversized { actual: length, limit: limits.max_jsonl_line_bytes },
        );
    }
    Ok(())
}

/// The payload length an envelope declares must be the actual encoded length, which
/// must itself be within the payload limit.
pub fn check_declared_payload(declared: u32, actual: usize, limits: WireLimits) -> (r: Result<
    (),
    WireCodecError,
>)
    ensures
        r is Ok <==> actual <= limits.max_payload_bytes && declared == actual,
        actual > limits.max_payload_bytes ==> r == Err::<(), WireCodecError>(
            WireCodecError::PayloadOversized { actual, limit: limits.max_payload_bytes },
        ),
        actual <= limits.max_payload_bytes && declared != actual ==> r == Err::<(), WireCodecError>(
            WireCodecError::PayloadLengthMismatch { declared: declared as usize, actual },
        ),
{
    validate_payload_len(actual, limits)?;
    if declared as usize != actual {
        return Err(WireCodecError::PayloadLengthMismatch { declared: declared as usize, actual });
    }
    Ok(())
}

/// Checks the declared payload length against the payload's JSON text, as the
/// codec wrote it.
pub fn validate_declared_payload(declared: u32, payload_json: &[u8], limits: WireLimits) -> (r: Result<
    (),
    WireCodecError,
>)
    ensures
        r is Ok <==> payload_json@.len() <= limits.max_payload_bytes && declared == payload_json@.len(),
        payload_json@.len() > limits.max_payload_bytes ==> r == Err::<(), WireCodecError>(
            WireCodecError::PayloadOversized { actual: payload_json@.len() as usize, limit: limits.max_payload_bytes },
        ),
        payload_json@.len() <= limits.max_payload_bytes && declared != payload_json@.len() ==> r == Err::<
            (),
            WireCodecError,
        >(WireCodecError::PayloadLengthMismatch { declared: declared as usize, actual: payload_json@.len() as usize }),
{
    check_declared_payload(declared, payload_json.len(), limits)
}

/// The header checks of a request envelope, before its payload length is measured.
pub fn check_envelope_header(
    request_id: u64,
    protocol: WireProtocolVersion,
    opcode: u16,
    method: Option<&str>,
) -> (r: Result<Opcode, WireCodecError>)
    ensures
        request_id == 0 ==> r == Err::<Opcode, WireCodecError>(WireCodecError::InvalidRequestId),
        request_id != 0 && protocol.major != CURRENT_MAJOR ==> r == Err::<Opcode, WireCodecError>(
            WireCodecError::VersionMismatch {
                expected_major: CURRENT_MAJOR,
                actual_major: protocol.major,
            },
        ),
        request_id != 0 && protocol.major == CURRENT_MAJOR && (forall|op: Opcode|
            op.code() != opcode) ==> r == Err::<Opcode, WireCodecError>(
            WireCodecError::UnknownOpcode(opcode),
        ),
        r is Ok <==> request_id != 0 && protocol.major == CURRENT_MAJOR && (exists|op: Opcode|
            op.code() == opcode && (method matches Some(m) ==> m@ == op.method_name())),
        r matches Ok(op) ==> op.code() == opcode && (method matches Some(m) ==> m@
            == op.method_name()),
        r matches Err(WireCodecError::MethodMismatch { opcode: code, expected, actual }) ==> (code
            == opcode && (method matches Some(m) && actual@ == m@) && (exists|op: Opcode|
            op.code() == opcode && expected@ == op.method_name())),
        request_id != 0 && protocol.major == CURRENT_MAJOR && (exists|op: Opcode| op.code() == opcode)
            && !check_envelope_header_ok(request_id, protocol, opcode, method) ==> (r matches Err(e)
            && e is MethodMismatch),
{
    if request_id == 0 {
        return Err(WireCodecError::InvalidRequestId);
    }
    protocol.ensure_compatible()?;
    let op = Opcode::from_u16(opcode)?;
    proof {
        assert forall|o: Opcode| o.code() == opcode implies o == op by {
            crate::protocol::lemma_opcode_codes_distinct(o, op);
        }
    }
    match method {
        Some(m) => {
            if !str_eq(m, op.method()) {
                return Err(
                    WireCodecError::MethodMismatch {
                        opcode: op.to_u16(),
                        expected: String::from_str(op.method()),
                        actual: String::from_str(m),
                    },
                );
            }
        },
        None => {},
    }
    Ok(op)
}

/// All checks of a request envelope: request id, version, opcode, method name,
/// then the payload limit and the declared length against the payload's JSON text.
pub fn validate_envelope(
    request_id: u64,
    protocol: WireProtocolVersion,
    opcode: u16,
    method: Option<&str>,
    payload_len: u32,
    payload_json: &[u8],
    limits: WireLimits,
) -> (r: Result<(), WireCodecError>)
    ensures
        r is Ok <==> check_envelope_header_ok(request_id, protocol, opcode, method)
            && payload_json@.len() <= limits.max_payload_bytes && payload_len == payload_json@.len(),
        request_id == 0 ==> r == Err::<(), WireCodecError>(WireCodecError::InvalidRequestId),
        request_id != 0 && protocol.major != CURRENT_MAJOR ==> r == Err::<(), WireCodecError>(
            WireCodecError::VersionMismatch { expected_major: CURRENT_MAJOR, actual_major: protocol.major },
        ),
        request_id != 0 && protocol.major == CURRENT_MAJOR && (forall|op: Opcode| op.code() != opcode)
            ==> r == Err::<(), WireCodecError>(WireCodecError::UnknownOpcode(opcode)),
        request_id != 0 && protocol.major == CURRENT_MAJOR && (exists|op: Opcode| op.code() == opcode)
            && !check_envelope_header_ok(request_id, protocol, opcode, method) ==> (r matches Err(
            WireCodecError::MethodMismatch { opcode: code, expected, actual: named },
        ) && code == opcode && (method matches Some(m) && named@ == m@) && (exists|op: Opcode|
            op.code() == opcode && expected@ == op.method_name())),
        check_envelope_header_ok(request_id, protocol, opcode, method) && payload_json@.len()
            > limits.max_payload_bytes ==> r == Err::<(), WireCodecError>(
            WireCodecError::PayloadOversized { actual: payload_json@.len() as usize, limit: limits.max_payload_bytes },
        ),
        check_envelope_header_ok(request_id, protocol, opcode, method) && payload_json@.len()
            <= limits.max_payload_bytes && payload_len != payload_json@.len() ==> r == Err::<(), WireCodecError>(
            WireCodecError::PayloadLengthMismatch { declared: payload_len as usize, actual: payload_json@.len() as usize },
        ),
{
    check_envelope_header(request_id, protocol, opcode, method)?;
    validate_declared_payload(payload_len, payload_json, limits)
}

/// A typed decoder accepts only envelopes of its own request's opcode.
pub fn check_request_opcode(expected: Opcode, opcode: u16) -> (r: Result<(), WireCodecError>)
    ensures
        r is Ok <==> opcode == expected.code(),
        r is Err ==> r == Err::<(), WireCodecError>(WireCodecError::UnknownOpcode(opcode)),
{
    if opcode != expected.to_u16() {
        return Err(WireCodecError::UnknownOpcode(opcode));
    }
    Ok(())
}

/// The header of an envelope passes [`check_envelope_header`].
pub open spec fn check_envelope_header_ok(
    request_id: u64,
    protocol: WireProtocolVersion,
    opcode: u16,
    method: Option<&str>,
) -> bool {
    request_id != 0 && protocol.major == CURRENT_MAJOR && (exists|op: Opcode|
        op.code() == opcode && (method matches Some(m) ==> m@ == op.method_name()))
}

/// A 16-bit code as `{:#06x}` writes it: `0x` and four lower-case hex digits.
pub open spec fn hex16(v: u16) -> Seq<char> {
    "0x"@ + hex_chars(seq![(v / 256) as u8, (v % 256) as u8])
}

pub(crate) fn hex16_text(v: u16) -> (r: String)
    ensures
        r@ == hex16(v),
{
    let bytes: [u8; 2] = [(v / 256) as u8, (v % 256) as u8];
    assert(bytes@ =~= seq![(v / 256) as u8, (v % 256) as u8]);
    let mut text = String::from_str("0x");
    let digits = hex(&bytes);
    text.append(digits.as_str());
    text
}

fn decode_error(message: String) -> (r: WireCodecError)
    ensures
        r == WireCodecError::Decode(message),
{
    WireCodecError::Decode(message)
}

/// The checks on a response envelope before its payload is looked at: it answers the
/// expected request with the expected opcode in a compatible version, and carries a
/// result exactly when it reports success and an error exactly when it does not.
pub fn check_response_header(
    expected_request_id: u64,
    expected: Opcode,
    request_id: u64,
    protocol: WireProtocolVersion,
    opcode: u16,
    ok: bool,
    has_result: bool,
    has_error: bool,
) -> (r: Result<(), WireCodecError>)
    ensures
        request_id != expected_request_id ==> (r matches Err(WireCodecError::Decode(m)) && m@
            == "response request id mismatch: expected "@ + decimal_chars(expected_request_id as nat) + ", got "@
            + decimal_chars(request_id as nat)),
        request_id == expected_request_id && opcode != expected.code() ==> (r matches Err(
            WireCodecError::Decode(m),
        ) && m@ == "response opcode mismatch: expected "@ + hex16(expected.code() as u16) + ", got "@ + hex16(
            opcode,
        )),
        request_id == expected_request_id && opcode == expected.code() && protocol.major != CURRENT_MAJOR
            ==> r == Err::<(), WireCodecError>(
            WireCodecError::VersionMismatch { expected_major: CURRENT_MAJOR, actual_major: protocol.major },
        ),
        request_id == expected_request_id && opcode == expected.code() && protocol.major == CURRENT_MAJOR
            ==> if ok {
            if has_error {
                r matches Err(WireCodecError::Decode(m)) && m@ == "successful response contains error"@
            } else {
                r is Ok
            }
        } else {
            if has_result {
                r matches Err(WireCodecError::Decode(m)) && m@ == "failed response contains result"@
            } else if !has_error {
                r matches Err(WireCodecError::Decode(m)) && m@ == "response missing error"@
            } else {
                r is Ok
            }
        },
{
    if request_id != expected_request_id {
        let mut m = String::from_str("response request id mismatch: expected ");
        m.append(decimal(expected_request_id).as_str());
        m.append(", got ");
        m.append(decimal(request_id).as_str());
        return Err(decode_error(m));
    }
    let code = expected.to_u16();
    if opcode != code {
        let mut m = String::from_str("response opcode mismatch: expected ");
        m.append(hex16_text(code).as_str());
        m.append(", got ");
        m.append(hex16_text(opcode).as_str());
        return Err(decode_error(m));
    }
    protocol.ensure_compatible()?;
    if ok {
        if has_error {
            return Err(decode_error(String::from_str("successful response contains error")));
        }
    } else {
        if has_result {
            return Err(decode_error(String::from_str("failed response contains result")));
        }
        if !has_error {
            return Err(decode_error(String::from_str("response missing error")));
        }
    }
    Ok(())
}

} // verus!
