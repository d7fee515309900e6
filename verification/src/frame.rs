//! The length-prefixed binary frame: a 4-byte body length, a 24-byte header
//! (magic, version, opcode, flags, request id, payload length) and the payload.
use vstd::prelude::*;
use vstd::slice::{slice_subrange, slice_to_vec};

use crate::bytes::{
    be16, be32, be64, get_u16_be, get_u32_be, get_u64_be, lemma_be16, lemma_be32, lemma_be64,
    push_u16_be, push_u32_be, push_u64_be, u16_at, u32_at, u64_at,
};
use crate::protocol::{
    lemma_opcode_codes_distinct, Opcode, WireCodecError, WireLimits, WireProtocolVersion,
    CURRENT_MAJOR, CURRENT_MINOR,
};

verus! {

pub const BINARY_LENGTH_PREFIX_LEN: usize = 4;

pub const BINARY_HEADER_LEN: usize = 24;

pub const WIRE_MAGIC: u32 = 0x4d55_5453;

/// The flag bits that are defined; every other bit must be clear.
pub const KNOWN_FLAG_BITS: u16 = 0x000f;

pub const FLAG_REQUEST: u16 = 0x0001;

pub const FLAG_RESPONSE: u16 = 0x0002;

pub const FLAG_ERROR: u16 = 0x0004;

pub const FLAG_MANAGEMENT: u16 = 0x0008;

/// Frame flags. Only values accepted by [`WireFlags::from_bits`] reach a decoded frame.
#[derive(Clone, Copy, Debug, PartialEq, Eq, Structural)]
pub struct WireFlags(pub u16);

/// `bits` has every bit of `mask` set.
pub open spec fn has_bits(bits: u16, mask: u16) -> bool {
    bits & mask == mask
}

/// Exactly one of request and response, error only on responses, no unknown bit.
pub open spec fn valid_flag_bits(bits: u16) -> bool {
    &&& bits & !KNOWN_FLAG_BITS == 0
    &&& has_bits(bits, FLAG_REQUEST) != has_bits(bits, FLAG_RESPONSE)
    &&& (has_bits(bits, FLAG_ERROR) ==> has_bits(bits, FLAG_RESPONSE))
}

impl WireFlags {
    pub fn request() -> (r: Self)
        ensures
            r.0 == FLAG_REQUEST,
    {
        WireFlags(FLAG_REQUEST)
    }

    pub fn response() -> (r: Self)
        ensures
            r.0 == FLAG_RESPONSE,
    {
        WireFlags(FLAG_RESPONSE)
    }

    pub fn error() -> (r: Self)
        ensures
            r.0 == FLAG_ERROR,
    {
        WireFlags(FLAG_ERROR)
    }

    pub fn management() -> (r: Self)
        ensures
            r.0 == FLAG_MANAGEMENT,
    {
        WireFlags(FLAG_MANAGEMENT)
    }

    pub fn bits(self) -> (r: u16)
        ensures
            r == self.0,
    {
        self.0
    }

    pub fn contains(self, other: Self) -> (r: bool)
        ensures
            r == has_bits(self.0, other.0),
    {
        self.0 & other.0 == other.0
    }

    /// The flags with the bits of both operands.
    pub fn union(self, other: Self) -> (r: Self)
        ensures
            r.0 == self.0 | other.0,
    {
        WireFlags(self.0 | other.0)
    }

    pub fn from_bits(bits: u16) -> (r: Result<Self, WireCodecError>)
        ensures
            r is Ok <==> valid_flag_bits(bits),
            r matches Ok(f) ==> f.0 == bits,
            r is Err ==> r == Err::<Self, WireCodecError>(WireCodecError::InvalidFlags(bits)),
    {
        if bits & !KNOWN_FLAG_BITS != 0 {
            return Err(WireCodecError::InvalidFlags(bits));
        }
        let flags = WireFlags(bits);
        if flags.contains(WireFlags(FLAG_REQUEST)) == flags.contains(WireFlags(FLAG_RESPONSE)) {
            return Err(WireCodecError::InvalidFlags(bits));
        }
        if flags.contains(WireFlags(FLAG_ERROR)) && !flags.contains(WireFlags(FLAG_RESPONSE)) {
            return Err(WireCodecError::InvalidFlags(bits));
        }
        Ok(flags)
    }
}

/// The flag combinations the encoders produce are all valid.
pub proof fn lemma_encoder_flags_valid()
    ensures
        valid_flag_bits(FLAG_REQUEST),
        valid_flag_bits(FLAG_REQUEST | FLAG_MANAGEMENT),
        valid_flag_bits(FLAG_RESPONSE),
        valid_flag_bits(FLAG_RESPONSE | FLAG_ERROR),
        FLAG_REQUEST | FLAG_MANAGEMENT == 0x0009u16,
        FLAG_RESPONSE | FLAG_ERROR == 0x0006u16,
        has_bits(0x0009u16, FLAG_MANAGEMENT),
        !has_bits(FLAG_REQUEST, FLAG_MANAGEMENT),
        !has_bits(FLAG_RESPONSE, FLAG_ERROR),
        has_bits(0x0006u16, FLAG_ERROR),
{
    assert(
        0x0001u16 & !0x000fu16 == 0 && 0x0001u16 & 0x0001u16 == 0x0001u16 && 0x0001u16 & 0x0002u16 != 0x0002u16 && 0x0001u16 & 0x0004u16 != 0x0004u16
        && 0x0009u16 & !0x000fu16 == 0 && 0x0009u16 & 0x0001u16 == 0x0001u16 && 0x0009u16 & 0x0002u16 != 0x0002u16 && 0x0009u16 & 0x0004u16 != 0x0004u16
        && 0x0002u16 & !0x000fu16 == 0 && 0x0002u16 & 0x0001u16 != 0x0001u16 && 0x0002u16 & 0x0002u16 == 0x0002u16 && 0x0002u16 & 0x0004u16 != 0x0004u16
        && 0x0006u16 & !0x000fu16 == 0 && 0x0006u16 & 0x0001u16 != 0x0001u16 && 0x0006u16 & 0x0002u16 == 0x0002u16 && 0x0006u16 & 0x0004u16 == 0x0004u16
        && 0x0001u16 | 0x0008u16 == 0x0009u16 && 0x0002u16 | 0x0004u16 == 0x0006u16
        && 0x0009u16 & 0x0008u16 == 0x0008u16 && 0x0001u16 & 0x0008u16 != 0x0008u16
        && 0x0002u16 & 0x0004u16 != 0x0004u16 && 0x0006u16 & 0x0004u16 == 0x0004u16
    ) by (bit_vector);
}

#[derive(Clone, Copy, Debug, PartialEq, Eq, Structural)]
pub struct WireHeader {
    pub protocol: WireProtocolVersion,
    pub opcode: Opcode,
    pub flags: WireFlags,
    pub request_id: u64,
    pub payload_len: u32,
}

#[derive(Clone, Debug, PartialEq, Eq)]
pub struct BinaryFrame {
    pub header: WireHeader,
    pub payload: Vec<u8>,
}

/// The opcode with the given code, if the registry has one.
pub open spec fn opcode_of(code: int) -> Option<Opcode> {
    if exists|op: Opcode| op.code() == code {
        Some(choose|op: Opcode| op.code() == code)
    } else {
        None
    }
}

/// The verdict on a declared body length.
pub open spec fn length_result(length: int, limits: WireLimits) -> Result<(), WireCodecError> {
    if length > limits.max_frame_bytes {
        Err(WireCodecError::FrameOversized { actual: length as usize, limit: limits.max_frame_bytes })
    } else if length < BINARY_HEADER_LEN {
        Err(WireCodecError::Truncated { expected: BINARY_HEADER_LEN, actual: length as usize })
    } else {
        Ok(())
    }
}

/// What decoding a frame body (header and payload, without the length prefix) yields.
pub open spec fn body_result(body: Seq<u8>, limits: WireLimits) -> Result<
    (WireHeader, Seq<u8>),
    WireCodecError,
> {
    let magic = u32_at(body, 0);
    let major = u16_at(body, 4);
    let minor = u16_at(body, 6);
    let code = u16_at(body, 8);
    let bits = u16_at(body, 10);
    let request_id = u64_at(body, 12);
    let payload_len = u32_at(body, 20);
    let payload = body.subrange(BINARY_HEADER_LEN as int, body.len() as int);
    if body.len() < BINARY_HEADER_LEN {
        Err(WireCodecError::Truncated { expected: BINARY_HEADER_LEN, actual: body.len() as usize })
    } else if magic != WIRE_MAGIC {
        Err(WireCodecError::InvalidMagic(magic as u32))
    } else if major != CURRENT_MAJOR {
        Err(WireCodecError::VersionMismatch { expected_major: CURRENT_MAJOR, actual_major: major as u16 })
    } else if opcode_of(code) is None {
        Err(WireCodecError::UnknownOpcode(code as u16))
    } else if !valid_flag_bits(bits as u16) {
        Err(WireCodecError::InvalidFlags(bits as u16))
    } else if request_id == 0 {
        Err(WireCodecError::InvalidRequestId)
    } else if payload_len > limits.max_payload_bytes {
        Err(WireCodecError::PayloadOversized { actual: payload_len as usize, limit: limits.max_payload_bytes })
    } else if payload_len != payload.len() {
        Err(WireCodecError::PayloadLengthMismatch { declared: payload_len as usize, actual: payload.len() as usize })
    } else {
        Ok(
            (
                WireHeader {
                    protocol: WireProtocolVersion { major: major as u16, minor: minor as u16 },
                    opcode: opcode_of(code)->0,
                    flags: WireFlags(bits as u16),
                    request_id: request_id as u64,
                    payload_len: payload_len as u32,
                },
                payload,
            ),
        )
    }
}

/// What decoding a whole length-prefixed frame yields.
pub open spec fn frame_result(bytes: Seq<u8>, limits: WireLimits) -> Result<
    (WireHeader, Seq<u8>),
    WireCodecError,
> {
    if bytes.len() < BINARY_LENGTH_PREFIX_LEN {
        Err(WireCodecError::Truncated { expected: BINARY_LENGTH_PREFIX_LEN, actual: bytes.len() as usize })
    } else {
        let declared = u32_at(bytes, 0);
        match length_result(declared, limits) {
            Err(e) => Err(e),
            Ok(()) => if declared != bytes.len() - BINARY_LENGTH_PREFIX_LEN {
                Err(
                    WireCodecError::Truncated {
                        expected: declared as usize,
                        actual: (bytes.len() - BINARY_LENGTH_PREFIX_LEN) as usize,
                    },
                )
            } else {
                body_result(bytes.subrange(BINARY_LENGTH_PREFIX_LEN as int, bytes.len() as int), limits)
            },
        }
    }
}

/// An executable frame agrees with a decoding verdict.
pub open spec fn frame_agrees(
    r: Result<BinaryFrame, WireCodecError>,
    s: Result<(WireHeader, Seq<u8>), WireCodecError>,
) -> bool {
    match r {
        Ok(frame) => s matches Ok((h, p)) && frame.header == h && frame.payload@ == p,
        Err(e) => s matches Err(e2) && e == e2,
    }
}

/// The 24 header bytes of a frame.
pub open spec fn header_bytes(
    opcode: Opcode,
    flags: WireFlags,
    request_id: u64,
    payload_len: u32,
) -> Seq<u8> {
    be32(WIRE_MAGIC) + be16(CURRENT_MAJOR) + be16(CURRENT_MINOR) + be16(opcode.code()) + be16(
        flags.0,
    ) + be64(request_id) + be32(payload_len)
}

/// The bytes of the frame that carries `payload`.
pub open spec fn frame_bytes(
    opcode: Opcode,
    flags: WireFlags,
    request_id: u64,
    payload: Seq<u8>,
) -> Seq<u8> {
    be32((BINARY_HEADER_LEN + payload.len()) as u32) + header_bytes(
        opcode,
        flags,
        request_id,
        payload.len() as u32,
    ) + payload
}


/// What encoding a frame yields.
pub open spec fn encode_result(
    opcode: Opcode,
    flags: WireFlags,
    request_id: u64,
    payload: Seq<u8>,
    limits: WireLimits,
) -> Result<Seq<u8>, WireCodecError> {
    let body_len = BINARY_HEADER_LEN + payload.len();
    if payload.len() > limits.max_payload_bytes {
        Err(WireCodecError::PayloadOversized { actual: payload.len() as usize, limit: limits.max_payload_bytes })
    } else if length_result(body_len, limits) is Err {
        Err(length_result(body_len, limits)->Err_0)
    } else if body_len > u32::MAX {
        Err(WireCodecError::FrameOversized { actual: body_len as usize, limit: u32::MAX as usize })
    } else {
        Ok(frame_bytes(opcode, flags, request_id, payload))
    }
}

fn opcode_from_code(code: u16) -> (r: Result<Opcode, WireCodecError>)
    ensures
        match r {
            Ok(op) => opcode_of(code as int) == Some(op),
            Err(e) => opcode_of(code as int) is None && e == WireCodecError::UnknownOpcode(code),
        },
{
    let r = Opcode::from_u16(code);
    match r {
        Ok(op) => {
            assert forall|o: Opcode| o.code() == code implies o == op by {
                lemma_opcode_codes_distinct(o, op);
            }
        },
        Err(_) => {},
    }
    r
}

pub fn validate_frame_length(length: usize, limits: WireLimits) -> (r: Result<(), WireCodecError>)
    ensures
        r == length_result(length as int, limits),
{
    if length > limits.max_frame_bytes {
        return Err(WireCodecError::FrameOversized { actual: length, limit: limits.max_frame_bytes });
    }
    if length < BINARY_HEADER_LEN {
        return Err(WireCodecError::Truncated { expected: BINARY_HEADER_LEN, actual: length });
    }
    Ok(())
}

/// Decodes a frame body: the header fields are checked in wire order.
pub fn decode_frame_body(body: &[u8], limits: WireLimits) -> (r: Result<BinaryFrame, WireCodecError>)
    ensures
        frame_agrees(r, body_result(body@, limits)),
{
    if body.len() < BINARY_HEADER_LEN {
        return Err(WireCodecError::Truncated { expected: BINARY_HEADER_LEN, actual: body.len() });
    }
    let magic = get_u32_be(body, 0);
    if magic != WIRE_MAGIC {
        return Err(WireCodecError::InvalidMagic(magic));
    }
    let protocol = WireProtocolVersion { major: get_u16_be(body, 4), minor: get_u16_be(body, 6) };
    protocol.ensure_compatible()?;
    let opcode = opcode_from_code(get_u16_be(body, 8))?;
    let flags = WireFlags::from_bits(get_u16_be(body, 10))?;
    let request_id = get_u64_be(body, 12);
    if request_id == 0 {
        return Err(WireCodecError::InvalidRequestId);
    }
    let payload_len = get_u32_be(body, 20);
    if payload_len as usize > limits.max_payload_bytes {
        return Err(
            WireCodecError::PayloadOversized {
                actual: payload_len as usize,
                limit: limits.max_payload_bytes,
            },
        );
    }
    let payload = slice_subrange(body, BINARY_HEADER_LEN, body.len());
    if payload_len as usize != payload.len() {
        return Err(
            WireCodecError::PayloadLengthMismatch {
                declared: payload_len as usize,
                actual: payload.len(),
            },
        );
    }
    Ok(
        BinaryFrame {
            header: WireHeader { protocol, opcode, flags, request_id, payload_len },
            payload: slice_to_vec(payload),
        },
    )
}

/// Decodes one whole frame: the length prefix must name exactly the bytes that follow it.
pub fn decode_binary_frame(bytes: &[u8], limits: WireLimits) -> (r: Result<BinaryFrame, WireCodecError>)
    ensures
        frame_agrees(r, frame_result(bytes@, limits)),
{
    if bytes.len() < BINARY_LENGTH_PREFIX_LEN {
        return Err(
            WireCodecError::Truncated { expected: BINARY_LENGTH_PREFIX_LEN, actual: bytes.len() },
        );
    }
    let declared = get_u32_be(bytes, 0) as usize;
    validate_frame_length(declared, limits)?;
    let actual = bytes.len() - BINARY_LENGTH_PREFIX_LEN;
    if declared != actual {
        return Err(WireCodecError::Truncated { expected: declared, actual });
    }
    decode_frame_body(slice_subrange(bytes, BINARY_LENGTH_PREFIX_LEN, bytes.len()), limits)
}

/// Frames `payload` under the current protocol version.
pub fn encode_frame(
    opcode: Opcode,
    flags: WireFlags,
    request_id: u64,
    payload: Vec<u8>,
    limits: WireLimits,
) -> (r: Result<Vec<u8>, WireCodecError>)
    requires
        payload@.len() + BINARY_HEADER_LEN <= usize::MAX,
    ensures
        match r {
            Ok(bytes) => encode_result(opcode, flags, request_id, payload@, limits) == Ok::<
                Seq<u8>,
                WireCodecError,
            >(bytes@),
            Err(e) => encode_result(opcode, flags, request_id, payload@, limits) == Err::<
                Seq<u8>,
                WireCodecError,
            >(e),
        },
{
    if payload.len() > limits.max_payload_bytes {
        return Err(
            WireCodecError::PayloadOversized {
                actual: payload.len(),
                limit: limits.max_payload_bytes,
            },
        );
    }
    let body_len = BINARY_HEADER_LEN + payload.len();
    validate_frame_length(body_len, limits)?;
    if body_len > u32::MAX as usize {
        return Err(WireCodecError::FrameOversized { actual: body_len, limit: u32::MAX as usize });
    }
    let ghost p = payload@;
    let mut payload = payload;
    let payload_len = payload.len() as u32;
    let mut encoded: Vec<u8> = Vec::new();
    push_u32_be(&mut encoded, body_len as u32);
    push_u32_be(&mut encoded, WIRE_MAGIC);
    push_u16_be(&mut encoded, CURRENT_MAJOR);
    push_u16_be(&mut encoded, CURRENT_MINOR);
    push_u16_be(&mut encoded, opcode.to_u16());
    push_u16_be(&mut encoded, flags.bits());
    push_u64_be(&mut encoded, request_id);
    push_u32_be(&mut encoded, payload_len);
    encoded.append(&mut payload);
    assert(encoded@ =~= frame_bytes(opcode, flags, request_id, p));
    Ok(encoded)
}

proof fn lemma_u16_at_sub(s: Seq<u8>, i: int)
    requires
        0 <= i,
        i + 2 <= s.len(),
    ensures
        u16_at(s, i) == u16_at(s.subrange(i, i + 2), 0),
{
}

proof fn lemma_u32_at_sub(s: Seq<u8>, i: int)
    requires
        0 <= i,
        i + 4 <= s.len(),
    ensures
        u32_at(s, i) == u32_at(s.subrange(i, i + 4), 0),
{
}

proof fn lemma_u64_at_sub(s: Seq<u8>, i: int)
    requires
        0 <= i,
        i + 8 <= s.len(),
    ensures
        u64_at(s, i) == u64_at(s.subrange(i, i + 8), 0),
{
}

/// Decoding the bytes of an encoded frame gives back its header and payload: every frame
/// that the encoder can produce is accepted by the decoder under the same limits.
pub proof fn lemma_frame_roundtrip(
    opcode: Opcode,
    flags: WireFlags,
    request_id: u64,
    payload: Seq<u8>,
    limits: WireLimits,
)
    requires
        valid_flag_bits(flags.0),
        request_id != 0,
        payload.len() <= limits.max_payload_bytes,
        BINARY_HEADER_LEN + payload.len() <= limits.max_frame_bytes,
        BINARY_HEADER_LEN + payload.len() <= u32::MAX,
    ensures
        encode_result(opcode, flags, request_id, payload, limits) == Ok::<Seq<u8>, WireCodecError>(
            frame_bytes(opcode, flags, request_id, payload),
        ),
        frame_result(frame_bytes(opcode, flags, request_id, payload), limits) == Ok::<
            (WireHeader, Seq<u8>),
            WireCodecError,
        >(
            (
                WireHeader {
                    protocol: WireProtocolVersion { major: CURRENT_MAJOR, minor: CURRENT_MINOR },
                    opcode,
                    flags,
                    request_id,
                    payload_len: payload.len() as u32,
                },
                payload,
            ),
        ),
{
    let body_len = (BINARY_HEADER_LEN + payload.len()) as u32;
    let plen = payload.len() as u32;
    let h = header_bytes(opcode, flags, request_id, plen);
    let f = frame_bytes(opcode, flags, request_id, payload);
    lemma_be32(body_len);
    lemma_be32(WIRE_MAGIC);
    lemma_be16(CURRENT_MAJOR);
    lemma_be16(CURRENT_MINOR);
    lemma_be16(opcode.code());
    lemma_be16(flags.0);
    lemma_be64(request_id);
    lemma_be32(plen);
    assert(h.len() == 24);
    assert(f.len() == 4 + 24 + payload.len());
    lemma_u32_at_sub(f, 0);
    assert(f.subrange(0, 4) =~= be32(body_len));
    let body = f.subrange(4, f.len() as int);
    assert(body =~= h + payload);
    lemma_u32_at_sub(body, 0);
    assert(body.subrange(0, 4) =~= be32(WIRE_MAGIC));
    lemma_u16_at_sub(body, 4);
    assert(body.subrange(4, 6) =~= be16(CURRENT_MAJOR));
    lemma_u16_at_sub(body, 6);
    assert(body.subrange(6, 8) =~= be16(CURRENT_MINOR));
    lemma_u16_at_sub(body, 8);
    assert(body.subrange(8, 10) =~= be16(opcode.code()));
    lemma_u16_at_sub(body, 10);
    assert(body.subrange(10, 12) =~= be16(flags.0));
    lemma_u64_at_sub(body, 12);
    assert(body.subrange(12, 20) =~= be64(request_id));
    lemma_u32_at_sub(body, 20);
    assert(body.subrange(20, 24) =~= be32(plen));
    assert(body.subrange(24, body.len() as int) =~= payload);
    assert(opcode_of(opcode.code() as int) == Some(opcode)) by {
        assert forall|o: Opcode| o.code() == opcode.code() implies o == opcode by {
            lemma_opcode_codes_distinct(o, opcode);
        }
    }
}

} // verus!
