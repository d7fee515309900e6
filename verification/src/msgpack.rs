//! A structural validator for MessagePack: it checks that a byte string holds
//! exactly one well-formed value, bounding nesting depth and container sizes,
//! without building the value.
use vstd::prelude::*;
use vstd::slice::slice_subrange;
use vstd::string::*;

use crate::bytes::{u16_at, u32_at};
use crate::protocol::WireCodecError;

verus! {

pub const MAX_MSGPACK_NESTING_DEPTH: usize = 64;

pub const MAX_MSGPACK_CONTAINER_ITEMS: usize = 65_536;

/// Why a byte string is not one bounded MessagePack value.
#[derive(Clone, Copy, Debug, PartialEq, Eq, Structural)]
pub enum MsgpackFault {
    Truncated,
    TrailingBytes,
    ReservedMarker,
    NestingDepthExceeded,
    ContainerItemLimitExceeded,
    LengthOverflow,
}

/// The message a decode error carries for each fault.
pub open spec fn fault_text(f: MsgpackFault) -> Seq<char> {
    match f {
        MsgpackFault::Truncated => "truncated MessagePack value"@,
        MsgpackFault::TrailingBytes => "trailing bytes after MessagePack value"@,
        MsgpackFault::ReservedMarker => "reserved MessagePack marker"@,
        MsgpackFault::NestingDepthExceeded => "MessagePack nesting depth exceeded"@,
        MsgpackFault::ContainerItemLimitExceeded => "MessagePack container item limit exceeded"@,
        MsgpackFault::LengthOverflow => "MessagePack length overflow"@,
    }
}

/// `e` is the decode error that reports `f`.
pub open spec fn decode_fault(e: WireCodecError, f: MsgpackFault) -> bool {
    e matches WireCodecError::Decode(m) && m@ == fault_text(f)
}

/// The offset after `n` bytes starting at `p`: an offset past the address space is a
/// length overflow, one past the input a truncation.
pub open spec fn mp_skip(b: Seq<u8>, p: int, n: int) -> Result<int, MsgpackFault> {
    if p + n > usize::MAX {
        Err(MsgpackFault::LengthOverflow)
    } else if p + n > b.len() {
        Err(MsgpackFault::Truncated)
    } else {
        Ok(p + n)
    }
}

/// The big-endian unsigned value of width `w` (1, 2 or 4 bytes) at `p`.
pub open spec fn mp_uint(b: Seq<u8>, p: int, w: int) -> int {
    if w == 1 {
        b[p] as int
    } else if w == 2 {
        u16_at(b, p)
    } else {
        u32_at(b, p)
    }
}

/// Where a length field of width `w` at `p` ends.
pub open spec fn mp_width(b: Seq<u8>, p: int, w: int) -> Result<int, MsgpackFault> {
    if w == 1 {
        if p >= b.len() {
            Err(MsgpackFault::Truncated)
        } else {
            Ok(p + 1)
        }
    } else {
        mp_skip(b, p, w)
    }
}

/// `n`, or the largest `usize` if it is larger.
pub open spec fn saturated(n: int) -> int {
    if n > usize::MAX {
        usize::MAX as int
    } else {
        n
    }
}

/// A length of width `w` at `p`, then that many bytes plus `extra` (the extension
/// type byte).
pub open spec fn mp_sized(b: Seq<u8>, p: int, w: int, extra: int) -> Result<int, MsgpackFault> {
    match mp_width(b, p, w) {
        Err(f) => Err(f),
        Ok(q) => mp_skip(b, q, saturated(mp_uint(b, p, w) + extra)),
    }
}

/// Where the single MessagePack value starting at `off`, nested `depth` containers
/// deep, ends, or the first fault met while reading it.
pub open spec fn mp_value(b: Seq<u8>, off: int, depth: nat) -> Result<int, MsgpackFault>
    decreases 66 - depth, 0nat,
{
    if depth > MAX_MSGPACK_NESTING_DEPTH {
        Err(MsgpackFault::NestingDepthExceeded)
    } else if off < 0 || off >= b.len() {
        Err(MsgpackFault::Truncated)
    } else {
        let m = b[off];
        let p = off + 1;
        if m <= 0x7f || m == 0xc0 || m == 0xc2 || m == 0xc3 || m >= 0xe0 {
            Ok(p)
        } else if m <= 0x8f {
            mp_items(b, p, 2 * (m - 0x80) as nat, depth + 1)
        } else if m <= 0x9f {
            mp_items(b, p, (m - 0x90) as nat, depth + 1)
        } else if m <= 0xbf {
            mp_skip(b, p, m - 0xa0)
        } else if m == 0xc1 {
            Err(MsgpackFault::ReservedMarker)
        } else if m == 0xc4 || m == 0xd9 {
            mp_sized(b, p, 1, 0)
        } else if m == 0xc5 || m == 0xda {
            mp_sized(b, p, 2, 0)
        } else if m == 0xc6 || m == 0xdb {
            mp_sized(b, p, 4, 0)
        } else if m == 0xc7 {
            mp_sized(b, p, 1, 1)
        } else if m == 0xc8 {
            mp_sized(b, p, 2, 1)
        } else if m == 0xc9 {
            mp_sized(b, p, 4, 1)
        } else if m == 0xca || m == 0xce || m == 0xd2 {
            mp_skip(b, p, 4)
        } else if m == 0xcb || m == 0xcf || m == 0xd3 {
            mp_skip(b, p, 8)
        } else if m == 0xcc || m == 0xd0 {
            mp_skip(b, p, 1)
        } else if m == 0xcd || m == 0xd1 {
            mp_skip(b, p, 2)
        } else if m == 0xd4 {
            mp_skip(b, p, 2)
        } else if m == 0xd5 {
            mp_skip(b, p, 3)
        } else if m == 0xd6 {
            mp_skip(b, p, 5)
        } else if m == 0xd7 {
            mp_skip(b, p, 9)
        } else if m == 0xd8 {
            mp_skip(b, p, 17)
        } else {
            // 0xdc and 0xdd are arrays, 0xde and 0xdf maps, with 16- or 32-bit counts.
            let w: int = if m == 0xdc || m == 0xde {
                2
            } else {
                4
            };
            let map = m == 0xde || m == 0xdf;
            match mp_skip(b, p, w) {
                Err(f) => Err(f),
                Ok(q) => if mp_uint(b, p, w) > MAX_MSGPACK_CONTAINER_ITEMS {
                    Err(MsgpackFault::ContainerItemLimitExceeded)
                } else {
                    let count = mp_uint(b, p, w);
                    mp_items(
                        b,
                        q,
                        (if map {
                            2 * count
                        } else {
                            count
                        }) as nat,
                        depth + 1,
                    )
                },
            }
        }
    }
}

/// Where `n` consecutive values starting at `off`, each `depth` deep, end, or the
/// first fault among them.
pub open spec fn mp_items(b: Seq<u8>, off: int, n: nat, depth: nat) -> Result<int, MsgpackFault>
    decreases 66 - depth, n + 1,
{
    if n == 0 {
        Ok(off)
    } else if depth > MAX_MSGPACK_NESTING_DEPTH + 1 {
        Err(MsgpackFault::NestingDepthExceeded)
    } else {
        match mp_value(b, off, depth) {
            Ok(next) => mp_items(b, next, (n - 1) as nat, depth),
            Err(f) => Err(f),
        }
    }
}

/// The fault of a whole input, if any: one value that ends exactly at the end.
pub open spec fn msgpack_check(b: Seq<u8>) -> Result<(), MsgpackFault> {
    match mp_value(b, 0, 0) {
        Err(f) => Err(f),
        Ok(end) => if end == b.len() {
            Ok(())
        } else {
            Err(MsgpackFault::TrailingBytes)
        },
    }
}

/// `b` is exactly one well-formed MessagePack value within the depth and size bounds.
pub open spec fn msgpack_valid(b: Seq<u8>) -> bool {
    msgpack_check(b) is Ok
}

/// How many bytes follow a MessagePack marker that stands for a scalar of fixed
/// size, as the MessagePack format lays them out: none for nil, booleans and the
/// fixints; the string's length for a fixstr; 1, 2, 4 or 8 for the 8-, 16-, 32- and
/// 64-bit integers and the floats; the type byte and 1, 2, 4, 8 or 16 data bytes
/// for the fixext family.
pub open spec fn scalar_tail_len(marker: u8) -> Option<int> {
    if marker <= 0x7f || marker >= 0xe0 || marker == 0xc0 || marker == 0xc2 || marker == 0xc3 {
        Some(0int)
    } else if 0xa0 <= marker <= 0xbf {
        Some(marker - 0xa0)
    } else if marker == 0xcc || marker == 0xd0 {
        Some(1int)
    } else if marker == 0xcd || marker == 0xd1 {
        Some(2int)
    } else if marker == 0xca || marker == 0xce || marker == 0xd2 {
        Some(4int)
    } else if marker == 0xcb || marker == 0xcf || marker == 0xd3 {
        Some(8int)
    } else if marker == 0xd4 {
        Some(1int + 1)
    } else if marker == 0xd5 {
        Some(1int + 2)
    } else if marker == 0xd6 {
        Some(1int + 4)
    } else if marker == 0xd7 {
        Some(1int + 8)
    } else if marker == 0xd8 {
        Some(1int + 16)
    } else {
        None
    }
}

/// A scalar's marker followed by exactly its fixed tail is one well-formed value,
/// so it passes the structure check (a `u64` at or above 2^32, written as `0xcf`
/// and eight big-endian bytes, among them); cut short, it is a truncated value,
/// and with anything after it, trailing bytes.
pub proof fn lemma_scalar_encodings(b: Seq<u8>)
    requires
        b.len() >= 1,
        scalar_tail_len(b[0]) is Some,
    ensures
        b.len() == 1 + scalar_tail_len(b[0])->0 ==> msgpack_valid(b),
        b.len() < 1 + scalar_tail_len(b[0])->0 ==> msgpack_check(b) == Err::<(), MsgpackFault>(MsgpackFault::Truncated),
        b.len() > 1 + scalar_tail_len(b[0])->0 ==> msgpack_check(b) == Err::<(), MsgpackFault>(
            MsgpackFault::TrailingBytes,
        ),
{
}

/// Every `u64` the codec writes as `0xcf` and its eight big-endian bytes passes.
pub proof fn lemma_u64_encoding_valid(x: u64)
    ensures
        msgpack_valid(
            seq![
                0xcfu8,
                (x / 0x100000000000000) as u8,
                (x / 0x1000000000000 % 256) as u8,
                (x / 0x10000000000 % 256) as u8,
                (x / 0x100000000 % 256) as u8,
                (x / 0x1000000 % 256) as u8,
                (x / 0x10000 % 256) as u8,
                (x / 0x100 % 256) as u8,
                (x % 256) as u8,
            ],
        ),
{
    let b = seq![
        0xcfu8,
        (x / 0x100000000000000) as u8,
        (x / 0x1000000000000 % 256) as u8,
        (x / 0x10000000000 % 256) as u8,
        (x / 0x100000000 % 256) as u8,
        (x / 0x1000000 % 256) as u8,
        (x / 0x10000 % 256) as u8,
        (x / 0x100 % 256) as u8,
        (x % 256) as u8,
    ];
    lemma_scalar_encodings(b);
}

/// An exec outcome agrees with a spec outcome: the same end offset, or the decode
/// error of the same fault.
pub open spec fn outcome_agrees(r: Result<(), WireCodecError>, s: Result<int, MsgpackFault>, end: int) -> bool {
    match r {
        Ok(()) => s == Ok::<int, MsgpackFault>(end),
        Err(e) => s matches Err(f) && decode_fault(e, f),
    }
}

fn decode_error(detail: &'static str) -> (r: WireCodecError)
    ensures
        r matches WireCodecError::Decode(m) && m@ == detail@,
{
    WireCodecError::Decode(String::from_str(detail))
}

fn take<'a>(bytes: &'a [u8], offset: &mut usize, length: usize) -> (r: Result<&'a [u8], WireCodecError>)
    requires
        *old(offset) <= bytes.len(),
    ensures
        match r {
            Ok(s) => mp_skip(bytes@, *old(offset) as int, length as int) == Ok::<int, MsgpackFault>(
                *final(offset) as int,
            ) && s@ == bytes@.subrange(*old(offset) as int, *old(offset) + length),
            Err(e) => mp_skip(bytes@, *old(offset) as int, length as int) matches Err(f) && decode_fault(e, f),
        },
        *final(offset) <= bytes.len(),
{
    let end = match offset.checked_add(length) {
        Some(end) => end,
        None => return Err(decode_error("MessagePack length overflow")),
    };
    if end > bytes.len() {
        return Err(decode_error("truncated MessagePack value"));
    }
    let slice = slice_subrange(bytes, *offset, end);
    *offset = end;
    Ok(slice)
}

fn skip(bytes: &[u8], offset: &mut usize, length: usize) -> (r: Result<(), WireCodecError>)
    requires
        *old(offset) <= bytes.len(),
    ensures
        outcome_agrees(r, mp_skip(bytes@, *old(offset) as int, length as int), *final(offset) as int),
        *final(offset) <= bytes.len(),
{
    match take(bytes, offset, length) {
        Ok(_) => Ok(()),
        Err(e) => Err(e),
    }
}

fn read_u8(bytes: &[u8], offset: &mut usize) -> (r: Result<u8, WireCodecError>)
    ensures
        match r {
            Ok(v) => *old(offset) < bytes.len() && v == bytes@[*old(offset) as int] && *final(offset) == *old(offset) + 1,
            Err(e) => *old(offset) >= bytes.len() && decode_fault(e, MsgpackFault::Truncated) && *final(offset)
                == *old(offset),
        },
{
    if *offset >= bytes.len() {
        return Err(decode_error("truncated MessagePack value"));
    }
    let value = bytes[*offset];
    *offset = *offset + 1;
    Ok(value)
}

fn read_u16(bytes: &[u8], offset: &mut usize) -> (r: Result<u16, WireCodecError>)
    requires
        *old(offset) <= bytes.len(),
    ensures
        match r {
            Ok(v) => mp_skip(bytes@, *old(offset) as int, 2) == Ok::<int, MsgpackFault>(*final(offset) as int)
                && v == u16_at(bytes@, *old(offset) as int),
            Err(e) => mp_skip(bytes@, *old(offset) as int, 2) matches Err(f) && decode_fault(e, f),
        },
        *final(offset) <= bytes.len(),
{
    let slice = take(bytes, offset, 2)?;
    Ok((slice[0] as u16) * 256 + (slice[1] as u16))
}

fn read_u32(bytes: &[u8], offset: &mut usize) -> (r: Result<u32, WireCodecError>)
    requires
        *old(offset) <= bytes.len(),
    ensures
        match r {
            Ok(v) => mp_skip(bytes@, *old(offset) as int, 4) == Ok::<int, MsgpackFault>(*final(offset) as int)
                && v == u32_at(bytes@, *old(offset) as int),
            Err(e) => mp_skip(bytes@, *old(offset) as int, 4) matches Err(f) && decode_fault(e, f),
        },
        *final(offset) <= bytes.len(),
{
    let slice = take(bytes, offset, 4)?;
    Ok((slice[0] as u32) * 0x100_0000 + (slice[1] as u32) * 0x1_0000 + (slice[2] as u32) * 256
        + (slice[3] as u32))
}

/// An extension body: `length` data bytes after the type byte, the count saturating.
fn parse_extension(bytes: &[u8], offset: &mut usize, length: usize) -> (r: Result<(), WireCodecError>)
    requires
        *old(offset) <= bytes.len(),
    ensures
        outcome_agrees(r, mp_skip(bytes@, *old(offset) as int, saturated(length + 1)), *final(offset) as int),
        *final(offset) <= bytes.len(),
{
    skip(bytes, offset, length.saturating_add(1))
}

fn parse_container(
    bytes: &[u8],
    offset: &mut usize,
    count: usize,
    depth: usize,
    map: bool,
) -> (r: Result<(), WireCodecError>)
    requires
        *old(offset) <= bytes.len(),
        depth <= MAX_MSGPACK_NESTING_DEPTH,
    ensures
        outcome_agrees(
            r,
            if count > MAX_MSGPACK_CONTAINER_ITEMS {
                Err(MsgpackFault::ContainerItemLimitExceeded)
            } else {
                mp_items(
                    bytes@,
                    *old(offset) as int,
                    (if map {
                        2 * count
                    } else {
                        count as int
                    }) as nat,
                    (depth + 1) as nat,
                )
            },
            *final(offset) as int,
        ),
        r is Ok ==> *old(offset) <= *final(offset),
        *final(offset) <= bytes.len(),
    decreases 65 - depth, 1nat,
{
    if count > MAX_MSGPACK_CONTAINER_ITEMS {
        return Err(decode_error("MessagePack container item limit exceeded"));
    }
    let values = if map {
        match count.checked_mul(2) {
            Some(values) => values,
            None => return Err(decode_error("MessagePack map length overflow")),
        }
    } else {
        count
    };
    let ghost start = *offset as int;
    assert(values as int == (if map {
        2 * count
    } else {
        count as int
    }));
    let ghost inner = (depth + 1) as nat;
    let mut i: usize = 0;
    while i < values
        invariant
            0 <= i <= values,
            *offset <= bytes.len(),
            start <= *offset,
            depth <= MAX_MSGPACK_NESTING_DEPTH,
            inner == depth + 1,
            start == *old(offset) as int,
            count <= MAX_MSGPACK_CONTAINER_ITEMS,
            values as int == (if map {
                2 * count
            } else {
                count as int
            }),
            mp_items(bytes@, start, values as nat, inner) == mp_items(
                bytes@,
                *offset as int,
                (values - i) as nat,
                inner,
            ),
        decreases values - i,
    {
        let step = parse_value(bytes, offset, depth + 1);
        if step.is_err() {
            return step;
        }
        i = i + 1;
    }
    Ok(())
}

/// Walks the value at `*offset`, `depth` containers deep, and leaves `*offset` after
/// it. An offset at or past the end is a truncation.
fn parse_value(bytes: &[u8], offset: &mut usize, depth: usize) -> (r: Result<(), WireCodecError>)
    ensures
        outcome_agrees(r, mp_value(bytes@, *old(offset) as int, depth as nat), *final(offset) as int),
        r is Ok ==> *old(offset) < *final(offset) <= bytes.len(),
        *old(offset) <= bytes.len() ==> *final(offset) <= bytes.len(),
    decreases 66 - depth, 0nat,
{
    if depth > MAX_MSGPACK_NESTING_DEPTH {
        return Err(decode_error("MessagePack nesting depth exceeded"));
    }
    let marker = read_u8(bytes, offset)?;
    match marker {
        0x00..=0x7f | 0xc0 | 0xc2 | 0xc3 | 0xe0..=0xff => Ok(()),
        0x80..=0x8f => parse_container(bytes, offset, (marker - 0x80) as usize, depth, true),
        0x90..=0x9f => parse_container(bytes, offset, (marker - 0x90) as usize, depth, false),
        0xa0..=0xbf => skip(bytes, offset, (marker - 0xa0) as usize),
        0xc1 => Err(decode_error("reserved MessagePack marker")),
        0xc4 | 0xd9 => {
            let length = read_u8(bytes, offset)? as usize;
            skip(bytes, offset, length)
        },
        0xc5 | 0xda => {
            let length = read_u16(bytes, offset)? as usize;
            skip(bytes, offset, length)
        },
        0xc6 | 0xdb => {
            let length = read_u32(bytes, offset)? as usize;
            skip(bytes, offset, length)
        },
        0xc7 => {
            let length = read_u8(bytes, offset)? as usize;
            parse_extension(bytes, offset, length)
        },
        0xc8 => {
            let length = read_u16(bytes, offset)? as usize;
            parse_extension(bytes, offset, length)
        },
        0xc9 => {
            let length = read_u32(bytes, offset)? as usize;
            parse_extension(bytes, offset, length)
        },
        0xca => skip(bytes, offset, 4),
        0xcb => skip(bytes, offset, 8),
        0xcc | 0xd0 => skip(bytes, offset, 1),
        0xcd | 0xd1 => skip(bytes, offset, 2),
        0xce | 0xd2 => skip(bytes, offset, 4),
        0xcf | 0xd3 => skip(bytes, offset, 8),
        0xd4 => parse_extension(bytes, offset, 1),
        0xd5 => parse_extension(bytes, offset, 2),
        0xd6 => parse_extension(bytes, offset, 4),
        0xd7 => parse_extension(bytes, offset, 8),
        0xd8 => parse_extension(bytes, offset, 16),
        0xdc => {
            let count = read_u16(bytes, offset)? as usize;
            parse_container(bytes, offset, count, depth, false)
        },
        0xdd => {
            let count = read_u32(bytes, offset)? as usize;
            parse_container(bytes, offset, count, depth, false)
        },
        0xde => {
            let count = read_u16(bytes, offset)? as usize;
            parse_container(bytes, offset, count, depth, true)
        },
        0xdf => {
            let count = read_u32(bytes, offset)? as usize;
            parse_container(bytes, offset, count, depth, true)
        },
    }
}

/// Checks that `bytes` is exactly one well-formed MessagePack value; a failure is
/// the decode error of the first fault met.
pub fn validate_messagepack_structure(bytes: &[u8]) -> (r: Result<(), WireCodecError>)
    ensures
        r is Ok <==> msgpack_valid(bytes@),
        r matches Err(e) ==> msgpack_check(bytes@) matches Err(f) && decode_fault(e, f),
{
    let mut offset: usize = 0;
    parse_value(bytes, &mut offset, 0)?;
    if offset != bytes.len() {
        return Err(decode_error("trailing bytes after MessagePack value"));
    }
    Ok(())
}

} // verus!
