//! The fixed binary layout of an event record on the output transport.
//!
//! A record occupies exactly 16 bytes, little-endian, with no padding:
//! the task id (4 bytes), the elapsed nanoseconds (8 bytes) and the wire
//! encoding of the instrumented-call identifier (4 bytes).  The consumer
//! decodes the same layout explicitly rather than relying on a memory-layout
//! coincidence with the producer.

use vstd::prelude::*;
use crate::event::{Event, EventType};

verus! {

/// The size of one encoded record.
pub const EVENT_WIRE_SIZE: usize = 16;

/// Why a buffer failed to decode.
#[derive(Copy, Clone, Debug, PartialEq, Eq, Structural)]
pub enum DecodeError {
    /// The buffer's length is not a whole number of records.
    Truncated,
    /// A record carries a call-identifier code outside the closed set.
    UnknownCallId,
}

/// The four little-endian bytes of a 32-bit value.
pub open spec fn le32(n: u32) -> Seq<u8> {
    seq![
        (n & 0xff) as u8,
        ((n >> 8) & 0xff) as u8,
        ((n >> 16) & 0xff) as u8,
        ((n >> 24) & 0xff) as u8,
    ]
}

/// The eight little-endian bytes of a 64-bit value.
pub open spec fn le64(n: u64) -> Seq<u8> {
    seq![
        (n & 0xff) as u8,
        ((n >> 8) & 0xff) as u8,
        ((n >> 16) & 0xff) as u8,
        ((n >> 24) & 0xff) as u8,
        ((n >> 32) & 0xff) as u8,
        ((n >> 40) & 0xff) as u8,
        ((n >> 48) & 0xff) as u8,
        ((n >> 56) & 0xff) as u8,
    ]
}

/// The 32-bit value read from four little-endian bytes.
pub open spec fn u32_from_le(b0: u8, b1: u8, b2: u8, b3: u8) -> u32 {
    (b0 as u32) | ((b1 as u32) << 8) | ((b2 as u32) << 16) | ((b3 as u32) << 24)
}

/// The 64-bit value read from eight little-endian bytes.
pub open spec fn u64_from_le(
    b0: u8,
    b1: u8,
    b2: u8,
    b3: u8,
    b4: u8,
    b5: u8,
    b6: u8,
    b7: u8,
) -> u64 {
    (b0 as u64) | ((b1 as u64) << 8) | ((b2 as u64) << 16) | ((b3 as u64) << 24) | ((b4 as u64)
        << 32) | ((b5 as u64) << 40) | ((b6 as u64) << 48) | ((b7 as u64) << 56)
}

/// The 16 bytes that encode a record.
pub open spec fn event_bytes(ev: Event) -> Seq<u8> {
    le32(ev.pid) + le64(ev.elapsed_ns) + le32(ev.event_type.encoding_spec())
}

/// The record denoted by the 16-byte chunk of `b` starting at `off`, or
/// `None` when the chunk's call-identifier code is outside the closed set.
pub open spec fn decoded_at(b: Seq<u8>, off: int) -> Option<Event> {
    let pid = u32_from_le(b[off], b[off + 1], b[off + 2], b[off + 3]);
    let elapsed_ns = u64_from_le(
        b[off + 4],
        b[off + 5],
        b[off + 6],
        b[off + 7],
        b[off + 8],
        b[off + 9],
        b[off + 10],
        b[off + 11],
    );
    let code = u32_from_le(b[off + 12], b[off + 13], b[off + 14], b[off + 15]);
    match EventType::decode_spec(code) {
        Some(event_type) => Some(Event { pid, elapsed_ns, event_type }),
        None => None,
    }
}

/// Every byte of `le32` is below 256.
proof fn lemma_u32_bytes_fit(n: u32)
    ensures
        n & 0xff < 256,
        (n >> 8) & 0xff < 256,
        (n >> 16) & 0xff < 256,
        (n >> 24) & 0xff < 256,
{
    assert(n & 0xff < 256 && (n >> 8) & 0xff < 256 && (n >> 16) & 0xff < 256 && (n >> 24) & 0xff
        < 256) by (bit_vector);
}

/// Every byte of `le64` is below 256.
proof fn lemma_u64_bytes_fit(n: u64)
    ensures
        n & 0xff < 256,
        (n >> 8) & 0xff < 256,
        (n >> 16) & 0xff < 256,
        (n >> 24) & 0xff < 256,
        (n >> 32) & 0xff < 256,
        (n >> 40) & 0xff < 256,
        (n >> 48) & 0xff < 256,
        (n >> 56) & 0xff < 256,
{
    assert(n & 0xff < 256 && (n >> 8) & 0xff < 256 && (n >> 16) & 0xff < 256 && (n >> 24) & 0xff
        < 256 && (n >> 32) & 0xff < 256 && (n >> 40) & 0xff < 256 && (n >> 48) & 0xff < 256 && (n
        >> 56) & 0xff < 256) by (bit_vector);
}

/// Reading four little-endian bytes back yields the encoded 32-bit value.
proof fn lemma_le32_round_trip(n: u32)
    ensures
        u32_from_le(le32(n)[0], le32(n)[1], le32(n)[2], le32(n)[3]) == n,
{
    assert((((n & 0xff) as u8) as u32) | (((((n >> 8) & 0xff) as u8) as u32) << 8) | (((((n >> 16)
        & 0xff) as u8) as u32) << 16) | (((((n >> 24) & 0xff) as u8) as u32) << 24) == n)
        by (bit_vector);
}

/// Reading eight little-endian bytes back yields the encoded 64-bit value.
proof fn lemma_le64_round_trip(n: u64)
    ensures
        u64_from_le(
            le64(n)[0],
            le64(n)[1],
            le64(n)[2],
            le64(n)[3],
            le64(n)[4],
            le64(n)[5],
            le64(n)[6],
            le64(n)[7],
        ) == n,
{
    assert((((n & 0xff) as u8) as u64) | (((((n >> 8) & 0xff) as u8) as u64) << 8) | (((((n >> 16)
        & 0xff) as u8) as u64) << 16) | (((((n >> 24) & 0xff) as u8) as u64) << 24) | (((((n >> 32)
        & 0xff) as u8) as u64) << 32) | (((((n >> 40) & 0xff) as u8) as u64) << 40) | (((((n >> 48)
        & 0xff) as u8) as u64) << 48) | (((((n >> 56) & 0xff) as u8) as u64) << 56) == n)
        by (bit_vector);
}

/// Decoding inverts encoding: any record, serialized to its 16-byte layout
/// and decoded again, comes back identical.
pub proof fn lemma_event_round_trip(ev: Event)
    ensures
        event_bytes(ev).len() == EVENT_WIRE_SIZE,
        decoded_at(event_bytes(ev), 0) == Some(ev),
{
    lemma_le32_round_trip(ev.pid);
    lemma_le64_round_trip(ev.elapsed_ns);
    lemma_le32_round_trip(ev.event_type.encoding_spec());
    ev.event_type.lemma_encoding_round_trip();
}

/// Appends the four little-endian bytes of `n`.
fn push_le32(out: &mut Vec<u8>, n: u32)
    ensures
        final(out)@ == old(out)@ + le32(n),
{
    proof {
        lemma_u32_bytes_fit(n);
    }
    out.push((n & 0xff) as u8);
    out.push(((n >> 8) & 0xff) as u8);
    out.push(((n >> 16) & 0xff) as u8);
    out.push(((n >> 24) & 0xff) as u8);
    proof {
        assert(out@ =~= old(out)@ + le32(n));
    }
}

/// Appends the eight little-endian bytes of `n`.
fn push_le64(out: &mut Vec<u8>, n: u64)
    ensures
        final(out)@ == old(out)@ + le64(n),
{
    proof {
        lemma_u64_bytes_fit(n);
    }
    out.push((n & 0xff) as u8);
    out.push(((n >> 8) & 0xff) as u8);
    out.push(((n >> 16) & 0xff) as u8);
    out.push(((n >> 24) & 0xff) as u8);
    out.push(((n >> 32) & 0xff) as u8);
    out.push(((n >> 40) & 0xff) as u8);
    out.push(((n >> 48) & 0xff) as u8);
    out.push(((n >> 56) & 0xff) as u8);
    proof {
        assert(out@ =~= old(out)@ + le64(n));
    }
}

/// Serializes a record to its 16-byte wire layout.
pub fn encode_event(ev: &Event) -> (r: Vec<u8>)
    ensures
        r@ == event_bytes(*ev),
        r@.len() == EVENT_WIRE_SIZE,
{
    let mut out: Vec<u8> = Vec::new();
    push_le32(&mut out, ev.pid);
    push_le64(&mut out, ev.elapsed_ns);
    push_le32(&mut out, ev.event_type.encoding());
    proof {
        assert(out@ =~= event_bytes(*ev));
    }
    out
}

/// Reads the 32-bit value at `off`.
fn read_le32(buf: &Vec<u8>, off: usize) -> (r: u32)
    requires
        off + 4 <= buf@.len(),
    ensures
        r == u32_from_le(buf@[off as int], buf@[off + 1], buf@[off + 2], buf@[off + 3]),
{
    let n = buf.len();
    assert(off + 4 <= n);
    (buf[off] as u32) | ((buf[off + 1] as u32) << 8) | ((buf[off + 2] as u32) << 16) | ((buf[off
        + 3] as u32) << 24)
}

/// Reads the 64-bit value at `off`.
fn read_le64(buf: &Vec<u8>, off: usize) -> (r: u64)
    requires
        off + 8 <= buf@.len(),
    ensures
        r == u64_from_le(
            buf@[off as int],
            buf@[off + 1],
            buf@[off + 2],
            buf@[off + 3],
            buf@[off + 4],
            buf@[off + 5],
            buf@[off + 6],
            buf@[off + 7],
        ),
{
    let n = buf.len();
    assert(off + 8 <= n);
    (buf[off] as u64) | ((buf[off + 1] as u64) << 8) | ((buf[off + 2] as u64) << 16) | ((buf[off
        + 3] as u64) << 24) | ((buf[off + 4] as u64) << 32) | ((buf[off + 5] as u64) << 40) | ((
    buf[off + 6] as u64) << 48) | ((buf[off + 7] as u64) << 56)
}

/// Decodes the record starting at `off`.
fn decode_event_at(buf: &Vec<u8>, off: usize) -> (r: Result<Event, DecodeError>)
    requires
        off + EVENT_WIRE_SIZE <= buf@.len(),
    ensures
        match r {
            Ok(ev) => decoded_at(buf@, off as int) == Some(ev),
            Err(e) => decoded_at(buf@, off as int) is None && e == DecodeError::UnknownCallId,
        },
{
    let n = buf.len();
    assert(off + EVENT_WIRE_SIZE <= n);
    let pid = read_le32(buf, off);
    let elapsed_ns = read_le64(buf, off + 4);
    let code = read_le32(buf, off + 12);
    match EventType::decode(code) {
        Some(event_type) => Ok(Event { pid, elapsed_ns, event_type }),
        None => Err(DecodeError::UnknownCallId),
    }
}

/// Decodes a buffer holding exactly one record.
///
/// Fails with `Truncated` exactly when the buffer is not 16 bytes long, and
/// with `UnknownCallId` exactly when the call-identifier code is unknown.
pub fn decode_event(buf: &Vec<u8>) -> (r: Result<Event, DecodeError>)
    ensures
        match r {
            Ok(ev) => buf@.len() == EVENT_WIRE_SIZE && decoded_at(buf@, 0) == Some(ev),
            Err(DecodeError::Truncated) => buf@.len() != EVENT_WIRE_SIZE,
            Err(DecodeError::UnknownCallId) => buf@.len() == EVENT_WIRE_SIZE && decoded_at(
                buf@,
                0,
            ) is None,
        },
{
    if buf.len() != EVENT_WIRE_SIZE {
        return Err(DecodeError::Truncated);
    }
    decode_event_at(buf, 0)
}

/// Whether every 16-byte chunk of `b` decodes to a record.
pub open spec fn all_chunks_decode(b: Seq<u8>) -> bool {
    forall|i: int|
        0 <= i && 16 * i + 16 <= b.len() ==> (#[trigger] decoded_at(b, 16 * i)) is Some
}

/// Decodes a buffer holding zero or more records.
///
/// Succeeds exactly when the length is a whole number of records and every
/// chunk's call-identifier code is known; the decoded records come back in
/// buffer order.  A malformed buffer yields no records at all: the reader
/// skips it whole.
pub fn decode_buffer(buf: &Vec<u8>) -> (r: Result<Vec<Event>, DecodeError>)
    ensures
        match r {
            Ok(evs) => {
                &&& buf@.len() % 16 == 0
                &&& all_chunks_decode(buf@)
                &&& 16 * evs@.len() == buf@.len()
                &&& forall|i: int|
                    0 <= i < evs@.len() ==> Some(#[trigger] evs@[i]) == decoded_at(buf@, 16 * i)
            },
            Err(DecodeError::Truncated) => buf@.len() % 16 != 0,
            Err(DecodeError::UnknownCallId) => buf@.len() % 16 == 0 && !all_chunks_decode(buf@),
        },
{
    let n = buf.len();
    if n % 16 != 0 {
        return Err(DecodeError::Truncated);
    }
    let mut evs: Vec<Event> = Vec::new();
    let mut off: usize = 0;
    while off < n
        invariant
            n == buf@.len(),
            n % 16 == 0,
            off % 16 == 0,
            off <= n,
            16 * evs@.len() == off,
            forall|i: int|
                0 <= i < evs@.len() ==> Some(#[trigger] evs@[i]) == decoded_at(buf@, 16 * i),
        decreases n - off,
    {
        match decode_event_at(buf, off) {
            Ok(ev) => {
                evs.push(ev);
            }
            Err(e) => {
                proof {
                    let bad = off as int / 16;
                    assert(16 * bad == off);
                    assert(!all_chunks_decode(buf@));
                }
                return Err(DecodeError::UnknownCallId);
            }
        }
        off = off + 16;
    }
    proof {
        assert forall|i: int| 0 <= i && 16 * i + 16 <= buf@.len() implies (#[trigger] decoded_at(
            buf@,
            16 * i,
        )) is Some by {
            assert(i < evs@.len());
            assert(Some(evs@[i]) == decoded_at(buf@, 16 * i));
        }
    }
    Ok(evs)
}

} // verus!
