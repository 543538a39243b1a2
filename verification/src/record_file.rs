//! The framing of a stored record: magic, version, six reserved zero bytes,
//! the body length, the body, and a BLAKE3 checksum over everything before it.

use vstd::prelude::*;
use crate::checkpoint::{copy_range, le_value, lemma_le_roundtrip, lemma_le_value_bound, lemma_pow256_values, pow256, range_equals, read_le};
use crate::digest::{blake3_digest, blake3_hash, le_bytes, lemma_le_bytes_len, push_bytes, push_le};

verus! {

/// Bytes before the body: magic, version, reserved bytes and body length.
pub const RECORD_HEADER_BYTES: usize = 24;

/// Bytes of the trailing checksum.
pub const RECORD_CHECKSUM_BYTES: usize = 32;

/// Why a stored record frame was refused.
#[derive(Clone, Copy, Debug, PartialEq, Eq)]
pub enum RecordFrameError {
    Length,
    Version(u16),
    Reserved,
    Checksum,
}

/// The header of a record whose body has `n` bytes.
pub open spec fn record_head(magic: Seq<u8>, n: nat) -> Seq<u8> {
    magic + le_bytes(1, 2) + Seq::new(6, |i: int| 0u8) + le_bytes(n, 8)
}

/// The complete frame of `body`.
pub open spec fn record_frame(magic: Seq<u8>, body: Seq<u8>) -> Seq<u8> {
    record_head(magic, body.len()) + body + blake3_hash(record_head(magic, body.len()) + body)
}

/// What reading a frame yields, check by check in the order they are made.
pub open spec fn unframe_spec(magic: Seq<u8>, max_body: nat, bytes: Seq<u8>) -> Result<Seq<u8>, RecordFrameError> {
    if bytes.len() < 56 || bytes.subrange(0, 8) != magic {
        Err(RecordFrameError::Length)
    } else if le_value(bytes.subrange(8, 10)) != 1 {
        Err(RecordFrameError::Version(le_value(bytes.subrange(8, 10)) as u16))
    } else if bytes.subrange(10, 16) != Seq::new(6, |i: int| 0u8) {
        Err(RecordFrameError::Reserved)
    } else {
        let n = le_value(bytes.subrange(16, 24)) as int;
        if n > max_body as int || bytes.len() != 24 + n + 32 {
            Err(RecordFrameError::Length)
        } else if blake3_hash(bytes.subrange(0, 24 + n as int)) != bytes.subrange(24 + n as int, bytes.len() as int) {
            Err(RecordFrameError::Checksum)
        } else {
            Ok(bytes.subrange(24, 24 + n as int))
        }
    }
}

/// Frames one record body, refusing a body above `max_body` bytes.
pub fn frame_record(magic: &[u8; 8], max_body: usize, body: &[u8]) -> (r: Result<Vec<u8>, RecordFrameError>)
    ensures
        match r {
            Ok(b) => body@.len() <= max_body && b@ == record_frame(magic@, body@) && b@.len() == 24 + body@.len() + 32,
            Err(e) => body@.len() > max_body && e == RecordFrameError::Length,
        },
{
    if body.len() > max_body {
        return Err(RecordFrameError::Length);
    }
    let mut out: Vec<u8> = Vec::new();
    push_bytes(&mut out, magic.as_slice());
    push_le(&mut out, 1u128, 2);
    let zeros = [0u8; 6];
    push_bytes(&mut out, zeros.as_slice());
    push_le(&mut out, body.len() as u128, 8);
    assert(zeros@ =~= Seq::new(6, |i: int| 0u8));
    assert(out@ =~= record_head(magic@, body@.len()));
    push_bytes(&mut out, body);
    let checksum = blake3_digest(out.as_slice());
    push_bytes(&mut out, checksum.as_slice());
    proof {
        lemma_le_bytes_len(1, 2);
        lemma_le_bytes_len(body@.len(), 8);
    }
    Ok(out)
}

/// Reads the body of one framed record under `magic`.
pub fn unframe_record(magic: &[u8; 8], max_body: usize, bytes: &[u8]) -> (r: Result<Vec<u8>, RecordFrameError>)
    ensures
        match unframe_spec(magic@, max_body as nat, bytes@) {
            Ok(b) => r matches Ok(x) && x@ == b,
            Err(e) => r == Err::<Vec<u8>, RecordFrameError>(e),
        },
{
    if bytes.len() < 56 || !range_equals(bytes, 0, magic.as_slice()) {
        return Err(RecordFrameError::Length);
    }
    let version = read_le(bytes, 8, 2);
    proof {
        lemma_le_value_bound(bytes@.subrange(8, 10));
        lemma_pow256_values();
    }
    if version != 1 {
        return Err(RecordFrameError::Version(version as u16));
    }
    let zeros = [0u8; 6];
    assert(zeros@ =~= Seq::new(6, |i: int| 0u8));
    if !range_equals(bytes, 10, zeros.as_slice()) {
        return Err(RecordFrameError::Reserved);
    }
    let n = read_le(bytes, 16, 8);
    if n > max_body as u64 || (bytes.len() - 56) as u64 != n {
        return Err(RecordFrameError::Length);
    }
    let at = 24 + n as usize;
    let head = copy_range(bytes, 0, at);
    let checksum = blake3_digest(head.as_slice());
    if !range_equals(bytes, at, checksum.as_slice()) {
        return Err(RecordFrameError::Checksum);
    }
    Ok(copy_range(bytes, 24, at))
}

/// Reading a frame gives back the body it was made from.
pub proof fn law_record_frame_roundtrip(magic: Seq<u8>, max_body: nat, body: Seq<u8>)
    requires
        magic.len() == 8,
        body.len() <= max_body,
        body.len() < pow256(8),
        record_frame(magic, body).len() == 24 + body.len() + 32,
    ensures
        unframe_spec(magic, max_body, record_frame(magic, body)) == Ok::<Seq<u8>, RecordFrameError>(body),
{
    let n = body.len();
    let head = record_head(magic, n);
    let f = record_frame(magic, body);
    lemma_le_bytes_len(1, 2);
    lemma_le_bytes_len(n, 8);
    assert(head.len() == 24);
    assert(f.subrange(0, 8) =~= magic);
    assert(f.subrange(8, 10) =~= le_bytes(1, 2));
    lemma_pow256_values();
    lemma_le_roundtrip(1, 2);
    assert(f.subrange(10, 16) =~= Seq::new(6, |i: int| 0u8));
    assert(f.subrange(16, 24) =~= le_bytes(n, 8));
    lemma_le_roundtrip(n, 8);
    assert(f.subrange(0, 24 + n as int) =~= head + body);
    assert(f.subrange(24 + n as int, f.len() as int) =~= blake3_hash(head + body));
    assert(f.subrange(24, 24 + n as int) =~= body);
}
} // verus!
