use vstd::prelude::*;
use crate::digest::{blake3_digest, blake3_hash, le_bytes, lemma_le_bytes_len, push_bytes, push_le};

verus! {

/// Total length of a checkpoint frame.
pub const CHECKPOINT_BYTES: usize = 88;
/// Length of the checksummed body of a checkpoint frame.
pub const CHECKPOINT_BODY_BYTES: usize = 56;
/// The only checkpoint frame version.
pub const CHECKPOINT_VERSION: u16 = 1;

/// Why a checkpoint frame was refused.
#[derive(Clone, Copy, Debug, PartialEq, Eq)]
pub enum CheckpointError {
    Length,
    Magic,
    Version(u16),
    Reserved,
    Checksum,
}

/// `256^n`.
pub open spec fn pow256(n: nat) -> nat
    decreases n,
{
    if n == 0 {
        1
    } else {
        256 * pow256((n - 1) as nat)
    }
}

/// The unsigned value of little-endian bytes.
pub open spec fn le_value(s: Seq<u8>) -> nat
    decreases s.len(),
{
    if s.len() == 0 {
        0
    } else {
        s[0] as nat + 256 * le_value(s.drop_first())
    }
}

pub proof fn lemma_le_value_bound(s: Seq<u8>)
    ensures
        le_value(s) < pow256(s.len()),
    decreases s.len(),
{
    if s.len() > 0 {
        lemma_le_value_bound(s.drop_first());
    }
}

pub proof fn lemma_le_roundtrip(v: nat, w: nat)
    requires
        v < pow256(w),
    ensures
        le_value(le_bytes(v, w)) == v,
    decreases w,
{
    if w > 0 {
        let rest = (w - 1) as nat;
        assert(v / 256 < pow256(rest));
        lemma_le_roundtrip(v / 256, rest);
        assert(le_bytes(v, w).drop_first() =~= le_bytes(v / 256, rest));
    }
}

/// The checksummed body: magic, version, six reserved zero bytes, sequence, digest.
pub open spec fn frame_body(magic: Seq<u8>, sequence: u64, digest: Seq<u8>) -> Seq<u8> {
    magic + le_bytes(1, 2) + Seq::new(6, |i: int| 0u8) + le_bytes(sequence as nat, 8) + digest
}

/// A complete checkpoint frame: the body followed by its BLAKE3 checksum.
pub open spec fn frame(magic: Seq<u8>, sequence: u64, digest: Seq<u8>) -> Seq<u8> {
    frame_body(magic, sequence, digest) + blake3_hash(frame_body(magic, sequence, digest))
}

/// What decoding a frame yields, check by check in the order they are made.
pub open spec fn decode_frame_spec(magic: Seq<u8>, bytes: Seq<u8>) -> Result<(u64, Seq<u8>), CheckpointError> {
    if bytes.len() != 88 {
        Err(CheckpointError::Length)
    } else if bytes.subrange(0, 8) != magic {
        Err(CheckpointError::Magic)
    } else if le_value(bytes.subrange(8, 10)) != 1 {
        Err(CheckpointError::Version(le_value(bytes.subrange(8, 10)) as u16))
    } else if bytes.subrange(10, 16) != Seq::new(6, |i: int| 0u8) {
        Err(CheckpointError::Reserved)
    } else if blake3_hash(bytes.subrange(0, 56)) != bytes.subrange(56, 88) {
        Err(CheckpointError::Checksum)
    } else {
        Ok((le_value(bytes.subrange(16, 24)) as u64, bytes.subrange(24, 56)))
    }
}

/// Copies `bytes[start..end]`.
pub fn copy_range(bytes: &[u8], start: usize, end: usize) -> (out: Vec<u8>)
    requires
        start <= end <= bytes@.len(),
    ensures
        out@ == bytes@.subrange(start as int, end as int),
{
    let mut out: Vec<u8> = Vec::new();
    let mut i = start;
    while i < end
        invariant
            start <= i <= end <= bytes@.len(),
            out@ == bytes@.subrange(start as int, i as int),
        decreases end - i,
    {
        out.push(bytes[i]);
        assert(bytes@.subrange(start as int, i + 1) == bytes@.subrange(start as int, i as int).push(bytes@[i as int]));
        i = i + 1;
    }
    out
}

/// Reads `width` little-endian bytes at `start`.
pub fn read_le(bytes: &[u8], start: usize, width: usize) -> (r: u64)
    requires
        width <= 8,
        start + width <= bytes@.len(),
    ensures
        r as nat == le_value(bytes@.subrange(start as int, start + width)),
{
    let n = bytes.len();
    let mut acc: u64 = 0;
    let mut k: usize = width;
    proof {
        assert(bytes@.subrange(start + width, start + width) =~= Seq::<u8>::empty());
    }
    while k > 0
        invariant
            k <= width <= 8,
            start + width <= bytes@.len(),
            n == bytes@.len(),
            acc as nat == le_value(bytes@.subrange(start + k, start + width)),
        decreases k,
    {
        let ghost tail = bytes@.subrange(start + k, start + width);
        let ghost s = bytes@.subrange(start + k - 1, start + width);
        proof {
            lemma_le_value_bound(tail);
            assert(s.drop_first() =~= tail);
            assert(pow256(tail.len()) <= pow256(7)) by {
                lemma_pow256_mono(tail.len(), 7);
            }
            lemma_pow256_values();
        }
        acc = bytes[start + k - 1] as u64 + 256 * acc;
        k = k - 1;
    }
    acc
}

pub proof fn lemma_pow256_values()
    ensures
        pow256(2) == 65536,
        pow256(7) == 0x100_0000_0000_0000nat,
        pow256(8) == 0x1_0000_0000_0000_0000nat,
{
    reveal_with_fuel(pow256, 9);
}

proof fn lemma_pow256_mono(a: nat, b: nat)
    requires
        a <= b,
    ensures
        pow256(a) <= pow256(b),
    decreases b,
{
    if a < b {
        lemma_pow256_mono(a, (b - 1) as nat);
    }
}

/// Whether `bytes[start..start + other.len()]` equals `other`.
pub fn range_equals(bytes: &[u8], start: usize, other: &[u8]) -> (r: bool)
    requires
        start + other@.len() <= bytes@.len(),
    ensures
        r == (bytes@.subrange(start as int, start + other@.len()) == other@),
{
    let n = bytes.len();
    let mut i: usize = 0;
    while i < other.len()
        invariant
            n == bytes@.len(),
            i <= other@.len(),
            start + other@.len() <= bytes@.len(),
            forall|j: int| 0 <= j < i ==> bytes@[start + j] == other@[j],
        decreases other@.len() - i,
    {
        if bytes[start + i] != other[i] {
            assert(bytes@.subrange(start as int, start + other@.len())[i as int] != other@[i as int]);
            return false;
        }
        i = i + 1;
    }
    assert(bytes@.subrange(start as int, start + other@.len()) =~= other@);
    true
}

/// Encodes one checkpoint frame under `magic`.
pub fn encode_frame(magic: &[u8; 8], sequence: u64, digest: &[u8; 32]) -> (out: Vec<u8>)
    ensures
        out@ == frame(magic@, sequence, digest@),
        out@.len() == CHECKPOINT_BYTES,
{
    let mut out: Vec<u8> = Vec::new();
    push_bytes(&mut out, magic.as_slice());
    push_le(&mut out, CHECKPOINT_VERSION as u128, 2);
    let mut i: usize = 0;
    let ghost before = out@;
    while i < 6
        invariant
            i <= 6,
            out@ == before + Seq::new(i as nat, |j: int| 0u8),
        decreases 6 - i,
    {
        out.push(0u8);
        assert(before + Seq::new((i + 1) as nat, |j: int| 0u8) =~= (before + Seq::new(i as nat, |j: int| 0u8)).push(0u8));
        i = i + 1;
    }
    push_le(&mut out, sequence as u128, 8);
    push_bytes(&mut out, digest.as_slice());
    let checksum = blake3_digest(out.as_slice());
    push_bytes(&mut out, checksum.as_slice());
    proof {
        lemma_le_bytes_len(1, 2);
        lemma_le_bytes_len(sequence as nat, 8);
    }
    out
}

/// Decodes and verifies one checkpoint frame under `magic`.
pub fn decode_frame(magic: &[u8; 8], bytes: &[u8]) -> (r: Result<(u64, [u8; 32]), CheckpointError>)
    ensures
        match (r, decode_frame_spec(magic@, bytes@)) {
            (Ok((s, d)), Ok((s2, d2))) => s == s2 && d@ == d2,
            (Err(e), Err(e2)) => e == e2,
            _ => false,
        },
{
    if bytes.len() != CHECKPOINT_BYTES {
        return Err(CheckpointError::Length);
    }
    if !range_equals(bytes, 0, magic.as_slice()) {
        return Err(CheckpointError::Magic);
    }
    let version = read_le(bytes, 8, 2);
    proof {
        lemma_le_value_bound(bytes@.subrange(8, 10));
        lemma_pow256_values();
    }
    if version != 1 {
        return Err(CheckpointError::Version(version as u16));
    }
    let zeros = [0u8; 6];
    if !range_equals(bytes, 10, zeros.as_slice()) {
        assert(zeros@ =~= Seq::new(6, |i: int| 0u8));
        return Err(CheckpointError::Reserved);
    }
    assert(zeros@ =~= Seq::new(6, |i: int| 0u8));
    let body = copy_range(bytes, 0, CHECKPOINT_BODY_BYTES);
    let checksum = blake3_digest(body.as_slice());
    if !range_equals(bytes, CHECKPOINT_BODY_BYTES, checksum.as_slice()) {
        return Err(CheckpointError::Checksum);
    }
    let sequence = read_le(bytes, 16, 8);
    let mut digest = [0u8; 32];
    let mut i: usize = 0;
    while i < 32
        invariant
            i <= 32,
            bytes@.len() == 88,
            forall|j: int| 0 <= j < i ==> digest@[j] == bytes@[24 + j],
        decreases 32 - i,
    {
        digest[i] = bytes[24 + i];
        i = i + 1;
    }
    assert(digest@ =~= bytes@.subrange(24, 56));
    Ok((sequence, digest))
}

/// Decoding what `encode_frame` produced gives back the sequence and digest.
pub proof fn lemma_frame_roundtrip(magic: Seq<u8>, sequence: u64, digest: Seq<u8>)
    requires
        magic.len() == 8,
        digest.len() == 32,
        frame(magic, sequence, digest).len() == 88,
    ensures
        decode_frame_spec(magic, frame(magic, sequence, digest)) == Ok::<(u64, Seq<u8>), CheckpointError>((sequence, digest)),
{
    let body = frame_body(magic, sequence, digest);
    let f = frame(magic, sequence, digest);
    lemma_le_bytes_len(1, 2);
    lemma_le_bytes_len(sequence as nat, 8);
    assert(body.len() == 56);
    assert(blake3_hash(body).len() == 32);
    assert(f.subrange(0, 56) =~= body);
    assert(f.subrange(56, 88) =~= blake3_hash(body));
    assert(f.subrange(0, 8) =~= magic);
    assert(f.subrange(8, 10) =~= le_bytes(1, 2));
    lemma_pow256_values();
    lemma_le_roundtrip(1, 2);
    assert(f.subrange(10, 16) =~= Seq::new(6, |i: int| 0u8));
    assert(f.subrange(16, 24) =~= le_bytes(sequence as nat, 8));
    lemma_le_roundtrip(sequence as nat, 8);
    assert(f.subrange(24, 56) =~= digest);
}

/// Magic bytes `POLYRKP1` of a portfolio-risk checkpoint.
pub const RISK_CHECKPOINT_MAGIC: [u8; 8] = [80, 79, 76, 89, 82, 75, 80, 49];

/// The journal sequence and state digest of a portfolio-risk checkpoint.
#[derive(Clone, Copy, Debug, PartialEq, Eq)]
pub struct RiskCheckpoint {
    pub sequence: u64,
    pub risk_digest: [u8; 32],
}

impl RiskCheckpoint {
    /// The 88-byte frame of this checkpoint.
    pub open spec fn spec_frame(&self) -> Seq<u8> {
        frame(RISK_CHECKPOINT_MAGIC@, self.sequence, self.risk_digest@)
    }

    /// Encodes this checkpoint as one checksummed frame.
    pub fn encode(&self) -> (out: Vec<u8>)
        ensures
            out@ == self.spec_frame(),
            out@.len() == CHECKPOINT_BYTES,
    {
        let magic = RISK_CHECKPOINT_MAGIC;
        encode_frame(&magic, self.sequence, &self.risk_digest)
    }

    /// Decodes and verifies one frame.
    pub fn decode(bytes: &[u8]) -> (r: Result<Self, CheckpointError>)
        ensures
            match (r, decode_frame_spec(RISK_CHECKPOINT_MAGIC@, bytes@)) {
                (Ok(c), Ok((s, d))) => c.sequence == s && c.risk_digest@ == d,
                (Err(e), Err(e2)) => e == e2,
                _ => false,
            },
    {
        let magic = RISK_CHECKPOINT_MAGIC;
        match decode_frame(&magic, bytes) {
            Ok((sequence, risk_digest)) => Ok(RiskCheckpoint { sequence, risk_digest }),
            Err(e) => Err(e),
        }
    }

    /// Decoding an encoded checkpoint gives the same checkpoint back.
    pub proof fn lemma_roundtrip(self)
        requires
            self.spec_frame().len() == 88,
        ensures
            decode_frame_spec(RISK_CHECKPOINT_MAGIC@, self.spec_frame())
                == Ok::<(u64, Seq<u8>), CheckpointError>((self.sequence, self.risk_digest@)),
    {
        lemma_frame_roundtrip(RISK_CHECKPOINT_MAGIC@, self.sequence, self.risk_digest@);
    }
}

/// Magic bytes `POLYPEX1` of a paper-execution checkpoint.
pub const EXECUTION_CHECKPOINT_MAGIC: [u8; 8] = [80, 79, 76, 89, 80, 69, 88, 49];

/// The journal sequence and state digest of a paper-execution checkpoint.
#[derive(Clone, Copy, Debug, PartialEq, Eq)]
pub struct ExecutionCheckpoint {
    pub sequence: u64,
    pub execution_digest: [u8; 32],
}

impl ExecutionCheckpoint {
    /// The 88-byte frame of this checkpoint.
    pub open spec fn spec_frame(&self) -> Seq<u8> {
        frame(EXECUTION_CHECKPOINT_MAGIC@, self.sequence, self.execution_digest@)
    }

    /// Encodes this checkpoint as one checksummed frame.
    pub fn encode(&self) -> (out: Vec<u8>)
        ensures
            out@ == self.spec_frame(),
            out@.len() == CHECKPOINT_BYTES,
    {
        let magic = EXECUTION_CHECKPOINT_MAGIC;
        encode_frame(&magic, self.sequence, &self.execution_digest)
    }

    /// Decodes and verifies one frame.
    pub fn decode(bytes: &[u8]) -> (r: Result<Self, CheckpointError>)
        ensures
            match (r, decode_frame_spec(EXECUTION_CHECKPOINT_MAGIC@, bytes@)) {
                (Ok(c), Ok((s, d))) => c.sequence == s && c.execution_digest@ == d,
                (Err(e), Err(e2)) => e == e2,
                _ => false,
            },
    {
        let magic = EXECUTION_CHECKPOINT_MAGIC;
        match decode_frame(&magic, bytes) {
            Ok((sequence, execution_digest)) => Ok(ExecutionCheckpoint { sequence, execution_digest }),
            Err(e) => Err(e),
        }
    }

    /// Decoding an encoded checkpoint gives the same checkpoint back.
    pub proof fn lemma_roundtrip(self)
        requires
            self.spec_frame().len() == 88,
        ensures
            decode_frame_spec(EXECUTION_CHECKPOINT_MAGIC@, self.spec_frame())
                == Ok::<(u64, Seq<u8>), CheckpointError>((self.sequence, self.execution_digest@)),
    {
        lemma_frame_roundtrip(EXECUTION_CHECKPOINT_MAGIC@, self.sequence, self.execution_digest@);
    }
}

/// Magic bytes `POLYPRC1` of a production-readiness checkpoint.
pub const READINESS_CHECKPOINT_MAGIC: [u8; 8] = [80, 79, 76, 89, 80, 82, 67, 49];

/// The journal sequence and state digest of a production-readiness checkpoint.
#[derive(Clone, Copy, Debug, PartialEq, Eq)]
pub struct ReadinessCheckpoint {
    pub sequence: u64,
    pub readiness_digest: [u8; 32],
}

impl ReadinessCheckpoint {
    /// The 88-byte frame of this checkpoint.
    pub open spec fn spec_frame(&self) -> Seq<u8> {
        frame(READINESS_CHECKPOINT_MAGIC@, self.sequence, self.readiness_digest@)
    }

    /// Encodes this checkpoint as one checksummed frame.
    pub fn encode(&self) -> (out: Vec<u8>)
        ensures
            out@ == self.spec_frame(),
            out@.len() == CHECKPOINT_BYTES,
    {
        let magic = READINESS_CHECKPOINT_MAGIC;
        encode_frame(&magic, self.sequence, &self.readiness_digest)
    }

    /// Decodes and verifies one frame.
    pub fn decode(bytes: &[u8]) -> (r: Result<Self, CheckpointError>)
        ensures
            match (r, decode_frame_spec(READINESS_CHECKPOINT_MAGIC@, bytes@)) {
                (Ok(c), Ok((s, d))) => c.sequence == s && c.readiness_digest@ == d,
                (Err(e), Err(e2)) => e == e2,
                _ => false,
            },
    {
        let magic = READINESS_CHECKPOINT_MAGIC;
        match decode_frame(&magic, bytes) {
            Ok((sequence, readiness_digest)) => Ok(ReadinessCheckpoint { sequence, readiness_digest }),
            Err(e) => Err(e),
        }
    }

    /// Decoding an encoded checkpoint gives the same checkpoint back.
    pub proof fn lemma_roundtrip(self)
        requires
            self.spec_frame().len() == 88,
        ensures
            decode_frame_spec(READINESS_CHECKPOINT_MAGIC@, self.spec_frame())
                == Ok::<(u64, Seq<u8>), CheckpointError>((self.sequence, self.readiness_digest@)),
    {
        lemma_frame_roundtrip(READINESS_CHECKPOINT_MAGIC@, self.sequence, self.readiness_digest@);
    }
}

/// Magic bytes `POLYPGC1` of a promotion-governance checkpoint.
pub const GOVERNANCE_CHECKPOINT_MAGIC: [u8; 8] = [80, 79, 76, 89, 80, 71, 67, 49];

/// The journal sequence and state digest of a promotion-governance checkpoint.
#[derive(Clone, Copy, Debug, PartialEq, Eq)]
pub struct GovernanceCheckpoint {
    pub sequence: u64,
    pub governance_digest: [u8; 32],
}

impl GovernanceCheckpoint {
    /// The 88-byte frame of this checkpoint.
    pub open spec fn spec_frame(&self) -> Seq<u8> {
        frame(GOVERNANCE_CHECKPOINT_MAGIC@, self.sequence, self.governance_digest@)
    }

    /// Encodes this checkpoint as one checksummed frame.
    pub fn encode(&self) -> (out: Vec<u8>)
        ensures
            out@ == self.spec_frame(),
            out@.len() == CHECKPOINT_BYTES,
    {
        let magic = GOVERNANCE_CHECKPOINT_MAGIC;
        encode_frame(&magic, self.sequence, &self.governance_digest)
    }

    /// Decodes and verifies one frame.
    pub fn decode(bytes: &[u8]) -> (r: Result<Self, CheckpointError>)
        ensures
            match (r, decode_frame_spec(GOVERNANCE_CHECKPOINT_MAGIC@, bytes@)) {
                (Ok(c), Ok((s, d))) => c.sequence == s && c.governance_digest@ == d,
                (Err(e), Err(e2)) => e == e2,
                _ => false,
            },
    {
        let magic = GOVERNANCE_CHECKPOINT_MAGIC;
        match decode_frame(&magic, bytes) {
            Ok((sequence, governance_digest)) => Ok(GovernanceCheckpoint { sequence, governance_digest }),
            Err(e) => Err(e),
        }
    }

    /// Decoding an encoded checkpoint gives the same checkpoint back.
    pub proof fn lemma_roundtrip(self)
        requires
            self.spec_frame().len() == 88,
        ensures
            decode_frame_spec(GOVERNANCE_CHECKPOINT_MAGIC@, self.spec_frame())
                == Ok::<(u64, Seq<u8>), CheckpointError>((self.sequence, self.governance_digest@)),
    {
        lemma_frame_roundtrip(GOVERNANCE_CHECKPOINT_MAGIC@, self.sequence, self.governance_digest@);
    }
}

} // verus!
