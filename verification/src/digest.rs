//! Digests and the canonical encoding they are taken over.
//!
//! The digests of this library's own values (decisions, outcomes, records,
//! command contents, states, frozen datasets) and the size bounds on commands
//! are computed over the binary encoding that `Canonical` defines
//! (fixed-width little-endian integers, a tag byte per enum variant and per
//! option, and length-prefixed sequences and strings), not over a JSON
//! rendering of the value, so they are not byte-compatible with digests taken
//! over JSON text. Campaign records are the exception: their size bound and
//! digest are taken over the record's JSON text, which the caller supplies.

use vstd::prelude::*;
use vstd::string::StringSliceAdditionalSpecFns;

verus! {

/// The BLAKE3 hash of a byte string, as the `blake3` crate computes it.
pub uninterp spec fn blake3_hash(data: Seq<u8>) -> Seq<u8>;

/// Calls `blake3::hash` and returns its 32 output bytes.
/// Trusted: the result is the BLAKE3 digest of exactly `data`; nothing else
/// about BLAKE3 (collision resistance, output distribution) is stated.
#[verifier::external_body]
pub(crate) fn blake3_digest(data: &[u8]) -> (out: [u8; 32])
    ensures
        out@ == blake3_hash(data@),
{
    *blake3::hash(data).as_bytes()
}

/// Little-endian bytes of `value`, `width` bytes long (higher bytes dropped).
pub open spec fn le_bytes(value: nat, width: nat) -> Seq<u8>
    decreases width,
{
    if width == 0 {
        Seq::empty()
    } else {
        seq![(value % 256) as u8] + le_bytes(value / 256, (width - 1) as nat)
    }
}

pub proof fn lemma_le_bytes_len(value: nat, width: nat)
    ensures
        le_bytes(value, width).len() == width,
    decreases width,
{
    if width > 0 {
        lemma_le_bytes_len(value / 256, (width - 1) as nat);
    }
}

/// Appends the `width` low-order little-endian bytes of `value`.
pub fn push_le(out: &mut Vec<u8>, value: u128, width: usize)
    requires
        width <= 16,
    ensures
        final(out)@ == old(out)@ + le_bytes(value as nat, width as nat),
{
    let mut v: u128 = value;
    let mut i: usize = 0;
    let ghost start = out@;
    while i < width
        invariant
            i <= width,
            out@ + le_bytes(v as nat, (width - i) as nat) == start + le_bytes(value as nat, width as nat),
        decreases width - i,
    {
        let ghost before = out@;
        out.push((v % 256) as u8);
        assert(le_bytes(v as nat, (width - i) as nat) == seq![(v % 256) as u8] + le_bytes(
            (v / 256) as nat,
            (width - i - 1) as nat,
        ));
        assert(out@ + le_bytes((v / 256) as nat, (width - i - 1) as nat) == before + le_bytes(
            v as nat,
            (width - i) as nat,
        ));
        v = v / 256;
        i = i + 1;
    }
    assert(out@ + le_bytes(v as nat, 0) == out@);
}

/// Appends raw bytes unchanged.
pub fn push_bytes(out: &mut Vec<u8>, bytes: &[u8])
    ensures
        final(out)@ == old(out)@ + bytes@,
{
    let ghost start = out@;
    let mut i: usize = 0;
    while i < bytes.len()
        invariant
            i <= bytes@.len(),
            out@ == start + bytes@.subrange(0, i as int),
        decreases bytes@.len() - i,
    {
        out.push(bytes[i]);
        assert(bytes@.subrange(0, i + 1) == bytes@.subrange(0, i as int).push(bytes@[i as int]));
        i = i + 1;
    }
    assert(bytes@.subrange(0, bytes@.len() as int) == bytes@);
}

/// Byte-wise equality of two slices.
pub fn bytes_equal(a: &[u8], b: &[u8]) -> (r: bool)
    ensures
        r == (a@ == b@),
{
    if a.len() != b.len() {
        return false;
    }
    let mut i: usize = 0;
    while i < a.len()
        invariant
            a@.len() == b@.len(),
            i <= a@.len(),
            forall|j: int| 0 <= j < i ==> a@[j] == b@[j],
        decreases a@.len() - i,
    {
        if a[i] != b[i] {
            return false;
        }
        i = i + 1;
    }
    assert(a@ =~= b@);
    true
}

/// Equality of two 32-byte digests.
pub fn digest_eq(a: &[u8; 32], b: &[u8; 32]) -> (r: bool)
    ensures
        r == (a@ == b@),
{
    bytes_equal(a.as_slice(), b.as_slice())
}

/// The all-zero 32-byte value that marks an absent identifier or digest.
pub open spec fn zero32() -> Seq<u8> {
    Seq::new(32, |i: int| 0u8)
}

/// Whether a 32-byte value is all zeros.
pub fn is_zero32(a: &[u8; 32]) -> (r: bool)
    ensures
        r == (a@ == zero32()),
{
    let mut i: usize = 0;
    while i < 32
        invariant
            i <= 32,
            a@.len() == 32,
            forall|j: int| 0 <= j < i ==> a@[j] == 0u8,
        decreases 32 - i,
    {
        if a[i] != 0 {
            return false;
        }
        i = i + 1;
    }
    assert(a@ =~= zero32());
    true
}

/// Lexicographic strict order on byte strings (the order of `[u8]` and `str`).
pub open spec fn bytes_lt(a: Seq<u8>, b: Seq<u8>) -> bool
    decreases a.len(),
{
    if b.len() == 0 {
        false
    } else if a.len() == 0 {
        true
    } else if a[0] != b[0] {
        a[0] < b[0]
    } else {
        bytes_lt(a.drop_first(), b.drop_first())
    }
}

/// The byte order is irreflexive.
pub proof fn lemma_bytes_lt_irreflexive(a: Seq<u8>)
    ensures
        !bytes_lt(a, a),
    decreases a.len(),
{
    if a.len() > 0 {
        lemma_bytes_lt_irreflexive(a.drop_first());
    }
}

/// The byte order is transitive.
pub proof fn lemma_bytes_lt_transitive(a: Seq<u8>, b: Seq<u8>, c: Seq<u8>)
    requires
        bytes_lt(a, b),
        bytes_lt(b, c),
    ensures
        bytes_lt(a, c),
    decreases a.len(),
{
    if a.len() > 0 && b.len() > 0 && c.len() > 0 && a[0] == b[0] && b[0] == c[0] {
        lemma_bytes_lt_transitive(a.drop_first(), b.drop_first(), c.drop_first());
    }
}

/// Any two byte strings are equal or ordered one way.
pub proof fn lemma_bytes_lt_total(a: Seq<u8>, b: Seq<u8>)
    ensures
        a == b || bytes_lt(a, b) || bytes_lt(b, a),
    decreases a.len(),
{
    if a.len() > 0 && b.len() > 0 && a[0] == b[0] {
        lemma_bytes_lt_total(a.drop_first(), b.drop_first());
        if a.drop_first() == b.drop_first() {
            assert(a =~= seq![a[0]] + a.drop_first());
            assert(b =~= seq![b[0]] + b.drop_first());
        }
    } else if a.len() == 0 && b.len() == 0 {
        assert(a =~= b);
    }
}

/// The byte order is asymmetric.
pub proof fn lemma_bytes_lt_asymmetric(a: Seq<u8>, b: Seq<u8>)
    requires
        bytes_lt(a, b),
    ensures
        !bytes_lt(b, a),
{
    if bytes_lt(b, a) {
        lemma_bytes_lt_transitive(a, b, a);
        lemma_bytes_lt_irreflexive(a);
    }
}

/// Lexicographic strict comparison of two byte strings.
pub fn bytes_less(a: &[u8], b: &[u8]) -> (r: bool)
    ensures
        r == bytes_lt(a@, b@),
{
    let mut i: usize = 0;
    assert(a@.subrange(0, a@.len() as int) =~= a@);
    assert(b@.subrange(0, b@.len() as int) =~= b@);
    while i < a.len() && i < b.len()
        invariant
            i <= a@.len(),
            i <= b@.len(),
            forall|j: int| 0 <= j < i ==> a@[j] == b@[j],
            bytes_lt(a@, b@) == bytes_lt(a@.subrange(i as int, a@.len() as int), b@.subrange(i as int, b@.len() as int)),
        decreases a@.len() - i,
    {
        if a[i] != b[i] {
            return a[i] < b[i];
        }
        let ghost sa = a@.subrange(i as int, a@.len() as int);
        let ghost sb = b@.subrange(i as int, b@.len() as int);
        assert(sa.drop_first() =~= a@.subrange(i + 1, a@.len() as int));
        assert(sb.drop_first() =~= b@.subrange(i + 1, b@.len() as int));
        i = i + 1;
    }
    assert(bytes_lt(a@.subrange(i as int, a@.len() as int), b@.subrange(i as int, b@.len() as int)) == (i < b@.len()));
    i < b.len()
}

/// A value with a canonical, self-delimiting byte encoding used for digests
/// and size bounds (see the module documentation).
pub trait Canonical {
    spec fn canon(&self) -> Seq<u8>;

    fn encode_into(&self, out: &mut Vec<u8>)
        ensures
            final(out)@ == old(out)@ + self.canon(),
    ;
}

impl Canonical for u64 {
    open spec fn canon(&self) -> Seq<u8> {
        le_bytes(*self as nat, 8)
    }

    fn encode_into(&self, out: &mut Vec<u8>) {
        push_le(out, *self as u128, 8);
    }
}

impl Canonical for u8 {
    open spec fn canon(&self) -> Seq<u8> {
        seq![*self]
    }

    fn encode_into(&self, out: &mut Vec<u8>) {
        out.push(*self);
    }
}

impl Canonical for u16 {
    open spec fn canon(&self) -> Seq<u8> {
        le_bytes(*self as nat, 2)
    }

    fn encode_into(&self, out: &mut Vec<u8>) {
        push_le(out, *self as u128, 2);
    }
}

impl Canonical for usize {
    open spec fn canon(&self) -> Seq<u8> {
        le_bytes(*self as nat, 8)
    }

    fn encode_into(&self, out: &mut Vec<u8>) {
        push_le(out, *self as u128, 8);
    }
}

/// Offset-binary value of a signed 64-bit integer.
pub open spec fn offset_i64(x: i64) -> nat {
    (x + 0x8000_0000_0000_0000int) as nat
}

impl Canonical for i64 {
    open spec fn canon(&self) -> Seq<u8> {
        le_bytes(offset_i64(*self), 8)
    }

    fn encode_into(&self, out: &mut Vec<u8>) {
        let x = *self;
        let u: u128 = if x < 0 {
            (x + i64::MAX + 1) as u128
        } else {
            x as u128 + 0x8000_0000_0000_0000u128
        };
        push_le(out, u, 8);
    }
}

/// Offset-binary value of a signed 128-bit integer.
pub open spec fn offset_i128(x: i128) -> nat {
    (x + 0x8000_0000_0000_0000_0000_0000_0000_0000int) as nat
}

impl Canonical for i128 {
    open spec fn canon(&self) -> Seq<u8> {
        le_bytes(offset_i128(*self), 16)
    }

    fn encode_into(&self, out: &mut Vec<u8>) {
        let x = *self;
        let u: u128 = if x < 0 {
            (x + i128::MAX + 1) as u128
        } else {
            x as u128 + 0x8000_0000_0000_0000_0000_0000_0000_0000u128
        };
        push_le(out, u, 16);
    }
}

impl Canonical for bool {
    open spec fn canon(&self) -> Seq<u8> {
        if *self {
            seq![1u8]
        } else {
            seq![0u8]
        }
    }

    fn encode_into(&self, out: &mut Vec<u8>) {
        out.push(if *self {
            1u8
        } else {
            0u8
        });
    }
}

impl Canonical for [u8; 32] {
    open spec fn canon(&self) -> Seq<u8> {
        self@
    }

    fn encode_into(&self, out: &mut Vec<u8>) {
        push_bytes(out, self.as_slice());
    }
}

/// The UTF-8 bytes of a string (what `as_bytes` and `len` see).
pub open spec fn utf8_bytes(s: &String) -> Seq<u8> {
    vstd::utf8::encode_utf8(s@)
}

impl Canonical for String {
    open spec fn canon(&self) -> Seq<u8> {
        le_bytes(utf8_bytes(self).len(), 8) + utf8_bytes(self)
    }

    fn encode_into(&self, out: &mut Vec<u8>) {
        let bytes = self.as_str().as_bytes();
        push_le(out, bytes.len() as u128, 8);
        push_bytes(out, bytes);
    }
}

impl<T: Canonical> Canonical for Option<T> {
    open spec fn canon(&self) -> Seq<u8> {
        match self {
            None => seq![0u8],
            Some(v) => seq![1u8] + v.canon(),
        }
    }

    fn encode_into(&self, out: &mut Vec<u8>) {
        match self {
            None => out.push(0u8),
            Some(v) => {
                out.push(1u8);
                v.encode_into(out);
            },
        }
    }
}

impl<T: Canonical> Canonical for Box<T> {
    open spec fn canon(&self) -> Seq<u8> {
        (**self).canon()
    }

    fn encode_into(&self, out: &mut Vec<u8>) {
        (**self).encode_into(out);
    }
}

/// Concatenated encodings of a sequence of values.
pub open spec fn seq_canon<T: Canonical>(s: Seq<T>) -> Seq<u8>
    decreases s.len(),
{
    if s.len() == 0 {
        Seq::empty()
    } else {
        seq_canon(s.drop_last()) + s.last().canon()
    }
}

impl<T: Canonical> Canonical for Vec<T> {
    open spec fn canon(&self) -> Seq<u8> {
        le_bytes(self@.len(), 8) + seq_canon(self@)
    }

    fn encode_into(&self, out: &mut Vec<u8>) {
        push_le(out, self.len() as u128, 8);
        let ghost start = out@;
        let mut i: usize = 0;
        while i < self.len()
            invariant
                i <= self@.len(),
                out@ == start + seq_canon(self@.take(i as int)),
            decreases self@.len() - i,
        {
            self[i].encode_into(out);
            assert(self@.take(i + 1).drop_last() =~= self@.take(i as int));
            i = i + 1;
        }
        assert(self@.take(self@.len() as int) =~= self@);
    }
}

/// The digest of a domain-separated canonical encoding:
/// `blake3(domain ++ len(body) ++ body)`.
pub open spec fn domain_digest(domain: Seq<u8>, body: Seq<u8>) -> Seq<u8> {
    blake3_hash(domain + le_bytes(body.len(), 8) + body)
}

/// Hashes `domain`, the body length and `body` in one BLAKE3 pass.
pub fn digest_domain(domain: &[u8], body: &[u8]) -> (out: [u8; 32])
    ensures
        out@ == domain_digest(domain@, body@),
{
    let mut bytes: Vec<u8> = Vec::new();
    push_bytes(&mut bytes, domain);
    push_le(&mut bytes, body.len() as u128, 8);
    push_bytes(&mut bytes, body);
    blake3_digest(bytes.as_slice())
}

} // verus!
