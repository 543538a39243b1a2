//! Chronological research folds frozen from a verified paper journal.

use vstd::prelude::*;
use vstd::string::StringSliceAdditionalSpecFns;
use crate::digest::{blake3_digest, blake3_hash, digest_domain, digest_eq, domain_digest, push_bytes, utf8_bytes, zero32, Canonical};

verus! {

pub const DATASET_SCHEMA_VERSION: u16 = 1;
pub const MAX_JOURNAL_BYTES: usize = 536870912;
pub const MAX_RECORDS: usize = 10000000;
pub const MAX_STREAM_BYTES: usize = 128;

/// Bounds and fold shares of dataset freezing.
#[derive(Clone, Copy, Debug, PartialEq, Eq)]
pub struct DatasetPolicy {
    pub maximum_journal_bytes: usize,
    pub maximum_records: usize,
    pub train_bps: u16,
    pub validation_bps: u16,
    pub minimum_records_per_fold: usize,
    pub policy_digest: [u8; 32],
}

/// One admitted journal record.
#[derive(Clone, Debug, PartialEq, Eq)]
pub struct DatasetRecord {
    pub sequence: u64,
    pub stream: String,
    pub kind: String,
    pub event_time_ns: i64,
    pub received_time_ns: i64,
    pub strategy_available_time_ns: i64,
    pub payload_digest: [u8; 32],
    pub record_digest: [u8; 32],
}

#[derive(Clone, Debug, PartialEq, Eq)]
pub enum DatasetError {
    Policy,
    Read(String),
    Bounds,
    Encoding,
    Digest,
    Journal,
    Chronology,
    Provenance,
}

pub open spec fn dataset_policy_body_0(v: &DatasetPolicy) -> Seq<u8> {
    v.maximum_journal_bytes.canon() + v.maximum_records.canon() + v.train_bps.canon() + v.validation_bps.canon() + v.minimum_records_per_fold.canon()
}

fn dataset_policy_encode_body_0(v: &DatasetPolicy, out: &mut Vec<u8>)
    ensures
        final(out)@ == old(out)@ + dataset_policy_body_0(v),
{
    let ghost start = out@;
    v.maximum_journal_bytes.encode_into(out);
    v.maximum_records.encode_into(out);
    v.train_bps.encode_into(out);
    v.validation_bps.encode_into(out);
    v.minimum_records_per_fold.encode_into(out);
    assert(out@ =~= start + dataset_policy_body_0(v));
}

/// The encoding of every field but the digest.
pub open spec fn dataset_policy_body(v: &DatasetPolicy) -> Seq<u8> {
    dataset_policy_body_0(v)
}

pub fn dataset_policy_encode_body(v: &DatasetPolicy, out: &mut Vec<u8>)
    ensures
        final(out)@ == old(out)@ + dataset_policy_body(v),
{
    let ghost start = out@;
    dataset_policy_encode_body_0(v, out);
    assert(out@ =~= start + dataset_policy_body(v));
}

impl Canonical for DatasetPolicy {
    open spec fn canon(&self) -> Seq<u8> {
        dataset_policy_body(self) + self.policy_digest.canon()
    }

    fn encode_into(&self, out: &mut Vec<u8>) {
        let ghost start = out@;
        dataset_policy_encode_body(self, out);
        self.policy_digest.encode_into(out);
        assert(out@ =~= start + self.canon());
    }
}

impl Canonical for DatasetRecord {
    open spec fn canon(&self) -> Seq<u8> {
        self.sequence.canon() + self.stream.canon() + self.kind.canon() + self.event_time_ns.canon() + self.received_time_ns.canon() + self.strategy_available_time_ns.canon() + self.payload_digest.canon() + self.record_digest.canon()
    }

    fn encode_into(&self, out: &mut Vec<u8>) {
        let ghost start = out@;
        self.sequence.encode_into(out);
        self.stream.encode_into(out);
        self.kind.encode_into(out);
        self.event_time_ns.encode_into(out);
        self.received_time_ns.encode_into(out);
        self.strategy_available_time_ns.encode_into(out);
        self.payload_digest.encode_into(out);
        self.record_digest.encode_into(out);
        assert(out@ =~= start + self.canon());
    }
}

/// Domain of the policy digest.
pub open spec fn policy_domain() -> Seq<u8> {
    "paper-dataset-policy-v1".spec_bytes()
}

/// The digest of a policy: BLAKE3 over the domain and every field, with the
/// digest itself zeroed.
pub open spec fn policy_digest_spec(p: DatasetPolicy) -> Seq<u8> {
    blake3_hash(policy_domain() + dataset_policy_body(&p) + zero32())
}

fn policy_digest(p: &DatasetPolicy) -> (r: [u8; 32])
    ensures
        r@ == policy_digest_spec(*p),
{
    let mut bytes: Vec<u8> = Vec::new();
    push_bytes(&mut bytes, "paper-dataset-policy-v1".as_bytes());
    dataset_policy_encode_body(p, &mut bytes);
    let zero = [0u8; 32];
    push_bytes(&mut bytes, zero.as_slice());
    assert(zero@ =~= zero32());
    blake3_digest(bytes.as_slice())
}

impl DatasetPolicy {
    /// This policy with its digest set.
    pub fn sealed(self) -> (r: Self)
        ensures
            r == (DatasetPolicy { policy_digest: r.policy_digest, ..self }),
            r.policy_digest@ == policy_digest_spec(self),
            r.policy_digest@ == policy_digest_spec(r),
    {
        let mut v = self;
        v.policy_digest = policy_digest(&v);
        assert(dataset_policy_body(&v) == dataset_policy_body(&self));
        v
    }

    /// Whether the digest matches the policy.
    pub fn verify_digest(&self) -> (r: bool)
        ensures
            r == (self.policy_digest@ == policy_digest_spec(*self)),
    {
        let d = policy_digest(self);
        digest_eq(&self.policy_digest, &d)
    }
}

/// A sealed policy with coherent bounds and fold shares leaving room for a test fold.
pub open spec fn policy_valid(p: DatasetPolicy) -> bool {
    &&& p.policy_digest@ == policy_digest_spec(p)
    &&& 0 < p.maximum_journal_bytes <= MAX_JOURNAL_BYTES
    &&& 0 < p.maximum_records <= MAX_RECORDS
    &&& p.train_bps > 0
    &&& p.validation_bps > 0
    &&& p.train_bps + p.validation_bps < 10000
    &&& p.minimum_records_per_fold > 0
}

pub fn validate_policy(p: &DatasetPolicy) -> (r: Result<(), DatasetError>)
    ensures
        r is Ok <==> policy_valid(*p),
        r is Err ==> r == Err::<(), DatasetError>(DatasetError::Policy),
{
    if !p.verify_digest() || p.maximum_journal_bytes == 0 || p.maximum_journal_bytes > MAX_JOURNAL_BYTES
        || p.maximum_records == 0 || p.maximum_records > MAX_RECORDS || p.train_bps == 0 || p.validation_bps == 0
        || p.train_bps as usize + p.validation_bps as usize >= 10000 || p.minimum_records_per_fold == 0 {
        return Err(DatasetError::Policy);
    }
    Ok(())
}

/// Milliseconds as nanoseconds, or `Journal` where that overflows.
pub fn millis_to_ns(millis: i64) -> (r: Result<i64, DatasetError>)
    ensures
        match r {
            Ok(v) => v == millis * 1000000,
            Err(e) => e == DatasetError::Journal && (millis * 1000000 > i64::MAX || millis * 1000000 < i64::MIN),
        },
{
    match millis.checked_mul(1000000) {
        Some(v) => Ok(v),
        None => Err(DatasetError::Journal),
    }
}

/// The value of one lowercase hexadecimal digit.
pub open spec fn hex_spec(c: u8) -> Option<u8> {
    if 48 <= c <= 57 {
        Some((c - 48) as u8)
    } else if 97 <= c <= 102 {
        Some((c - 97 + 10) as u8)
    } else {
        None
    }
}

pub fn hex_value(value: u8) -> (r: Result<u8, DatasetError>)
    ensures
        match hex_spec(value) {
            Some(v) => r == Ok::<u8, DatasetError>(v),
            None => r == Err::<u8, DatasetError>(DatasetError::Digest),
        },
{
    if 48 <= value && value <= 57 {
        Ok(value - 48)
    } else if 97 <= value && value <= 102 {
        Ok(value - 97 + 10)
    } else {
        Err(DatasetError::Digest)
    }
}

/// Every character of a text is a lowercase hexadecimal digit.
pub open spec fn all_hex(s: Seq<u8>) -> bool {
    forall|i: int| 0 <= i < s.len() ==> (#[trigger] hex_spec(s[i])) is Some
}

/// The bytes spelled by 64 lowercase hexadecimal digits.
pub open spec fn hex_bytes(s: Seq<u8>) -> Seq<u8> {
    Seq::new(32, |i: int| (hex_spec(s[2 * i])->0 * 16 + hex_spec(s[2 * i + 1])->0) as u8)
}

/// Decodes a digest written as 64 lowercase hexadecimal digits.
pub fn decode_hex_digest(value: &str) -> (r: Result<[u8; 32], DatasetError>)
    ensures
        match r {
            Ok(d) => value.spec_bytes().len() == 64 && all_hex(value.spec_bytes()) && d@ == hex_bytes(value.spec_bytes()),
            Err(e) => e == DatasetError::Digest && !(value.spec_bytes().len() == 64 && all_hex(value.spec_bytes())),
        },
{
    let bytes = value.as_bytes();
    if bytes.len() != 64 {
        return Err(DatasetError::Digest);
    }
    let mut result = [0u8; 32];
    let mut index: usize = 0;
    while index < 32
        invariant
            bytes@ == value.spec_bytes(),
            bytes@.len() == 64,
            index <= 32,
            result@.len() == 32,
            forall|k: int| 0 <= k < 2 * index ==> (#[trigger] hex_spec(bytes@[k])) is Some,
            forall|k: int| 0 <= k < index ==> result@[k] == hex_bytes(bytes@)[k],
        decreases 32 - index,
    {
        let high = match hex_value(bytes[2 * index]) {
            Ok(v) => v,
            Err(e) => {
                assert(hex_spec(bytes@[2 * index as int]) is None);
                return Err(e);
            },
        };
        let low = match hex_value(bytes[2 * index + 1]) {
            Ok(v) => v,
            Err(e) => {
                assert(hex_spec(bytes@[2 * index as int + 1]) is None);
                return Err(e);
            },
        };
        assert(high < 16 && low < 16);
        result[index] = ((high as u16 * 16 + low as u16) as u8);
        assert(hex_bytes(bytes@)[index as int] == (high * 16 + low) as u8);
        index = index + 1;
    }
    assert(result@ =~= hex_bytes(bytes@));
    Ok(result)
}


/// Order of records by availability time, then sequence.
pub open spec fn record_before(a: DatasetRecord, b: DatasetRecord) -> bool {
    a.strategy_available_time_ns < b.strategy_available_time_ns || (a.strategy_available_time_ns
        == b.strategy_available_time_ns && a.sequence < b.sequence)
}

/// The index before which `e` goes in `t`: ahead of every record not before it.
pub open spec fn slot_for(e: DatasetRecord, t: Seq<DatasetRecord>) -> int
    decreases t.len(),
{
    if t.len() == 0 {
        0
    } else if !record_before(t[0], e) {
        0
    } else {
        1 + slot_for(e, t.drop_first())
    }
}

/// Records ordered by availability time then sequence, ties in original order.
pub open spec fn chronological(s: Seq<DatasetRecord>) -> Seq<DatasetRecord>
    decreases s.len(),
{
    if s.len() == 0 {
        Seq::empty()
    } else {
        let t = chronological(s.drop_first());
        t.insert(slot_for(s[0], t), s[0])
    }
}

/// Availability times never decrease along `s`.
pub open spec fn times_sorted(s: Seq<DatasetRecord>) -> bool {
    forall|i: int, j: int| 0 <= i <= j < s.len() ==> (#[trigger] s[i]).strategy_available_time_ns <= (#[trigger] s[j]).strategy_available_time_ns
}

proof fn lemma_slot_for(e: DatasetRecord, t: Seq<DatasetRecord>, k: int)
    requires
        0 <= k <= t.len(),
        forall|j: int| 0 <= j < k ==> record_before(#[trigger] t[j], e),
        k == t.len() || !record_before(t[k], e),
    ensures
        slot_for(e, t) == k,
    decreases t.len(),
{
    if t.len() > 0 && k > 0 {
        assert forall|j: int| 0 <= j < k - 1 implies record_before(#[trigger] t.drop_first()[j], e) by {
            assert(t.drop_first()[j] == t[j + 1]);
        }
        lemma_slot_for(e, t.drop_first(), k - 1);
    }
}

proof fn lemma_slot_props(e: DatasetRecord, t: Seq<DatasetRecord>)
    ensures
        0 <= slot_for(e, t) <= t.len(),
        forall|j: int| 0 <= j < slot_for(e, t) ==> record_before(#[trigger] t[j], e),
        slot_for(e, t) < t.len() ==> !record_before(t[slot_for(e, t)], e),
    decreases t.len(),
{
    if t.len() > 0 && record_before(t[0], e) {
        lemma_slot_props(e, t.drop_first());
        assert forall|j: int| 0 <= j < slot_for(e, t) implies record_before(#[trigger] t[j], e) by {
            if j > 0 {
                assert(t[j] == t.drop_first()[j - 1]);
            }
        }
    }
}

proof fn lemma_insert_keeps_sorted(e: DatasetRecord, t: Seq<DatasetRecord>)
    requires
        times_sorted(t),
    ensures
        times_sorted(t.insert(slot_for(e, t), e)),
{
    lemma_slot_props(e, t);
    let k = slot_for(e, t);
    let ins = t.insert(k, e);
    assert forall|i: int, j: int| 0 <= i <= j < ins.len()
        implies (#[trigger] ins[i]).strategy_available_time_ns <= (#[trigger] ins[j]).strategy_available_time_ns by {
        if j < k {
            assert(ins[i] == t[i] && ins[j] == t[j]);
        } else if j == k {
            if i < k {
                assert(ins[i] == t[i]);
                assert(record_before(t[i], e));
            }
        } else if i < k {
            assert(ins[i] == t[i] && ins[j] == t[j - 1]);
        } else if i == k {
            assert(ins[j] == t[j - 1]);
            assert(t[k].strategy_available_time_ns <= t[j - 1].strategy_available_time_ns);
        } else {
            assert(ins[i] == t[i - 1] && ins[j] == t[j - 1]);
        }
    }
}

/// The chronological order is sorted by availability time.
pub proof fn lemma_chronological_sorted(s: Seq<DatasetRecord>)
    ensures
        times_sorted(chronological(s)),
        chronological(s).len() == s.len(),
    decreases s.len(),
{
    if s.len() > 0 {
        lemma_chronological_sorted(s.drop_first());
        let t = chronological(s.drop_first());
        lemma_insert_keeps_sorted(s[0], t);
        lemma_slot_props(s[0], t);
    }
}

fn before(a: &DatasetRecord, b: &DatasetRecord) -> (r: bool)
    ensures
        r == record_before(*a, *b),
{
    a.strategy_available_time_ns < b.strategy_available_time_ns || (a.strategy_available_time_ns == b.strategy_available_time_ns
        && a.sequence < b.sequence)
}

/// Orders records by availability time, then sequence.
pub fn sort_chronologically(v: Vec<DatasetRecord>) -> (r: Vec<DatasetRecord>)
    ensures
        r@ == chronological(v@),
{
    let ghost s = v@;
    let mut v = v;
    let mut out: Vec<DatasetRecord> = Vec::new();
    while v.len() > 0
        invariant
            v@.len() <= s.len(),
            v@ == s.subrange(0, v@.len() as int),
            out@ == chronological(s.subrange(v@.len() as int, s.len() as int)),
        decreases v@.len(),
    {
        let ghost i = v@.len() as int;
        let e = v.pop().unwrap();
        assert(s.subrange(i - 1, s.len() as int).drop_first() =~= s.subrange(i, s.len() as int));
        let mut k: usize = 0;
        while k < out.len() && before(&out[k], &e)
            invariant
                k <= out@.len(),
                forall|j: int| 0 <= j < k ==> record_before(#[trigger] out@[j], e),
            decreases out@.len() - k,
        {
            k = k + 1;
        }
        proof { lemma_slot_for(e, out@, k as int); }
        out.insert(k, e);
    }
    assert(s.subrange(0, s.len() as int) =~= s);
    out
}

#[derive(Clone, Copy, Debug, PartialEq, Eq, Structural)]
pub enum FoldKind {
    Train,
    Validation,
    Test,
}

/// The availability window and content digest of one fold.
#[derive(Clone, Copy, Debug, PartialEq, Eq)]
pub struct FoldWindow {
    pub kind: FoldKind,
    pub start_available_time_ns: i64,
    pub end_available_time_ns: i64,
    pub data_digest: [u8; 32],
}

/// The walk-forward plan of a dataset: its three fold windows, in order,
/// sealed by a digest over them.
#[derive(Clone, Copy, Debug, PartialEq, Eq)]
pub struct WalkForwardPlan {
    pub train: FoldWindow,
    pub validation: FoldWindow,
    pub test: FoldWindow,
    pub plan_digest: [u8; 32],
}

/// One fold of a frozen dataset.
#[derive(Clone, Copy, Debug, PartialEq, Eq)]
pub struct FoldManifest {
    pub fold: FoldWindow,
    pub first_sequence: u64,
    pub last_sequence: u64,
    pub records: u64,
    pub records_digest: [u8; 32],
}

/// A journal frozen into chronological train, validation and test folds.
#[derive(Clone, Debug, PartialEq, Eq)]
pub struct FrozenDataset {
    pub schema_version: u16,
    pub campaign_id: String,
    pub source_journal_digest: [u8; 32],
    pub policy_digest: [u8; 32],
    pub records: Vec<DatasetRecord>,
    pub train: FoldManifest,
    pub validation: FoldManifest,
    pub test: FoldManifest,
    pub plan: WalkForwardPlan,
    pub dataset_digest: [u8; 32],
}

impl Canonical for FoldKind {
    open spec fn canon(&self) -> Seq<u8> {
        match self {
            FoldKind::Train => seq![0u8],
            FoldKind::Validation => seq![1u8],
            FoldKind::Test => seq![2u8],
        }
    }

    fn encode_into(&self, out: &mut Vec<u8>) {
        let ghost start = out@;
        match self {
            FoldKind::Train => {
                out.push(0u8);
            },
            FoldKind::Validation => {
                out.push(1u8);
            },
            FoldKind::Test => {
                out.push(2u8);
            },
        }
        assert(out@ =~= start + self.canon());
    }
}

impl Canonical for FoldWindow {
    open spec fn canon(&self) -> Seq<u8> {
        self.kind.canon() + self.start_available_time_ns.canon() + self.end_available_time_ns.canon() + self.data_digest.canon()
    }

    fn encode_into(&self, out: &mut Vec<u8>) {
        let ghost start = out@;
        self.kind.encode_into(out);
        self.start_available_time_ns.encode_into(out);
        self.end_available_time_ns.encode_into(out);
        self.data_digest.encode_into(out);
        assert(out@ =~= start + self.canon());
    }
}

impl Canonical for WalkForwardPlan {
    open spec fn canon(&self) -> Seq<u8> {
        plan_body(*self) + self.plan_digest.canon()
    }

    fn encode_into(&self, out: &mut Vec<u8>) {
        let ghost start = out@;
        encode_plan_body(self, out);
        self.plan_digest.encode_into(out);
        assert(out@ =~= start + self.canon());
    }
}

/// The encoding of a plan's windows.
pub open spec fn plan_body(p: WalkForwardPlan) -> Seq<u8> {
    p.train.canon() + p.validation.canon() + p.test.canon()
}

fn encode_plan_body(p: &WalkForwardPlan, out: &mut Vec<u8>)
    ensures
        final(out)@ == old(out)@ + plan_body(*p),
{
    let ghost start = out@;
    p.train.encode_into(out);
    p.validation.encode_into(out);
    p.test.encode_into(out);
    assert(out@ =~= start + plan_body(*p));
}

/// Domain of the walk-forward plan digest.
pub open spec fn plan_domain() -> Seq<u8> {
    "walk-forward-plan-v1".spec_bytes()
}

/// The digest of a plan: its windows, with the digest itself zeroed.
pub open spec fn plan_digest_spec(p: WalkForwardPlan) -> Seq<u8> {
    domain_digest(plan_domain(), plan_body(p) + zero32())
}

fn plan_digest(p: &WalkForwardPlan) -> (r: [u8; 32])
    ensures
        r@ == plan_digest_spec(*p),
{
    let mut body: Vec<u8> = Vec::new();
    encode_plan_body(p, &mut body);
    let zero = [0u8; 32];
    push_bytes(&mut body, zero.as_slice());
    assert(zero@ =~= zero32());
    digest_domain("walk-forward-plan-v1".as_bytes(), body.as_slice())
}

impl WalkForwardPlan {
    /// The plan of three fold windows, sealed.
    pub fn new(train: FoldWindow, validation: FoldWindow, test: FoldWindow) -> (r: Self)
        ensures
            r.train == train && r.validation == validation && r.test == test,
            r.plan_digest@ == plan_digest_spec(r),
    {
        let mut p = WalkForwardPlan { train, validation, test, plan_digest: [0u8; 32] };
        p.plan_digest = plan_digest(&p);
        p
    }

    /// Whether the plan digest matches the windows.
    pub fn verify_digest(&self) -> (r: bool)
        ensures
            r == (self.plan_digest@ == plan_digest_spec(*self)),
    {
        let d = plan_digest(self);
        digest_eq(&self.plan_digest, &d)
    }
}

impl Canonical for FoldManifest {
    open spec fn canon(&self) -> Seq<u8> {
        self.fold.canon() + self.first_sequence.canon() + self.last_sequence.canon() + self.records.canon() + self.records_digest.canon()
    }

    fn encode_into(&self, out: &mut Vec<u8>) {
        let ghost start = out@;
        self.fold.encode_into(out);
        self.first_sequence.encode_into(out);
        self.last_sequence.encode_into(out);
        self.records.encode_into(out);
        self.records_digest.encode_into(out);
        assert(out@ =~= start + self.canon());
    }
}

pub open spec fn frozen_dataset_body_0(v: &FrozenDataset) -> Seq<u8> {
    v.schema_version.canon() + v.campaign_id.canon() + v.source_journal_digest.canon() + v.policy_digest.canon() + v.records.canon() + v.train.canon() + v.validation.canon()
}

fn frozen_dataset_encode_body_0(v: &FrozenDataset, out: &mut Vec<u8>)
    ensures
        final(out)@ == old(out)@ + frozen_dataset_body_0(v),
{
    let ghost start = out@;
    v.schema_version.encode_into(out);
    v.campaign_id.encode_into(out);
    v.source_journal_digest.encode_into(out);
    v.policy_digest.encode_into(out);
    v.records.encode_into(out);
    v.train.encode_into(out);
    v.validation.encode_into(out);
    assert(out@ =~= start + frozen_dataset_body_0(v));
}

pub open spec fn frozen_dataset_body_1(v: &FrozenDataset) -> Seq<u8> {
    v.test.canon() + v.plan.canon()
}

fn frozen_dataset_encode_body_1(v: &FrozenDataset, out: &mut Vec<u8>)
    ensures
        final(out)@ == old(out)@ + frozen_dataset_body_1(v),
{
    let ghost start = out@;
    v.test.encode_into(out);
    v.plan.encode_into(out);
    assert(out@ =~= start + frozen_dataset_body_1(v));
}

/// The encoding of every field but the digest.
pub open spec fn frozen_dataset_body(v: &FrozenDataset) -> Seq<u8> {
    frozen_dataset_body_0(v) + frozen_dataset_body_1(v)
}

pub fn frozen_dataset_encode_body(v: &FrozenDataset, out: &mut Vec<u8>)
    ensures
        final(out)@ == old(out)@ + frozen_dataset_body(v),
{
    let ghost start = out@;
    frozen_dataset_encode_body_0(v, out);
    frozen_dataset_encode_body_1(v, out);
    assert(out@ =~= start + frozen_dataset_body(v));
}

impl Canonical for FrozenDataset {
    open spec fn canon(&self) -> Seq<u8> {
        frozen_dataset_body(self) + self.dataset_digest.canon()
    }

    fn encode_into(&self, out: &mut Vec<u8>) {
        let ghost start = out@;
        frozen_dataset_encode_body(self, out);
        self.dataset_digest.encode_into(out);
        assert(out@ =~= start + self.canon());
    }
}

/// Record `k` opens a new availability bucket.
pub open spec fn starts_bucket(s: Seq<DatasetRecord>, k: int) -> bool {
    k == 0 || s[k].strategy_available_time_ns != s[k - 1].strategy_available_time_ns
}

/// The first index of each availability bucket among the first `n` records.
pub open spec fn bucket_starts(s: Seq<DatasetRecord>, n: int) -> Seq<int>
    decreases n,
{
    if n <= 0 {
        Seq::empty()
    } else {
        bucket_starts(s, n - 1) + if starts_bucket(s, n - 1) { seq![n - 1] } else { Seq::empty() }
    }
}

pub open spec fn clamp(v: int, lo: int, hi: int) -> int {
    if v < lo { lo } else if v > hi { hi } else { v }
}

/// Buckets given to training and to validation, out of `count`.
pub open spec fn split_spec(count: int, p: DatasetPolicy) -> (int, int) {
    let train = clamp(count * p.train_bps / 10000, 1, count - 2);
    let remaining = count - train;
    let share = p.validation_bps * remaining / (10000 - p.train_bps);
    (train, clamp(share, 1, remaining - 1))
}

/// The digest of an ordered run of records.
pub open spec fn records_digest_spec(s: Seq<DatasetRecord>) -> Seq<u8> {
    blake3_hash(crate::digest::le_bytes(s.len(), 8) + crate::digest::seq_canon(s))
}

/// `m` describes the non-empty run `s` as a fold of `kind`.
pub open spec fn fold_spec(m: FoldManifest, s: Seq<DatasetRecord>, kind: FoldKind) -> bool {
    &&& s.len() > 0
    &&& m.fold.kind == kind
    &&& m.fold.start_available_time_ns == s[0].strategy_available_time_ns
    &&& m.fold.end_available_time_ns == s.last().strategy_available_time_ns + 1
    &&& m.fold.data_digest@ == records_digest_spec(s)
    &&& m.records_digest == m.fold.data_digest
    &&& m.first_sequence == s[0].sequence
    &&& m.last_sequence == s.last().sequence
    &&& m.records == s.len()
}

fn records_digest(s: &[DatasetRecord]) -> (r: [u8; 32])
    ensures
        r@ == records_digest_spec(s@),
{
    let mut bytes: Vec<u8> = Vec::new();
    crate::digest::push_le(&mut bytes, s.len() as u128, 8);
    let ghost start = bytes@;
    let mut i: usize = 0;
    while i < s.len()
        invariant
            i <= s@.len(),
            bytes@ == start + crate::digest::seq_canon(s@.take(i as int)),
        decreases s@.len() - i,
    {
        s[i].encode_into(&mut bytes);
        assert(s@.take(i + 1).drop_last() =~= s@.take(i as int));
        i = i + 1;
    }
    assert(s@.take(s@.len() as int) =~= s@);
    blake3_digest(bytes.as_slice())
}

/// The manifest of one fold, or `Chronology` where the run is empty or its
/// end time overflows.
pub fn fold_manifest(s: &[DatasetRecord], kind: FoldKind) -> (r: Result<FoldManifest, DatasetError>)
    ensures
        match r {
            Ok(m) => fold_spec(m, s@, kind),
            Err(e) => e == DatasetError::Chronology && (s@.len() == 0 || s@.last().strategy_available_time_ns + 1 > i64::MAX),
        },
{
    if s.len() == 0 {
        return Err(DatasetError::Chronology);
    }
    let first = &s[0];
    let last = &s[s.len() - 1];
    let end = match last.strategy_available_time_ns.checked_add(1) {
        Some(v) => v,
        None => {
            return Err(DatasetError::Chronology);
        },
    };
    let digest = records_digest(s);
    Ok(FoldManifest {
        fold: FoldWindow { kind, start_available_time_ns: first.strategy_available_time_ns, end_available_time_ns: end, data_digest: digest },
        first_sequence: first.sequence,
        last_sequence: last.sequence,
        records: s.len() as u64,
        records_digest: digest,
    })
}

/// Domain of the dataset digest.
pub open spec fn dataset_domain() -> Seq<u8> {
    "frozen-paper-dataset-v1".spec_bytes()
}

pub open spec fn dataset_digest_spec(d: FrozenDataset) -> Seq<u8> {
    blake3_hash(dataset_domain() + frozen_dataset_body(&d) + zero32())
}

fn dataset_digest(d: &FrozenDataset) -> (r: [u8; 32])
    ensures
        r@ == dataset_digest_spec(*d),
{
    let mut bytes: Vec<u8> = Vec::new();
    push_bytes(&mut bytes, "frozen-paper-dataset-v1".as_bytes());
    frozen_dataset_encode_body(d, &mut bytes);
    let zero = [0u8; 32];
    push_bytes(&mut bytes, zero.as_slice());
    assert(zero@ =~= zero32());
    blake3_digest(bytes.as_slice())
}

impl FrozenDataset {
    /// Whether the dataset digest matches the content.
    pub fn verify_digest(&self) -> (r: bool)
        ensures
            r == (self.dataset_digest@ == dataset_digest_spec(*self)),
    {
        let d = dataset_digest(self);
        digest_eq(&self.dataset_digest, &d)
    }
}

fn bucket_starts_of(s: &Vec<DatasetRecord>) -> (r: Vec<usize>)
    ensures
        r@.len() == bucket_starts(s@, s@.len() as int).len(),
        forall|i: int| 0 <= i < r@.len() ==> r@[i] as int == bucket_starts(s@, s@.len() as int)[i],
{
    let mut r: Vec<usize> = Vec::new();
    let mut k: usize = 0;
    while k < s.len()
        invariant
            k <= s@.len(),
            r@.len() == bucket_starts(s@, k as int).len(),
            forall|i: int| 0 <= i < r@.len() ==> r@[i] as int == bucket_starts(s@, k as int)[i],
        decreases s@.len() - k,
    {
        if k == 0 || s[k].strategy_available_time_ns != s[k - 1].strategy_available_time_ns {
            r.push(k);
        }
        k = k + 1;
    }
    r
}

/// Starts are increasing, begin at zero and mark exactly the time changes.
proof fn lemma_bucket_starts(s: Seq<DatasetRecord>, n: int)
    requires
        0 <= n <= s.len(),
    ensures
        forall|i: int| 0 <= i < bucket_starts(s, n).len() ==> 0 <= #[trigger] bucket_starts(s, n)[i] < n
            && starts_bucket(s, bucket_starts(s, n)[i]),
        forall|i: int, j: int| 0 <= i < j < bucket_starts(s, n).len() ==> #[trigger] bucket_starts(s, n)[i] < #[trigger] bucket_starts(s, n)[j],
        n > 0 ==> bucket_starts(s, n).len() > 0 && bucket_starts(s, n)[0] == 0,
        bucket_starts(s, n).len() <= n,
    decreases n,
{
    if n > 0 {
        lemma_bucket_starts(s, n - 1);
    }
}

proof fn lemma_boundary_gap(s: Seq<DatasetRecord>, k: int)
    requires
        times_sorted(s),
        0 < k < s.len(),
        starts_bucket(s, k),
    ensures
        s[k - 1].strategy_available_time_ns < s[k].strategy_available_time_ns,
{
    assert(s[k - 1].strategy_available_time_ns <= s[k].strategy_available_time_ns);
}

/// The indices where the train and the validation folds end.
pub open spec fn fold_ends(s: Seq<DatasetRecord>, p: DatasetPolicy) -> (int, int) {
    let starts = bucket_starts(s, s.len() as int);
    let (tb, vb) = split_spec(starts.len() as int, p);
    (starts[tb], starts[tb + vb])
}

/// Freezing ordered records fails: fewer than three availability buckets, a
/// fold end time that overflows, or a fold below the policy minimum.
pub open spec fn chronology_fails(s: Seq<DatasetRecord>, p: DatasetPolicy) -> bool {
    let count = bucket_starts(s, s.len() as int).len();
    let (te, ve) = fold_ends(s, p);
    ||| count < 3
    ||| s[te - 1].strategy_available_time_ns + 1 > i64::MAX
    ||| s[ve - 1].strategy_available_time_ns + 1 > i64::MAX
    ||| s.last().strategy_available_time_ns + 1 > i64::MAX
    ||| te < p.minimum_records_per_fold
    ||| ve - te < p.minimum_records_per_fold
    ||| s.len() - ve < p.minimum_records_per_fold
}

/// `d` freezes the ordered records `s`: three consecutive, chronologically
/// disjoint folds over equal-time buckets, sealed.
pub open spec fn frozen_from(d: FrozenDataset, campaign_id: Seq<char>, source: Seq<u8>, p: DatasetPolicy, s: Seq<DatasetRecord>) -> bool {
    let (te, ve) = fold_ends(s, p);
    &&& d.schema_version == DATASET_SCHEMA_VERSION
    &&& d.campaign_id@ == campaign_id
    &&& d.source_journal_digest@ == source
    &&& d.policy_digest == p.policy_digest
    &&& d.records@ == s
    &&& fold_spec(d.train, s.subrange(0, te), FoldKind::Train)
    &&& fold_spec(d.validation, s.subrange(te, ve), FoldKind::Validation)
    &&& fold_spec(d.test, s.subrange(ve, s.len() as int), FoldKind::Test)
    &&& d.train.fold.end_available_time_ns <= d.validation.fold.start_available_time_ns
    &&& d.validation.fold.end_available_time_ns <= d.test.fold.start_available_time_ns
    &&& d.plan.train == d.train.fold && d.plan.validation == d.validation.fold && d.plan.test == d.test.fold
    &&& d.plan.plan_digest@ == plan_digest_spec(d.plan)
    &&& d.dataset_digest@ == dataset_digest_spec(d)
}

/// Freezes admitted records into chronological folds: records ordered by
/// availability then sequence, grouped into equal-time buckets, and the
/// buckets split into train, validation and test by the policy's shares.
#[verifier::rlimit(40)]
pub fn build_dataset(campaign_id: String, source_journal_digest: [u8; 32], p: &DatasetPolicy, records: Vec<DatasetRecord>) -> (r: Result<FrozenDataset, DatasetError>)
    requires
        policy_valid(*p),
    ensures
        match r {
            Ok(d) => !chronology_fails(chronological(records@), *p) && d.campaign_id == campaign_id
                && frozen_from(d, campaign_id@, source_journal_digest@, *p, chronological(records@)),
            Err(e) => e == DatasetError::Chronology && chronology_fails(chronological(records@), *p),
        },
{
    let ghost given = records@;
    let records = sort_chronologically(records);
    proof { lemma_chronological_sorted(given); }
    let starts = bucket_starts_of(&records);
    proof { lemma_bucket_starts(records@, records@.len() as int); }
    let count = starts.len();
    if count < 3 {
        return Err(DatasetError::Chronology);
    }
    assert(count as u128 * p.train_bps as u128 <= 0xffff_ffff_ffff_ffff * 0xffff) by (nonlinear_arith)
        requires
            count <= 0xffff_ffff_ffff_ffff,
            p.train_bps <= 0xffff,
    ;
    let train_raw = count as u128 * p.train_bps as u128 / 10000;
    let train_b: usize = if train_raw < 1 { 1 } else if train_raw > (count - 2) as u128 { count - 2 } else { train_raw as usize };
    let remaining = count - train_b;
    assert(p.validation_bps as u128 * remaining as u128 <= 0xffff * 0xffff_ffff_ffff_ffff) by (nonlinear_arith)
        requires
            remaining <= 0xffff_ffff_ffff_ffff,
            p.validation_bps <= 0xffff,
    ;
    let share = p.validation_bps as u128 * remaining as u128 / (10000 - p.train_bps as u128);
    let val_b: usize = if share < 1 { 1 } else if share > (remaining - 1) as u128 { remaining - 1 } else { share as usize };
    assert((train_b as int, val_b as int) == split_spec(count as int, *p));
    let train_end = starts[train_b];
    let validation_end = starts[train_b + val_b];
    let train = match fold_manifest(&records.as_slice()[0..train_end], FoldKind::Train) {
        Ok(m) => m,
        Err(e) => {
            return Err(e);
        },
    };
    let validation = match fold_manifest(&records.as_slice()[train_end..validation_end], FoldKind::Validation) {
        Ok(m) => m,
        Err(e) => {
            return Err(e);
        },
    };
    let test = match fold_manifest(&records.as_slice()[validation_end..records.len()], FoldKind::Test) {
        Ok(m) => m,
        Err(e) => {
            return Err(e);
        },
    };
    let minimum = p.minimum_records_per_fold as u64;
    if train.records < minimum || validation.records < minimum || test.records < minimum {
        return Err(DatasetError::Chronology);
    }
    let mut dataset = FrozenDataset {
        schema_version: DATASET_SCHEMA_VERSION,
        campaign_id,
        source_journal_digest,
        policy_digest: p.policy_digest,
        records,
        train,
        validation,
        test,
        plan: WalkForwardPlan::new(train.fold, validation.fold, test.fold),
        dataset_digest: [0u8; 32],
    };
    proof {
        let sv = dataset.records@;
        lemma_boundary_gap(sv, train_end as int);
        lemma_boundary_gap(sv, validation_end as int);
    }
    let ghost before = dataset;
    dataset.dataset_digest = dataset_digest(&dataset);
    assert(frozen_dataset_body(&dataset) == frozen_dataset_body(&before));
    Ok(dataset)
}

/// The fields of one journal record, as the JSON layer decoded them.
#[derive(Clone, Debug, PartialEq, Eq)]
pub struct RawRecord {
    pub schema_version: u16,
    pub campaign_id: String,
    pub stream: String,
    pub sequence: u64,
    pub event_time_ms: i64,
    pub recorded_time_ms: i64,
    pub kind: String,
}

/// One decoded journal line: the canonical JSON of its record value and of
/// that record's payload, the claimed record digest, and the record fields
/// where the value has the journal record shape.
#[derive(Clone, Debug)]
pub struct ParsedLine {
    pub record_json: Vec<u8>,
    pub record_digest_hex: String,
    pub raw: Option<RawRecord>,
    pub payload_json: Vec<u8>,
}

/// One non-empty line of a journal, decoded where it is a journal line.
#[derive(Clone, Debug)]
pub struct JournalLine {
    pub line: Vec<u8>,
    pub parsed: Option<ParsedLine>,
}

/// What intake has admitted so far, as values.
pub struct IntakeView {
    pub campaign: Option<Seq<char>>,
    pub records: Seq<DatasetRecord>,
    pub source: Seq<u8>,
    pub expected: int,
}

/// A text of 1 to `MAX_STREAM_BYTES` UTF-8 bytes.
pub open spec fn short_text(s: String) -> bool {
    s@.len() > 0 && (utf8_bytes(&s).len() as usize) <= MAX_STREAM_BYTES
}

fn short(s: &String) -> (r: bool)
    ensures
        r == short_text(*s),
{
    let st = s.as_str();
    !st.is_empty() && st.len() <= MAX_STREAM_BYTES
}

/// The journal checks of a raw record at the expected sequence.
pub open spec fn raw_ok(raw: RawRecord, expected: int) -> bool {
    &&& raw.schema_version == 1
    &&& raw.sequence == expected
    &&& raw.campaign_id@.len() > 0
    &&& short_text(raw.stream)
    &&& short_text(raw.kind)
    &&& raw.event_time_ms >= 0
    &&& raw.recorded_time_ms >= raw.event_time_ms
}

/// `r` is the dataset record admitted from `raw`.
pub open spec fn admitted(r: DatasetRecord, raw: RawRecord, p: ParsedLine) -> bool {
    &&& r.sequence == raw.sequence
    &&& r.stream@ == raw.stream@
    &&& r.kind@ == raw.kind@
    &&& r.event_time_ns == raw.event_time_ms * 1000000
    &&& r.received_time_ns == raw.recorded_time_ms * 1000000
    &&& r.strategy_available_time_ns == r.received_time_ns
    &&& r.payload_digest@ == blake3_hash(p.payload_json@)
    &&& r.record_digest@ == blake3_hash(p.record_json@)
}

/// The error that stops the freeze at this line, if any.
pub open spec fn step_error(v: IntakeView, l: JournalLine, p: DatasetPolicy) -> Option<DatasetError> {
    if v.records.len() >= p.maximum_records || v.records.len() >= MAX_RECORDS {
        Some(DatasetError::Bounds)
    } else if l.parsed is None {
        Some(DatasetError::Encoding)
    } else {
        let pl = l.parsed->0;
        let bytes = vstd::utf8::encode_utf8(pl.record_digest_hex@);
        let digest = blake3_hash(pl.record_json@);
        if !(bytes.len() == 64 && all_hex(bytes)) || hex_bytes(bytes) != digest
            || exists|i: int| 0 <= i < v.records.len() && (#[trigger] v.records[i]).record_digest@ == digest {
            Some(DatasetError::Digest)
        } else if pl.raw is None {
            Some(DatasetError::Encoding)
        } else {
            let raw = pl.raw->0;
            if !raw_ok(raw, v.expected) || (v.campaign matches Some(c) && c != raw.campaign_id@)
                || raw.event_time_ms * 1000000 > i64::MAX || raw.recorded_time_ms * 1000000 > i64::MAX
                || v.expected + 1 > u64::MAX {
                Some(DatasetError::Journal)
            } else {
                None
            }
        }
    }
}

/// The state after admitting an acceptable line.
pub open spec fn step_next(v: IntakeView, l: JournalLine, new: IntakeView) -> bool {
    let pl = l.parsed->0;
    let raw = pl.raw->0;
    &&& new.campaign == Some(raw.campaign_id@)
    &&& new.records.len() == v.records.len() + 1
    &&& new.records.drop_last() == v.records
    &&& admitted(new.records.last(), raw, pl)
    &&& new.source == v.source + l.line@
    &&& new.expected == v.expected + 1
}

/// One intake step: the next state, or the error that stops the freeze.
pub open spec fn intake_step(v: IntakeView, l: JournalLine, p: DatasetPolicy, new: IntakeView, r: Result<(), DatasetError>) -> bool {
    match step_error(v, l, p) {
        Some(e) => r == Err::<(), DatasetError>(e),
        None => r is Ok && step_next(v, l, new),
    }
}

/// The states of intake over the first lines, from the empty state, each
/// admitting its line.
pub open spec fn run_valid(lines: Seq<JournalLine>, p: DatasetPolicy, trace: Seq<IntakeView>) -> bool {
    &&& 1 <= trace.len() <= lines.len() + 1
    &&& trace[0].campaign is None && trace[0].records.len() == 0 && trace[0].source.len() == 0 && trace[0].expected == 1
    &&& forall|k: int| 0 <= k < trace.len() - 1 ==> step_error(#[trigger] trace[k], lines[k], p) is None && step_next(trace[k], lines[k], trace[k + 1])
}

/// Intake of the first `n` lines from the empty state reaches `v`.
pub open spec fn intake_ok(lines: Seq<JournalLine>, p: DatasetPolicy, n: int, v: IntakeView) -> bool {
    exists|trace: Seq<IntakeView>| #[trigger] run_valid(lines, p, trace) && trace.len() == n + 1 && trace.last() == v
}

/// Intake of the first `n` lines fails at line `n - 1` with `e`.
pub open spec fn intake_fails(lines: Seq<JournalLine>, p: DatasetPolicy, n: int, e: DatasetError) -> bool {
    exists|trace: Seq<IntakeView>| #[trigger] run_valid(lines, p, trace) && trace.len() == n && n > 0 && step_error(trace.last(), lines[n - 1], p) == Some(e)
}

/// What intake has admitted so far.
pub struct IntakeState {
    pub campaign: Option<String>,
    pub records: Vec<DatasetRecord>,
    pub source: Vec<u8>,
    pub expected: u64,
}

pub open spec fn intake_view(s: IntakeState) -> IntakeView {
    IntakeView {
        campaign: match s.campaign {
            Some(c) => Some(c@),
            None => None,
        },
        records: s.records@,
        source: s.source@,
        expected: s.expected as int,
    }
}

fn digest_seen(records: &Vec<DatasetRecord>, d: &[u8; 32]) -> (r: bool)
    ensures
        r == exists|i: int| 0 <= i < records@.len() && (#[trigger] records@[i]).record_digest@ == d@,
{
    let mut i: usize = 0;
    while i < records.len()
        invariant
            i <= records@.len(),
            forall|k: int| 0 <= k < i ==> (#[trigger] records@[k]).record_digest@ != d@,
        decreases records@.len() - i,
    {
        if digest_eq(&records[i].record_digest, d) {
            return true;
        }
        i = i + 1;
    }
    false
}

/// Admits one journal line, or reports why the freeze must stop.
#[verifier::rlimit(40)]
pub fn intake_line(state: &mut IntakeState, l: &JournalLine, p: &DatasetPolicy) -> (r: Result<(), DatasetError>)
    ensures
        intake_step(intake_view(*old(state)), *l, *p, intake_view(*final(state)), r),
{
    if state.records.len() >= p.maximum_records || state.records.len() >= MAX_RECORDS {
        return Err(DatasetError::Bounds);
    }
    let pl = match &l.parsed {
        Some(x) => x,
        None => {
            return Err(DatasetError::Encoding);
        },
    };
    let record_digest = blake3_digest(pl.record_json.as_slice());
    let claimed = match decode_hex_digest(pl.record_digest_hex.as_str()) {
        Ok(d) => d,
        Err(e) => {
            return Err(e);
        },
    };
    if !digest_eq(&claimed, &record_digest) || digest_seen(&state.records, &record_digest) {
        return Err(DatasetError::Digest);
    }
    let raw = match &pl.raw {
        Some(x) => x,
        None => {
            return Err(DatasetError::Encoding);
        },
    };
    if raw.schema_version != 1 || raw.sequence != state.expected || raw.campaign_id.as_str().is_empty() || !short(&raw.stream)
        || !short(&raw.kind) || raw.event_time_ms < 0 || raw.recorded_time_ms < raw.event_time_ms {
        return Err(DatasetError::Journal);
    }
    let mismatch = match &state.campaign {
        Some(c) => !c.eq(&raw.campaign_id),
        None => false,
    };
    if mismatch {
        return Err(DatasetError::Journal);
    }
    let event_time_ns = match millis_to_ns(raw.event_time_ms) {
        Ok(v) => v,
        Err(e) => {
            return Err(e);
        },
    };
    let received_time_ns = match millis_to_ns(raw.recorded_time_ms) {
        Ok(v) => v,
        Err(e) => {
            return Err(e);
        },
    };
    if state.expected == u64::MAX {
        return Err(DatasetError::Journal);
    }
    let payload_digest = blake3_digest(pl.payload_json.as_slice());
    let ghost before = intake_view(*state);
    state.records.push(DatasetRecord {
        sequence: raw.sequence,
        stream: raw.stream.clone(),
        kind: raw.kind.clone(),
        event_time_ns,
        received_time_ns,
        strategy_available_time_ns: received_time_ns,
        payload_digest,
        record_digest,
    });
    state.campaign = Some(raw.campaign_id.clone());
    push_bytes(&mut state.source, l.line.as_slice());
    state.expected = state.expected + 1;
    assert(intake_view(*state).records.drop_last() =~= before.records);
    Ok(())
}

/// `cur` followed by the lines of `s`: the segments between newline bytes,
/// in order, without the empty ones.
pub open spec fn lines_after(s: Seq<u8>, cur: Seq<u8>) -> Seq<Seq<u8>>
    decreases s.len(),
{
    if s.len() == 0 {
        if cur.len() > 0 { seq![cur] } else { Seq::empty() }
    } else if s[0] == 10u8 {
        (if cur.len() > 0 { seq![cur] } else { Seq::empty() }) + lines_after(s.drop_first(), Seq::empty())
    } else {
        lines_after(s.drop_first(), cur.push(s[0]))
    }
}

/// The non-empty lines of a journal, in order.
pub open spec fn journal_lines_spec(s: Seq<u8>) -> Seq<Seq<u8>> {
    lines_after(s, Seq::empty())
}

pub open spec fn lines_view(v: Seq<Vec<u8>>) -> Seq<Seq<u8>> {
    v.map_values(|l: Vec<u8>| l@)
}

/// Splits a journal into its non-empty lines, in order.
pub fn journal_lines(bytes: &[u8]) -> (r: Vec<Vec<u8>>)
    ensures
        lines_view(r@) == journal_lines_spec(bytes@),
{
    let mut out: Vec<Vec<u8>> = Vec::new();
    let mut cur: Vec<u8> = Vec::new();
    let mut i: usize = 0;
    assert(bytes@.subrange(0, bytes@.len() as int) =~= bytes@);
    assert(cur@ =~= Seq::<u8>::empty());
    assert(lines_view(out@) + journal_lines_spec(bytes@) =~= journal_lines_spec(bytes@));
    while i < bytes.len()
        invariant
            i <= bytes@.len(),
            lines_view(out@) + lines_after(bytes@.subrange(i as int, bytes@.len() as int), cur@)
                == journal_lines_spec(bytes@),
        decreases bytes@.len() - i,
    {
        let ghost rest = bytes@.subrange(i as int, bytes@.len() as int);
        assert(rest.drop_first() =~= bytes@.subrange(i + 1, bytes@.len() as int));
        let b = bytes[i];
        if b == 10u8 {
            if cur.len() > 0 {
                let ghost before = out@;
                let line = cur;
                out.push(line);
                cur = Vec::new();
                assert(lines_view(out@) =~= lines_view(before).push(line@));
                assert(lines_view(before) + (seq![line@] + lines_after(rest.drop_first(), Seq::empty()))
                    =~= lines_view(out@) + lines_after(rest.drop_first(), cur@));
            } else {
                assert(cur@ =~= Seq::<u8>::empty());
                assert(Seq::<Seq<u8>>::empty() + lines_after(rest.drop_first(), Seq::empty())
                    =~= lines_after(rest.drop_first(), Seq::empty()));
            }
        } else {
            cur.push(b);
        }
        i = i + 1;
    }
    let ghost tail = bytes@.subrange(i as int, bytes@.len() as int);
    assert(tail.len() == 0);
    if cur.len() > 0 {
        let ghost before = out@;
        let ghost last = cur@;
        out.push(cur);
        assert(lines_view(out@) =~= lines_view(before).push(last));
        assert(lines_view(before) + lines_after(tail, last) =~= lines_view(out@));
    } else {
        assert(lines_view(out@) + lines_after(tail, cur@) =~= lines_view(out@));
    }
    out
}

/// Freezes one complete journal, given as its decoded non-empty lines and its
/// total byte length, into immutable chronological folds. Nothing is skipped:
/// the first bad line stops the freeze with its error.
#[verifier::rlimit(40)]
pub fn freeze_journal(lines: &Vec<JournalLine>, journal_bytes: usize, p: &DatasetPolicy) -> (r: Result<FrozenDataset, DatasetError>)
    ensures
        match r {
            Ok(d) => {
                &&& policy_valid(*p)
                &&& journal_bytes <= p.maximum_journal_bytes && journal_bytes <= MAX_JOURNAL_BYTES
                &&& exists|v: IntakeView| #[trigger] intake_ok(lines@, *p, lines@.len() as int, v) && v.campaign is Some
                    && !chronology_fails(chronological(v.records), *p)
                    && frozen_from(d, v.campaign->0, blake3_hash(v.source), *p, chronological(v.records))
            },
            Err(e) => {
                ||| !policy_valid(*p) && e == DatasetError::Policy
                ||| policy_valid(*p) && (journal_bytes > p.maximum_journal_bytes || journal_bytes > MAX_JOURNAL_BYTES) && e == DatasetError::Bounds
                ||| policy_valid(*p) && journal_bytes <= p.maximum_journal_bytes && journal_bytes <= MAX_JOURNAL_BYTES && {
                    ||| exists|n: int| 0 < n <= lines@.len() && #[trigger] intake_fails(lines@, *p, n, e)
                    ||| exists|v: IntakeView| #[trigger] intake_ok(lines@, *p, lines@.len() as int, v) && (
                        (v.campaign is None && e == DatasetError::Journal)
                        || (v.campaign is Some && chronology_fails(chronological(v.records), *p) && e == DatasetError::Chronology))
                }
            },
        },
{
    match validate_policy(p) {
        Ok(_) => {},
        Err(e) => {
            return Err(e);
        },
    }
    if journal_bytes > p.maximum_journal_bytes || journal_bytes > MAX_JOURNAL_BYTES {
        return Err(DatasetError::Bounds);
    }
    let mut state = IntakeState { campaign: None, records: Vec::new(), source: Vec::new(), expected: 1 };
    let ghost mut trace: Seq<IntakeView> = seq![intake_view(state)];
    let mut i: usize = 0;
    while i < lines.len()
        invariant
            i <= lines@.len(),
            policy_valid(*p),
            journal_bytes <= p.maximum_journal_bytes && journal_bytes <= MAX_JOURNAL_BYTES,
            run_valid(lines@, *p, trace),
            trace.len() == i + 1,
            trace.last() == intake_view(state),
        decreases lines@.len() - i,
    {
        let ghost before = intake_view(state);
        let res = intake_line(&mut state, &lines[i], p);
        if let Err(e) = res {
            assert(step_error(trace.last(), lines@[(i + 1) - 1], *p) == Some(e));
            assert(intake_fails(lines@, *p, i + 1, e));
            return Err(e);
        }
        proof {
            let next = trace.push(intake_view(state));
            assert forall|k: int| 0 <= k < next.len() - 1 implies step_error(#[trigger] next[k], lines@[k], *p) is None
                && step_next(next[k], lines@[k], next[k + 1]) by {
                if k < trace.len() - 1 {
                    assert(next[k] == trace[k] && next[k + 1] == trace[k + 1]);
                } else {
                    assert(next[k] == before && next[k + 1] == intake_view(state));
                }
            }
            trace = next;
        }
        i = i + 1;
    }
    assert(intake_ok(lines@, *p, lines@.len() as int, intake_view(state)));
    let ghost v = intake_view(state);
    let campaign = match state.campaign {
        Some(c) => c,
        None => {
            return Err(DatasetError::Journal);
        },
    };
    let source_digest = blake3_digest(state.source.as_slice());
    build_dataset(campaign, source_digest, p, state.records)
}

/// What dataset binding reads of a trained model artifact; `digest_valid`
/// says that the artifact's own digest checked out where it was read.
#[derive(Clone, Copy, Debug)]
pub struct ModelArtifactView {
    pub model_id: [u8; 32],
    pub training_fold_digest: [u8; 32],
    pub validation_fold_digest: [u8; 32],
    pub frozen_at_ns: i64,
    pub artifact_digest: [u8; 32],
    pub digest_valid: bool,
}

/// A model artifact bound to the frozen dataset it was trained and validated
/// on, offered for paper evaluation only and with no authority of any kind.
#[derive(Clone, Copy, Debug, PartialEq, Eq)]
pub struct ArtifactSubmission {
    pub model_id: [u8; 32],
    pub dataset_digest: [u8; 32],
    pub train_fold_digest: [u8; 32],
    pub validation_fold_digest: [u8; 32],
    pub test_fold_digest: [u8; 32],
    pub artifact_digest: [u8; 32],
    pub paper_only: bool,
    pub capital_authority: bool,
    pub risk_authority: bool,
    pub placement_authority: bool,
    pub signing_authority: bool,
    pub submission_authority: bool,
    pub submission_digest: [u8; 32],
}

pub open spec fn artifact_submission_body_0(v: &ArtifactSubmission) -> Seq<u8> {
    v.model_id.canon() + v.dataset_digest.canon() + v.train_fold_digest.canon() + v.validation_fold_digest.canon()
}

fn artifact_submission_encode_body_0(v: &ArtifactSubmission, out: &mut Vec<u8>)
    ensures
        final(out)@ == old(out)@ + artifact_submission_body_0(v),
{
    let ghost start = out@;
    v.model_id.encode_into(out);
    v.dataset_digest.encode_into(out);
    v.train_fold_digest.encode_into(out);
    v.validation_fold_digest.encode_into(out);
    assert(out@ =~= start + artifact_submission_body_0(v));
}

pub open spec fn artifact_submission_body_1(v: &ArtifactSubmission) -> Seq<u8> {
    v.test_fold_digest.canon() + v.artifact_digest.canon() + v.paper_only.canon() + v.capital_authority.canon()
}

fn artifact_submission_encode_body_1(v: &ArtifactSubmission, out: &mut Vec<u8>)
    ensures
        final(out)@ == old(out)@ + artifact_submission_body_1(v),
{
    let ghost start = out@;
    v.test_fold_digest.encode_into(out);
    v.artifact_digest.encode_into(out);
    v.paper_only.encode_into(out);
    v.capital_authority.encode_into(out);
    assert(out@ =~= start + artifact_submission_body_1(v));
}

pub open spec fn artifact_submission_body_2(v: &ArtifactSubmission) -> Seq<u8> {
    v.risk_authority.canon() + v.placement_authority.canon() + v.signing_authority.canon() + v.submission_authority.canon()
}

fn artifact_submission_encode_body_2(v: &ArtifactSubmission, out: &mut Vec<u8>)
    ensures
        final(out)@ == old(out)@ + artifact_submission_body_2(v),
{
    let ghost start = out@;
    v.risk_authority.encode_into(out);
    v.placement_authority.encode_into(out);
    v.signing_authority.encode_into(out);
    v.submission_authority.encode_into(out);
    assert(out@ =~= start + artifact_submission_body_2(v));
}

/// The encoding of every field but the digest.
pub open spec fn artifact_submission_body(v: &ArtifactSubmission) -> Seq<u8> {
    artifact_submission_body_0(v) + artifact_submission_body_1(v) + artifact_submission_body_2(v)
}

pub fn artifact_submission_encode_body(v: &ArtifactSubmission, out: &mut Vec<u8>)
    ensures
        final(out)@ == old(out)@ + artifact_submission_body(v),
{
    let ghost start = out@;
    artifact_submission_encode_body_0(v, out);
    artifact_submission_encode_body_1(v, out);
    artifact_submission_encode_body_2(v, out);
    assert(out@ =~= start + artifact_submission_body(v));
}

impl Canonical for ArtifactSubmission {
    open spec fn canon(&self) -> Seq<u8> {
        artifact_submission_body(self) + self.submission_digest.canon()
    }

    fn encode_into(&self, out: &mut Vec<u8>) {
        let ghost start = out@;
        artifact_submission_encode_body(self, out);
        self.submission_digest.encode_into(out);
        assert(out@ =~= start + self.canon());
    }
}

/// Domain of the digest of an artifact submission.
pub open spec fn submission_digest_domain() -> Seq<u8> {
    "paper-artifact-submission-v1".spec_bytes()
}

/// The digest of an artifact submission: every field, with the digest itself zeroed.
pub open spec fn submission_digest_spec(v: ArtifactSubmission) -> Seq<u8> {
    domain_digest(submission_digest_domain(), artifact_submission_body(&v) + zero32())
}

pub fn submission_digest(v: &ArtifactSubmission) -> (r: [u8; 32])
    ensures
        r@ == submission_digest_spec(*v),
{
    let mut body: Vec<u8> = Vec::new();
    artifact_submission_encode_body(v, &mut body);
    let zero = [0u8; 32];
    push_bytes(&mut body, zero.as_slice());
    assert(zero@ =~= zero32());
    digest_domain("paper-artifact-submission-v1".as_bytes(), body.as_slice())
}

impl ArtifactSubmission {
    /// This value with its digest field set to its own digest.
    pub fn sealed(self) -> (r: Self)
        ensures
            r == (ArtifactSubmission { submission_digest: r.submission_digest, ..self }),
            r.submission_digest@ == submission_digest_spec(self),
            r.submission_digest@ == submission_digest_spec(r),
    {
        let mut v = self;
        let d = submission_digest(&v);
        v.submission_digest = d;
        assert(artifact_submission_body(&v) == artifact_submission_body(&self));
        v
    }

    /// Whether the digest field matches the content.
    pub fn verify_digest(&self) -> (r: bool)
        ensures
            r == (self.submission_digest@ == submission_digest_spec(*self)),
    {
        let d = submission_digest(self);
        digest_eq(&self.submission_digest, &d)
    }
}


/// The dataset and its walk-forward plan match their digests, and the artifact
/// was trained on exactly the dataset's train fold, validated on exactly its
/// validation fold, and frozen before its test fold opens.
pub open spec fn artifact_bound(d: FrozenDataset, a: ModelArtifactView) -> bool {
    &&& d.dataset_digest@ == dataset_digest_spec(d)
    &&& d.plan.plan_digest@ == plan_digest_spec(d.plan)
    &&& a.digest_valid
    &&& a.training_fold_digest@ == d.train.fold.data_digest@
    &&& a.validation_fold_digest@ == d.validation.fold.data_digest@
    &&& a.frozen_at_ns <= d.test.fold.start_available_time_ns
}

/// Binds a model artifact to the dataset it came from, or refuses it.
pub fn bind_artifact(d: &FrozenDataset, a: &ModelArtifactView) -> (r: Result<ArtifactSubmission, DatasetError>)
    ensures
        match r {
            Ok(s) => {
                &&& artifact_bound(*d, *a)
                &&& s.model_id == a.model_id && s.dataset_digest == d.dataset_digest
                &&& s.train_fold_digest == d.train.fold.data_digest
                &&& s.validation_fold_digest == d.validation.fold.data_digest
                &&& s.test_fold_digest == d.test.fold.data_digest
                &&& s.artifact_digest == a.artifact_digest
                &&& s.paper_only && !s.capital_authority && !s.risk_authority && !s.placement_authority
                &&& !s.signing_authority && !s.submission_authority
                &&& s.submission_digest@ == submission_digest_spec(s)
            },
            Err(e) => !artifact_bound(*d, *a) && e == DatasetError::Provenance,
        },
{
    if !d.verify_digest() || !d.plan.verify_digest() || !a.digest_valid || !digest_eq(&a.training_fold_digest, &d.train.fold.data_digest)
        || !digest_eq(&a.validation_fold_digest, &d.validation.fold.data_digest)
        || a.frozen_at_ns > d.test.fold.start_available_time_ns {
        return Err(DatasetError::Provenance);
    }
    Ok(ArtifactSubmission {
        model_id: a.model_id,
        dataset_digest: d.dataset_digest,
        train_fold_digest: d.train.fold.data_digest,
        validation_fold_digest: d.validation.fold.data_digest,
        test_fold_digest: d.test.fold.data_digest,
        artifact_digest: a.artifact_digest,
        paper_only: true,
        capital_authority: false,
        risk_authority: false,
        placement_authority: false,
        signing_authority: false,
        submission_authority: false,
        submission_digest: [0u8; 32],
    }.sealed())
}
} // verus!
