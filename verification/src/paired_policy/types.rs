//! Permissions for the two legs of a staged pair: the first leg may be
//! authorized while its pair is fully reserved and the exchange is in normal
//! mode, the hedge only once the first has fully matched, and each leg's
//! reported lifecycle only ever moves forward.

use vstd::prelude::*;
use vstd::string::StringSliceAdditionalSpecFns;
use crate::digest::{blake3_digest, blake3_hash, digest_domain, digest_eq, domain_digest, le_bytes, push_bytes, zero32, Canonical};
use crate::risk::types::{OrderExposure, OrderSide, RiskOrderId, TokenKey};

verus! {

/// Longest window, from staging, in which a permission may be issued and used.
pub const MAX_PERMISSION_NS: i64 = 1000000000;

#[derive(Clone, Copy, Debug, PartialEq, Eq)]
pub struct PairedPolicyCommandId(pub [u8; 32]);

#[derive(Clone, Copy, Debug, PartialEq, Eq)]
pub struct PairPermitId(pub [u8; 32]);

/// Identity of one staged pair.
#[derive(Clone, Copy, Debug, PartialEq, Eq)]
pub struct PairStageId(pub [u8; 32]);

#[derive(Clone, Copy, Debug, PartialEq, Eq, Structural)]
pub enum LegRole {
    First,
    Hedge,
}

#[derive(Clone, Copy, Debug, PartialEq, Eq, Structural)]
pub enum LegState {
    NotAuthorized,
    Authorized,
    Expired,
    Submitted,
    Delayed,
    Live,
    PartiallyMatched,
    Unknown,
    FullyMatched,
    PartiallyMatchedTerminal,
    NoFillTerminal,
}

impl LegState {
    /// The leg may have traded.
    pub open spec fn fill_possible(self) -> bool {
        self is Submitted || self is Delayed || self is Live || self is PartiallyMatched || self is Unknown
            || self is FullyMatched || self is PartiallyMatchedTerminal
    }

    pub fn possible_fill(self) -> (r: bool)
        ensures
            r == self.fill_possible(),
    {
        match self {
            LegState::Submitted | LegState::Delayed | LegState::Live | LegState::PartiallyMatched
            | LegState::Unknown | LegState::FullyMatched | LegState::PartiallyMatchedTerminal => true,
            _ => false,
        }
    }

    /// The leg ended without any possible fill.
    pub open spec fn ended_unfilled(self) -> bool {
        self is NotAuthorized || self is Expired || self is NoFillTerminal
    }

    pub fn safe_terminal(self) -> (r: bool)
        ensures
            r == self.ended_unfilled(),
    {
        match self {
            LegState::NotAuthorized | LegState::Expired | LegState::NoFillTerminal => true,
            _ => false,
        }
    }
}

#[derive(Clone, Copy, Debug, PartialEq, Eq, Structural)]
pub enum ExchangeMode {
    Normal,
    CancelOnly,
    Unknown,
}

/// One observation of the exchange's trading mode.
#[derive(Clone, Copy, Debug, PartialEq, Eq, Structural)]
pub struct ModeObservation {
    pub sequence: u64,
    pub mode: ExchangeMode,
    pub observed_at_ns: i64,
    pub valid_until_ns: i64,
}

/// What the policy reads of one staged pair; `boundary_ok` says that the
/// staged record's own digest, candidate digests and reservations checked out
/// where the record was read.
#[derive(Clone, Debug)]
pub struct StageView {
    pub stage_id: PairStageId,
    pub record_digest: [u8; 32],
    pub fully_reserved: bool,
    pub boundary_ok: bool,
    pub staged_at_ns: i64,
    pub candidate_expires_at_ns: [i64; 2],
    pub candidates: [OrderExposure; 2],
    pub candidate_digests: [[u8; 32]; 2],
    pub reservation_ids: [[u8; 32]; 2],
}

/// Permission to place one leg of a staged pair.
#[derive(Clone, Debug, PartialEq, Eq)]
pub struct PairPermit {
    pub permit_id: PairPermitId,
    pub stage_id: PairStageId,
    pub stage_record_digest: [u8; 32],
    pub leg_index: u8,
    pub role: LegRole,
    pub order: OrderExposure,
    pub candidate_digest: [u8; 32],
    pub reservation_id: [u8; 32],
    pub mode_sequence: u64,
    pub valid_from_ns: i64,
    pub valid_until_ns: i64,
    pub permit_digest: [u8; 32],
}

/// What the policy knows of one staged pair.
#[derive(Clone, Debug, PartialEq, Eq)]
pub struct PairPolicyRecord {
    pub stage_id: PairStageId,
    pub stage_record_digest: [u8; 32],
    pub first_leg: Option<u8>,
    pub legs: [LegState; 2],
    pub permits: [Option<PairPermit>; 2],
    pub source_sequences: [Option<u64>; 2],
    pub source_observed_at_ns: [Option<i64>; 2],
    pub ever_partially_matched: [bool; 2],
    pub aborted: bool,
    pub record_digest: [u8; 32],
}

#[derive(Clone, Copy, Debug, PartialEq, Eq, Structural)]
pub enum PairedPolicyStatus {
    Accepted,
    Denied,
}

#[derive(Clone, Copy, Debug, PartialEq, Eq, Structural)]
pub enum PairedPolicyReason {
    Funded,
    Staged,
    PairNoTrade,
    ModeAccepted,
    PermissionIssued,
    StageUnknown,
    StageInactive,
    ModeUnavailable,
    ModeStale,
    StageStale,
    InvalidValidity,
    InvalidLeg,
    FirstAlreadySelected,
    HedgeNotReady,
    LegAlreadyAuthorized,
    LifecycleAccepted,
    LifecycleDenied,
    PermissionExpired,
    NothingExpired,
    UnsafeAbort,
    Aborted,
}

#[derive(Clone, Debug, PartialEq, Eq)]
pub enum Error {
    Timestamp,
    CommandBound,
    Json(String),
    Version(u16),
    IdempotencyConflict,
    ClockRegression,
    ModeHistory,
    Boundary,
    Overflow,
    Staging(String),
    Halted(String),
}

impl Canonical for ExchangeMode {
    open spec fn canon(&self) -> Seq<u8> {
        match self {
            ExchangeMode::Normal => seq![0u8],
            ExchangeMode::CancelOnly => seq![1u8],
            ExchangeMode::Unknown => seq![2u8],
        }
    }

    fn encode_into(&self, out: &mut Vec<u8>) {
        let ghost start = out@;
        match self {
            ExchangeMode::Normal => {
                out.push(0u8);
            },
            ExchangeMode::CancelOnly => {
                out.push(1u8);
            },
            ExchangeMode::Unknown => {
                out.push(2u8);
            },
        }
        assert(out@ =~= start + self.canon());
    }
}

impl Canonical for ModeObservation {
    open spec fn canon(&self) -> Seq<u8> {
        self.sequence.canon() + self.mode.canon() + self.observed_at_ns.canon() + self.valid_until_ns.canon()
    }

    fn encode_into(&self, out: &mut Vec<u8>) {
        let ghost start = out@;
        self.sequence.encode_into(out);
        self.mode.encode_into(out);
        self.observed_at_ns.encode_into(out);
        self.valid_until_ns.encode_into(out);
        assert(out@ =~= start + self.canon());
    }
}

impl Canonical for PairStageId {
    open spec fn canon(&self) -> Seq<u8> {
        self.0.canon()
    }

    fn encode_into(&self, out: &mut Vec<u8>) {
        let ghost start = out@;
        self.0.encode_into(out);
        assert(out@ =~= start + self.canon());
    }
}

impl Canonical for PairPermitId {
    open spec fn canon(&self) -> Seq<u8> {
        self.0.canon()
    }

    fn encode_into(&self, out: &mut Vec<u8>) {
        let ghost start = out@;
        self.0.encode_into(out);
        assert(out@ =~= start + self.canon());
    }
}

impl Canonical for LegRole {
    open spec fn canon(&self) -> Seq<u8> {
        match self {
            LegRole::First => seq![0u8],
            LegRole::Hedge => seq![1u8],
        }
    }

    fn encode_into(&self, out: &mut Vec<u8>) {
        let ghost start = out@;
        match self {
            LegRole::First => {
                out.push(0u8);
            },
            LegRole::Hedge => {
                out.push(1u8);
            },
        }
        assert(out@ =~= start + self.canon());
    }
}

impl Canonical for LegState {
    open spec fn canon(&self) -> Seq<u8> {
        match self {
            LegState::NotAuthorized => seq![0u8],
            LegState::Authorized => seq![1u8],
            LegState::Expired => seq![2u8],
            LegState::Submitted => seq![3u8],
            LegState::Delayed => seq![4u8],
            LegState::Live => seq![5u8],
            LegState::PartiallyMatched => seq![6u8],
            LegState::Unknown => seq![7u8],
            LegState::FullyMatched => seq![8u8],
            LegState::PartiallyMatchedTerminal => seq![9u8],
            LegState::NoFillTerminal => seq![10u8],
        }
    }

    fn encode_into(&self, out: &mut Vec<u8>) {
        let ghost start = out@;
        match self {
            LegState::NotAuthorized => {
                out.push(0u8);
            },
            LegState::Authorized => {
                out.push(1u8);
            },
            LegState::Expired => {
                out.push(2u8);
            },
            LegState::Submitted => {
                out.push(3u8);
            },
            LegState::Delayed => {
                out.push(4u8);
            },
            LegState::Live => {
                out.push(5u8);
            },
            LegState::PartiallyMatched => {
                out.push(6u8);
            },
            LegState::Unknown => {
                out.push(7u8);
            },
            LegState::FullyMatched => {
                out.push(8u8);
            },
            LegState::PartiallyMatchedTerminal => {
                out.push(9u8);
            },
            LegState::NoFillTerminal => {
                out.push(10u8);
            },
        }
        assert(out@ =~= start + self.canon());
    }
}

pub open spec fn pair_permit_body_0(v: &PairPermit) -> Seq<u8> {
    v.permit_id.canon() + v.stage_id.canon() + v.stage_record_digest.canon() + v.leg_index.canon() + v.role.canon() + v.order.canon() + v.candidate_digest.canon()
}

fn pair_permit_encode_body_0(v: &PairPermit, out: &mut Vec<u8>)
    ensures
        final(out)@ == old(out)@ + pair_permit_body_0(v),
{
    let ghost start = out@;
    v.permit_id.encode_into(out);
    v.stage_id.encode_into(out);
    v.stage_record_digest.encode_into(out);
    v.leg_index.encode_into(out);
    v.role.encode_into(out);
    v.order.encode_into(out);
    v.candidate_digest.encode_into(out);
    assert(out@ =~= start + pair_permit_body_0(v));
}

pub open spec fn pair_permit_body_1(v: &PairPermit) -> Seq<u8> {
    v.reservation_id.canon() + v.mode_sequence.canon() + v.valid_from_ns.canon() + v.valid_until_ns.canon()
}

fn pair_permit_encode_body_1(v: &PairPermit, out: &mut Vec<u8>)
    ensures
        final(out)@ == old(out)@ + pair_permit_body_1(v),
{
    let ghost start = out@;
    v.reservation_id.encode_into(out);
    v.mode_sequence.encode_into(out);
    v.valid_from_ns.encode_into(out);
    v.valid_until_ns.encode_into(out);
    assert(out@ =~= start + pair_permit_body_1(v));
}

/// The encoding of every field but the digest.
pub open spec fn pair_permit_body(v: &PairPermit) -> Seq<u8> {
    pair_permit_body_0(v) + pair_permit_body_1(v)
}

pub fn pair_permit_encode_body(v: &PairPermit, out: &mut Vec<u8>)
    ensures
        final(out)@ == old(out)@ + pair_permit_body(v),
{
    let ghost start = out@;
    pair_permit_encode_body_0(v, out);
    pair_permit_encode_body_1(v, out);
    assert(out@ =~= start + pair_permit_body(v));
}

impl Canonical for PairPermit {
    open spec fn canon(&self) -> Seq<u8> {
        pair_permit_body(self) + self.permit_digest.canon()
    }

    fn encode_into(&self, out: &mut Vec<u8>) {
        let ghost start = out@;
        pair_permit_encode_body(self, out);
        self.permit_digest.encode_into(out);
        assert(out@ =~= start + self.canon());
    }
}

/// Domain of the digest of a pair permit.
pub open spec fn permit_digest_domain() -> Seq<u8> {
    "paired-paper-permit-v1".spec_bytes()
}

/// The digest of a pair permit: every field, with the digest itself zeroed.
pub open spec fn permit_digest_spec(v: PairPermit) -> Seq<u8> {
    domain_digest(permit_digest_domain(), pair_permit_body(&v) + zero32())
}

pub fn permit_digest(v: &PairPermit) -> (r: [u8; 32])
    ensures
        r@ == permit_digest_spec(*v),
{
    let mut body: Vec<u8> = Vec::new();
    pair_permit_encode_body(v, &mut body);
    let zero = [0u8; 32];
    push_bytes(&mut body, zero.as_slice());
    assert(zero@ =~= zero32());
    digest_domain("paired-paper-permit-v1".as_bytes(), body.as_slice())
}

impl PairPermit {
    /// This value with its digest field set to its own digest.
    pub fn sealed(self) -> (r: Self)
        ensures
            r == (PairPermit { permit_digest: r.permit_digest, ..self }),
            r.permit_digest@ == permit_digest_spec(self),
            r.permit_digest@ == permit_digest_spec(r),
    {
        let mut v = self;
        let d = permit_digest(&v);
        v.permit_digest = d;
        assert(pair_permit_body(&v) == pair_permit_body(&self));
        v
    }

    /// Whether the digest field matches the content.
    pub fn verify_digest(&self) -> (r: bool)
        ensures
            r == (self.permit_digest@ == permit_digest_spec(*self)),
    {
        let d = permit_digest(self);
        digest_eq(&self.permit_digest, &d)
    }
}

pub open spec fn pair_policy_record_body_0(v: &PairPolicyRecord) -> Seq<u8> {
    v.stage_id.canon() + v.stage_record_digest.canon() + v.first_leg.canon()
}

fn pair_policy_record_encode_body_0(v: &PairPolicyRecord, out: &mut Vec<u8>)
    ensures
        final(out)@ == old(out)@ + pair_policy_record_body_0(v),
{
    let ghost start = out@;
    v.stage_id.encode_into(out);
    v.stage_record_digest.encode_into(out);
    v.first_leg.encode_into(out);
    assert(out@ =~= start + pair_policy_record_body_0(v));
}

pub open spec fn pair_policy_record_body_1(v: &PairPolicyRecord) -> Seq<u8> {
    v.legs[0].canon() + v.legs[1].canon() + v.permits[0].canon()
}

fn pair_policy_record_encode_body_1(v: &PairPolicyRecord, out: &mut Vec<u8>)
    ensures
        final(out)@ == old(out)@ + pair_policy_record_body_1(v),
{
    let ghost start = out@;
    v.legs[0].encode_into(out);
    v.legs[1].encode_into(out);
    v.permits[0].encode_into(out);
    assert(out@ =~= start + pair_policy_record_body_1(v));
}

pub open spec fn pair_policy_record_body_2(v: &PairPolicyRecord) -> Seq<u8> {
    v.permits[1].canon() + v.source_sequences[0].canon() + v.source_sequences[1].canon()
}

fn pair_policy_record_encode_body_2(v: &PairPolicyRecord, out: &mut Vec<u8>)
    ensures
        final(out)@ == old(out)@ + pair_policy_record_body_2(v),
{
    let ghost start = out@;
    v.permits[1].encode_into(out);
    v.source_sequences[0].encode_into(out);
    v.source_sequences[1].encode_into(out);
    assert(out@ =~= start + pair_policy_record_body_2(v));
}

pub open spec fn pair_policy_record_body_3(v: &PairPolicyRecord) -> Seq<u8> {
    v.source_observed_at_ns[0].canon() + v.source_observed_at_ns[1].canon() + v.ever_partially_matched[0].canon()
}

fn pair_policy_record_encode_body_3(v: &PairPolicyRecord, out: &mut Vec<u8>)
    ensures
        final(out)@ == old(out)@ + pair_policy_record_body_3(v),
{
    let ghost start = out@;
    v.source_observed_at_ns[0].encode_into(out);
    v.source_observed_at_ns[1].encode_into(out);
    v.ever_partially_matched[0].encode_into(out);
    assert(out@ =~= start + pair_policy_record_body_3(v));
}

pub open spec fn pair_policy_record_body_4(v: &PairPolicyRecord) -> Seq<u8> {
    v.ever_partially_matched[1].canon() + v.aborted.canon()
}

fn pair_policy_record_encode_body_4(v: &PairPolicyRecord, out: &mut Vec<u8>)
    ensures
        final(out)@ == old(out)@ + pair_policy_record_body_4(v),
{
    let ghost start = out@;
    v.ever_partially_matched[1].encode_into(out);
    v.aborted.encode_into(out);
    assert(out@ =~= start + pair_policy_record_body_4(v));
}

/// The encoding of every field but the digest.
pub open spec fn pair_policy_record_body(v: &PairPolicyRecord) -> Seq<u8> {
    pair_policy_record_body_0(v) + pair_policy_record_body_1(v) + pair_policy_record_body_2(v) + pair_policy_record_body_3(v) + pair_policy_record_body_4(v)
}

pub fn pair_policy_record_encode_body(v: &PairPolicyRecord, out: &mut Vec<u8>)
    ensures
        final(out)@ == old(out)@ + pair_policy_record_body(v),
{
    let ghost start = out@;
    pair_policy_record_encode_body_0(v, out);
    pair_policy_record_encode_body_1(v, out);
    pair_policy_record_encode_body_2(v, out);
    pair_policy_record_encode_body_3(v, out);
    pair_policy_record_encode_body_4(v, out);
    assert(out@ =~= start + pair_policy_record_body(v));
}

impl Canonical for PairPolicyRecord {
    open spec fn canon(&self) -> Seq<u8> {
        pair_policy_record_body(self) + self.record_digest.canon()
    }

    fn encode_into(&self, out: &mut Vec<u8>) {
        let ghost start = out@;
        pair_policy_record_encode_body(self, out);
        self.record_digest.encode_into(out);
        assert(out@ =~= start + self.canon());
    }
}

/// Domain of the digest of a pair policy record.
pub open spec fn policy_record_digest_domain() -> Seq<u8> {
    "paired-policy-record-v1".spec_bytes()
}

/// The digest of a pair policy record: every field, with the digest itself zeroed.
pub open spec fn policy_record_digest_spec(v: PairPolicyRecord) -> Seq<u8> {
    domain_digest(policy_record_digest_domain(), pair_policy_record_body(&v) + zero32())
}

pub fn policy_record_digest(v: &PairPolicyRecord) -> (r: [u8; 32])
    ensures
        r@ == policy_record_digest_spec(*v),
{
    let mut body: Vec<u8> = Vec::new();
    pair_policy_record_encode_body(v, &mut body);
    let zero = [0u8; 32];
    push_bytes(&mut body, zero.as_slice());
    assert(zero@ =~= zero32());
    digest_domain("paired-policy-record-v1".as_bytes(), body.as_slice())
}

impl PairPolicyRecord {
    /// This value with its digest field set to its own digest.
    pub fn sealed(self) -> (r: Self)
        ensures
            r == (PairPolicyRecord { record_digest: r.record_digest, ..self }),
            r.record_digest@ == policy_record_digest_spec(self),
            r.record_digest@ == policy_record_digest_spec(r),
    {
        let mut v = self;
        let d = policy_record_digest(&v);
        v.record_digest = d;
        assert(pair_policy_record_body(&v) == pair_policy_record_body(&self));
        v
    }

    /// Whether the digest field matches the content.
    pub fn verify_digest(&self) -> (r: bool)
        ensures
            r == (self.record_digest@ == policy_record_digest_spec(*self)),
    {
        let d = policy_record_digest(self);
        digest_eq(&self.record_digest, &d)
    }
}

/// The answer to one paired-policy command.
#[derive(Clone, Debug, PartialEq, Eq)]
pub struct PairedPolicyDecision {
    pub command_id: PairedPolicyCommandId,
    pub status: PairedPolicyStatus,
    pub reason: PairedPolicyReason,
    pub stage_id: Option<PairStageId>,
    pub permit: Option<PairPermit>,
    pub decision_digest: [u8; 32],
}

impl Canonical for PairedPolicyCommandId {
    open spec fn canon(&self) -> Seq<u8> {
        self.0.canon()
    }

    fn encode_into(&self, out: &mut Vec<u8>) {
        let ghost start = out@;
        self.0.encode_into(out);
        assert(out@ =~= start + self.canon());
    }
}

impl Canonical for PairedPolicyStatus {
    open spec fn canon(&self) -> Seq<u8> {
        match self {
            PairedPolicyStatus::Accepted => seq![0u8],
            PairedPolicyStatus::Denied => seq![1u8],
        }
    }

    fn encode_into(&self, out: &mut Vec<u8>) {
        let ghost start = out@;
        match self {
            PairedPolicyStatus::Accepted => {
                out.push(0u8);
            },
            PairedPolicyStatus::Denied => {
                out.push(1u8);
            },
        }
        assert(out@ =~= start + self.canon());
    }
}

impl Canonical for PairedPolicyReason {
    open spec fn canon(&self) -> Seq<u8> {
        match self {
            PairedPolicyReason::Funded => seq![0u8],
            PairedPolicyReason::Staged => seq![1u8],
            PairedPolicyReason::PairNoTrade => seq![2u8],
            PairedPolicyReason::ModeAccepted => seq![3u8],
            PairedPolicyReason::PermissionIssued => seq![4u8],
            PairedPolicyReason::StageUnknown => seq![5u8],
            PairedPolicyReason::StageInactive => seq![6u8],
            PairedPolicyReason::ModeUnavailable => seq![7u8],
            PairedPolicyReason::ModeStale => seq![8u8],
            PairedPolicyReason::StageStale => seq![9u8],
            PairedPolicyReason::InvalidValidity => seq![10u8],
            PairedPolicyReason::InvalidLeg => seq![11u8],
            PairedPolicyReason::FirstAlreadySelected => seq![12u8],
            PairedPolicyReason::HedgeNotReady => seq![13u8],
            PairedPolicyReason::LegAlreadyAuthorized => seq![14u8],
            PairedPolicyReason::LifecycleAccepted => seq![15u8],
            PairedPolicyReason::LifecycleDenied => seq![16u8],
            PairedPolicyReason::PermissionExpired => seq![17u8],
            PairedPolicyReason::NothingExpired => seq![18u8],
            PairedPolicyReason::UnsafeAbort => seq![19u8],
            PairedPolicyReason::Aborted => seq![20u8],
        }
    }

    fn encode_into(&self, out: &mut Vec<u8>) {
        let ghost start = out@;
        match self {
            PairedPolicyReason::Funded => {
                out.push(0u8);
            },
            PairedPolicyReason::Staged => {
                out.push(1u8);
            },
            PairedPolicyReason::PairNoTrade => {
                out.push(2u8);
            },
            PairedPolicyReason::ModeAccepted => {
                out.push(3u8);
            },
            PairedPolicyReason::PermissionIssued => {
                out.push(4u8);
            },
            PairedPolicyReason::StageUnknown => {
                out.push(5u8);
            },
            PairedPolicyReason::StageInactive => {
                out.push(6u8);
            },
            PairedPolicyReason::ModeUnavailable => {
                out.push(7u8);
            },
            PairedPolicyReason::ModeStale => {
                out.push(8u8);
            },
            PairedPolicyReason::StageStale => {
                out.push(9u8);
            },
            PairedPolicyReason::InvalidValidity => {
                out.push(10u8);
            },
            PairedPolicyReason::InvalidLeg => {
                out.push(11u8);
            },
            PairedPolicyReason::FirstAlreadySelected => {
                out.push(12u8);
            },
            PairedPolicyReason::HedgeNotReady => {
                out.push(13u8);
            },
            PairedPolicyReason::LegAlreadyAuthorized => {
                out.push(14u8);
            },
            PairedPolicyReason::LifecycleAccepted => {
                out.push(15u8);
            },
            PairedPolicyReason::LifecycleDenied => {
                out.push(16u8);
            },
            PairedPolicyReason::PermissionExpired => {
                out.push(17u8);
            },
            PairedPolicyReason::NothingExpired => {
                out.push(18u8);
            },
            PairedPolicyReason::UnsafeAbort => {
                out.push(19u8);
            },
            PairedPolicyReason::Aborted => {
                out.push(20u8);
            },
        }
        assert(out@ =~= start + self.canon());
    }
}

pub open spec fn paired_policy_decision_body_0(v: &PairedPolicyDecision) -> Seq<u8> {
    v.command_id.canon() + v.status.canon() + v.reason.canon() + v.stage_id.canon() + v.permit.canon()
}

fn paired_policy_decision_encode_body_0(v: &PairedPolicyDecision, out: &mut Vec<u8>)
    ensures
        final(out)@ == old(out)@ + paired_policy_decision_body_0(v),
{
    let ghost start = out@;
    v.command_id.encode_into(out);
    v.status.encode_into(out);
    v.reason.encode_into(out);
    v.stage_id.encode_into(out);
    v.permit.encode_into(out);
    assert(out@ =~= start + paired_policy_decision_body_0(v));
}

/// The encoding of every field but the digest.
pub open spec fn paired_policy_decision_body(v: &PairedPolicyDecision) -> Seq<u8> {
    paired_policy_decision_body_0(v)
}

pub fn paired_policy_decision_encode_body(v: &PairedPolicyDecision, out: &mut Vec<u8>)
    ensures
        final(out)@ == old(out)@ + paired_policy_decision_body(v),
{
    let ghost start = out@;
    paired_policy_decision_encode_body_0(v, out);
    assert(out@ =~= start + paired_policy_decision_body(v));
}

impl Canonical for PairedPolicyDecision {
    open spec fn canon(&self) -> Seq<u8> {
        paired_policy_decision_body(self) + self.decision_digest.canon()
    }

    fn encode_into(&self, out: &mut Vec<u8>) {
        let ghost start = out@;
        paired_policy_decision_encode_body(self, out);
        self.decision_digest.encode_into(out);
        assert(out@ =~= start + self.canon());
    }
}

/// Domain of the digest of a paired-policy decision.
pub open spec fn policy_decision_digest_domain() -> Seq<u8> {
    "paired-policy-decision-v1".spec_bytes()
}

/// The digest of a paired-policy decision: every field, with the digest itself zeroed.
pub open spec fn policy_decision_digest_spec(v: PairedPolicyDecision) -> Seq<u8> {
    domain_digest(policy_decision_digest_domain(), paired_policy_decision_body(&v) + zero32())
}

pub fn policy_decision_digest(v: &PairedPolicyDecision) -> (r: [u8; 32])
    ensures
        r@ == policy_decision_digest_spec(*v),
{
    let mut body: Vec<u8> = Vec::new();
    paired_policy_decision_encode_body(v, &mut body);
    let zero = [0u8; 32];
    push_bytes(&mut body, zero.as_slice());
    assert(zero@ =~= zero32());
    digest_domain("paired-policy-decision-v1".as_bytes(), body.as_slice())
}

impl PairedPolicyDecision {
    /// This value with its digest field set to its own digest.
    pub fn sealed(self) -> (r: Self)
        ensures
            r == (PairedPolicyDecision { decision_digest: r.decision_digest, ..self }),
            r.decision_digest@ == policy_decision_digest_spec(self),
            r.decision_digest@ == policy_decision_digest_spec(r),
    {
        let mut v = self;
        let d = policy_decision_digest(&v);
        v.decision_digest = d;
        assert(paired_policy_decision_body(&v) == paired_policy_decision_body(&self));
        v
    }

    /// Whether the digest field matches the content.
    pub fn verify_digest(&self) -> (r: bool)
        ensures
            r == (self.decision_digest@ == policy_decision_digest_spec(*self)),
    {
        let d = policy_decision_digest(self);
        digest_eq(&self.decision_digest, &d)
    }
}

} // verus!
