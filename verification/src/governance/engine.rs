//! The governance owner: one candidate, dual operator decisions and one
//! final record; idempotent per command id and absorbing once halted.

use vstd::prelude::*;
use vstd::string::StringSliceAdditionalSpecFns;
use crate::digest::{blake3_digest, blake3_hash, digest_domain, digest_eq, domain_digest, is_zero32, le_bytes, push_le};
use crate::digest::{zero32, Canonical};
use super::aggregate::{aggregate_candidate, aggregate_overflows, aggregate_spec, base_reasons, floors_overflow};
use super::seal::{canary_record_digest, canary_record_digest_spec, decision_digest_spec, governance_outcome_digest};
use super::seal::governance_outcome_digest_spec;
use super::types::{CanaryEligibilityRecord, CanaryStatus, CandidateAggregate, DecisionRole, DecisionVerdict, EligibilityReason};
use super::types::{Error, GovernanceCommand, GovernanceCommandId, GovernanceDetail, GovernanceOutcome, GovernancePolicy};
use super::types::{OperatorDecision, ReleaseCandidateSubmission};
use super::types::{canary_eligibility_record_body, governance_outcome_body};
use super::validate::{submission_check, validate_policy, validate_submission, policy_valid};

verus! {

broadcast use vstd::string::to_string_from_display_ensures_for_str;

/// Largest encoded command accepted.
pub const MAX_COMMAND_BYTES: usize = 8388608;

/// Version of the command encoding.
pub const WIRE_VERSION: u16 = 1;

/// The versioned encoding of a command.
pub open spec fn wire_bytes(cmd: GovernanceCommand) -> Seq<u8> {
    le_bytes(WIRE_VERSION as nat, 2) + cmd.canon()
}

/// Encodes one versioned command, refusing one over the size bound.
pub fn encode_command(cmd: &GovernanceCommand) -> (r: Result<Vec<u8>, Error>)
    ensures
        match r {
            Ok(b) => b@ == wire_bytes(*cmd) && b@.len() <= MAX_COMMAND_BYTES,
            Err(e) => e == Error::CommandBound && wire_bytes(*cmd).len() > MAX_COMMAND_BYTES,
        },
{
    let mut bytes: Vec<u8> = Vec::new();
    push_le(&mut bytes, 1u128, 2);
    cmd.encode_into(&mut bytes);
    if bytes.len() > MAX_COMMAND_BYTES {
        return Err(Error::CommandBound);
    }
    Ok(bytes)
}

/// What the owner keeps of a registered candidate.
#[derive(Clone, Copy, Debug, PartialEq, Eq)]
pub struct CandidateSummary {
    pub candidate_id: [u8; 32],
    pub created_at_ns: i64,
    pub expires_at_ns: i64,
    pub candidate_digest: [u8; 32],
    pub evidence_set_digest: [u8; 32],
    pub baseline_digest: [u8; 32],
    pub artifacts_digest: [u8; 32],
    pub rollback_digest: [u8; 32],
    pub policy_digest: [u8; 32],
}

/// The summary of a submission.
pub open spec fn summary_of(s: ReleaseCandidateSubmission) -> CandidateSummary {
    CandidateSummary {
        candidate_id: s.candidate_id,
        created_at_ns: s.created_at_ns,
        expires_at_ns: s.expires_at_ns,
        candidate_digest: s.candidate_digest,
        evidence_set_digest: s.evidence_set_digest,
        baseline_digest: s.baseline.baseline_digest,
        artifacts_digest: s.artifacts.artifacts_digest,
        rollback_digest: s.rollback.criteria_digest,
        policy_digest: s.policy_digest,
    }
}

fn summarize(s: &ReleaseCandidateSubmission) -> (r: CandidateSummary)
    ensures
        r == summary_of(*s),
{
    CandidateSummary {
        candidate_id: s.candidate_id,
        created_at_ns: s.created_at_ns,
        expires_at_ns: s.expires_at_ns,
        candidate_digest: s.candidate_digest,
        evidence_set_digest: s.evidence_set_digest,
        baseline_digest: s.baseline.baseline_digest,
        artifacts_digest: s.artifacts.artifacts_digest,
        rollback_digest: s.rollback.criteria_digest,
        policy_digest: s.policy_digest,
    }
}

/// Two records hold the same values.
pub open spec fn same_record(a: CanaryEligibilityRecord, b: CanaryEligibilityRecord) -> bool {
    a == (CanaryEligibilityRecord { reasons: a.reasons, ..b }) && a.reasons@ == b.reasons@
}

/// Two details hold the same values.
pub open spec fn same_detail(a: GovernanceDetail, b: GovernanceDetail) -> bool {
    match (a, b) {
        (
            GovernanceDetail::CandidateRegistered { candidate_digest: d1, aggregate: a1, reasons: r1 },
            GovernanceDetail::CandidateRegistered { candidate_digest: d2, aggregate: a2, reasons: r2 },
        ) => d1 == d2 && a1 == a2 && r1@ == r2@,
        (GovernanceDetail::DecisionRecorded { role: o1, verdict: v1 }, GovernanceDetail::DecisionRecorded { role: o2, verdict: v2 }) => o1
            == o2 && v1 == v2,
        (GovernanceDetail::Finalized(x), GovernanceDetail::Finalized(y)) => same_record(*x, *y),
        _ => false,
    }
}

/// Two outcomes hold the same values.
pub open spec fn same_outcome(a: GovernanceOutcome, b: GovernanceOutcome) -> bool {
    a.command_id == b.command_id && same_detail(a.detail, b.detail) && a.outcome_digest == b.outcome_digest
}

fn copy_reasons(v: &Vec<EligibilityReason>) -> (r: Vec<EligibilityReason>)
    ensures
        r@ == v@,
{
    let mut r: Vec<EligibilityReason> = Vec::new();
    let mut i: usize = 0;
    while i < v.len()
        invariant
            i <= v@.len(),
            r@ == v@.take(i as int),
        decreases v@.len() - i,
    {
        r.push(v[i]);
        assert(v@.take(i + 1) =~= v@.take(i as int).push(v@[i as int]));
        i = i + 1;
    }
    assert(v@.take(v@.len() as int) =~= v@);
    r
}

fn copy_record(x: &CanaryEligibilityRecord) -> (r: CanaryEligibilityRecord)
    ensures
        same_record(r, *x),
        r.canon() == x.canon(),
        record_sealed(*x) ==> record_sealed(r),
{
    let r = CanaryEligibilityRecord {
        record_id: x.record_id,
        candidate_id: x.candidate_id,
        candidate_digest: x.candidate_digest,
        evidence_set_digest: x.evidence_set_digest,
        baseline_digest: x.baseline_digest,
        artifacts_digest: x.artifacts_digest,
        rollback_digest: x.rollback_digest,
        policy_digest: x.policy_digest,
        evaluated_at_ns: x.evaluated_at_ns,
        valid_until_ns: x.valid_until_ns,
        status: x.status,
        reasons: copy_reasons(&x.reasons),
        aggregate: x.aggregate,
        risk_decision_digest: x.risk_decision_digest,
        release_decision_digest: x.release_decision_digest,
        dual_control_complete: x.dual_control_complete,
        operator_execution_required: x.operator_execution_required,
        rollback_required_on_threshold: x.rollback_required_on_threshold,
        canary_execution_authority_granted: x.canary_execution_authority_granted,
        promotion_authority_granted: x.promotion_authority_granted,
        deployment_authority_granted: x.deployment_authority_granted,
        credential_authority_granted: x.credential_authority_granted,
        live_trading_authority_granted: x.live_trading_authority_granted,
        record_digest: x.record_digest,
    };
    assert(canary_eligibility_record_body(&r) == canary_eligibility_record_body(x));
    r
}

fn copy_outcome(x: &GovernanceOutcome) -> (r: GovernanceOutcome)
    ensures
        same_outcome(r, *x),
        outcome_sealed(*x) ==> outcome_sealed(r),
{
    let detail = match &x.detail {
        GovernanceDetail::CandidateRegistered { candidate_digest, aggregate, reasons } => GovernanceDetail::CandidateRegistered {
            candidate_digest: *candidate_digest,
            aggregate: *aggregate,
            reasons: copy_reasons(reasons),
        },
        GovernanceDetail::DecisionRecorded { role, verdict } => GovernanceDetail::DecisionRecorded { role: *role, verdict: *verdict },
        GovernanceDetail::Finalized(rec) => GovernanceDetail::Finalized(Box::new(copy_record(rec))),
    };
    assert(detail.canon() == x.detail.canon());
    let r = GovernanceOutcome { command_id: x.command_id, detail, outcome_digest: x.outcome_digest };
    assert(governance_outcome_body(&r) == governance_outcome_body(x));
    r
}

/// A record whose digest matches its content.
pub open spec fn record_sealed(r: CanaryEligibilityRecord) -> bool {
    r.record_digest@ == canary_record_digest_spec(r)
}

/// An outcome whose digest matches its content, and whose final record, if it
/// carries one, matches its own digest too.
pub open spec fn outcome_sealed(o: GovernanceOutcome) -> bool {
    &&& o.outcome_digest@ == governance_outcome_digest_spec(o)
    &&& (o.detail matches GovernanceDetail::Finalized(rec) ==> record_sealed(*rec))
}

/// Every remembered outcome is sealed.
pub open spec fn outcomes_sealed(ps: Seq<GovernanceEntry>) -> bool {
    forall|i: int| 0 <= i < ps.len() ==> outcome_sealed(#[trigger] ps[i].outcome)
}

/// One remembered command.
#[derive(Debug)]
pub struct GovernanceEntry {
    pub command_id: GovernanceCommandId,
    pub content_digest: [u8; 32],
    pub outcome: GovernanceOutcome,
}

impl Canonical for CandidateSummary {
    open spec fn canon(&self) -> Seq<u8> {
        self.candidate_id.canon() + self.created_at_ns.canon() + self.expires_at_ns.canon() + self.candidate_digest.canon() + self.evidence_set_digest.canon() + self.baseline_digest.canon() + self.artifacts_digest.canon() + self.rollback_digest.canon() + self.policy_digest.canon()
    }

    fn encode_into(&self, out: &mut Vec<u8>) {
        let ghost start = out@;
        self.candidate_id.encode_into(out);
        let ghost a0 = self.candidate_id.canon();
        assert(out@ == start + a0);
        self.created_at_ns.encode_into(out);
        let ghost a1 = a0 + self.created_at_ns.canon();
        assert(out@ =~= start + a1);
        self.expires_at_ns.encode_into(out);
        let ghost a2 = a1 + self.expires_at_ns.canon();
        assert(out@ =~= start + a2);
        self.candidate_digest.encode_into(out);
        let ghost a3 = a2 + self.candidate_digest.canon();
        assert(out@ =~= start + a3);
        self.evidence_set_digest.encode_into(out);
        let ghost a4 = a3 + self.evidence_set_digest.canon();
        assert(out@ =~= start + a4);
        self.baseline_digest.encode_into(out);
        let ghost a5 = a4 + self.baseline_digest.canon();
        assert(out@ =~= start + a5);
        self.artifacts_digest.encode_into(out);
        let ghost a6 = a5 + self.artifacts_digest.canon();
        assert(out@ =~= start + a6);
        self.rollback_digest.encode_into(out);
        let ghost a7 = a6 + self.rollback_digest.canon();
        assert(out@ =~= start + a7);
        self.policy_digest.encode_into(out);
        let ghost a8 = a7 + self.policy_digest.canon();
        assert(out@ =~= start + a8);
        assert(out@ =~= start + self.canon());
    }
}

impl Canonical for GovernanceEntry {
    open spec fn canon(&self) -> Seq<u8> {
        self.command_id.canon() + self.content_digest.canon() + self.outcome.canon()
    }

    fn encode_into(&self, out: &mut Vec<u8>) {
        let ghost start = out@;
        self.command_id.encode_into(out);
        self.content_digest.encode_into(out);
        self.outcome.encode_into(out);
        assert(out@ =~= start + self.canon());
    }
}

/// The observable state of a governance owner.
#[derive(Debug)]
pub struct GovernanceSnapshot {
    pub accepted_commands: u64,
    pub candidate_id: Option<[u8; 32]>,
    pub candidate_digest: Option<[u8; 32]>,
    pub decisions: Vec<OperatorDecision>,
    pub last_record: Option<CanaryEligibilityRecord>,
    pub halted: bool,
    pub halt_reason: Option<String>,
    pub digest: [u8; 32],
}

/// Deterministic offline promotion governance over one release candidate.
#[derive(Debug)]
pub struct PromotionGovernance {
    policy: GovernancePolicy,
    candidate: Option<CandidateSummary>,
    aggregate: Option<CandidateAggregate>,
    base_reasons: Vec<EligibilityReason>,
    risk_decision: Option<OperatorDecision>,
    release_decision: Option<OperatorDecision>,
    final_record: Option<CanaryEligibilityRecord>,
    processed: Vec<GovernanceEntry>,
    accepted_commands: u64,
    last_recorded_at_ns: Option<i64>,
    halted: Option<String>,
}

/// What a governance owner holds, as values.
pub struct GovernanceView {
    pub policy: GovernancePolicy,
    pub candidate: Option<CandidateSummary>,
    pub aggregate: Option<CandidateAggregate>,
    pub base_reasons: Seq<EligibilityReason>,
    pub risk_decision: Option<OperatorDecision>,
    pub release_decision: Option<OperatorDecision>,
    pub final_record: Option<CanaryEligibilityRecord>,
    pub processed: Seq<GovernanceEntry>,
    pub accepted_commands: u64,
    pub last_recorded_at_ns: Option<i64>,
    pub halted: Option<Seq<char>>,
}

pub open spec fn text_view(s: Option<String>) -> Option<Seq<char>> {
    match s {
        Some(t) => Some(t@),
        None => None,
    }
}

impl View for PromotionGovernance {
    type V = GovernanceView;

    closed spec fn view(&self) -> GovernanceView {
        GovernanceView {
            policy: self.policy,
            candidate: self.candidate,
            aggregate: self.aggregate,
            base_reasons: self.base_reasons@,
            risk_decision: self.risk_decision,
            release_decision: self.release_decision,
            final_record: self.final_record,
            processed: self.processed@,
            accepted_commands: self.accepted_commands,
            last_recorded_at_ns: self.last_recorded_at_ns,
            halted: text_view(self.halted),
        }
    }
}

/// Remembered command ids are distinct.
pub open spec fn ids_unique(ps: Seq<GovernanceEntry>) -> bool {
    forall|i: int, j: int|
        0 <= i < ps.len() && 0 <= j < ps.len() && i != j ==> (#[trigger] ps[i]).command_id.0@ != (#[trigger] ps[j]).command_id.0@
}

pub open spec fn remembers(ps: Seq<GovernanceEntry>, id: GovernanceCommandId) -> bool {
    exists|i: int| 0 <= i < ps.len() && (#[trigger] ps[i]).command_id.0@ == id.0@
}

pub open spec fn entry_for(ps: Seq<GovernanceEntry>, id: GovernanceCommandId) -> GovernanceEntry {
    ps[choose|i: int| 0 <= i < ps.len() && (#[trigger] ps[i]).command_id.0@ == id.0@]
}

/// The message of an error that halts the owner.
pub open spec fn halt_text(e: Error) -> Seq<char> {
    match e {
        Error::Timestamp => "governance timestamp is invalid or regressed"@,
        Error::IdempotencyConflict => "governance command id was reused for different content"@,
        Error::Candidate => "release candidate identity or digest is invalid"@,
        Error::Evidence => "campaign evidence identity, digest, or authority fields are invalid"@,
        Error::Baseline => "regression baseline is invalid"@,
        Error::Artifacts => "release artifacts are invalid"@,
        Error::Rollback => "rollback criteria are invalid"@,
        Error::Decision => "operator decision identity, subject, or lifecycle is invalid"@,
        Error::Record => "canary record identity is invalid"@,
        Error::Finalized => "release candidate is already finalized"@,
        _ => "governance arithmetic or counter overflow"@,
    }
}

/// The errors that halt the owner.
pub open spec fn halting(e: Error) -> bool {
    !(e is Config || e is CommandBound || e is Json || e is Version || e is Halted)
}

pub open spec fn halted_with(old: GovernanceView, new: GovernanceView, e: Error) -> bool {
    new == GovernanceView { halted: Some(halt_text(e)), ..old }
}

/// The decision recorded for a role.
pub open spec fn slot(v: GovernanceView, role: DecisionRole) -> Option<OperatorDecision> {
    match role {
        DecisionRole::Risk => v.risk_decision,
        DecisionRole::Release => v.release_decision,
    }
}

/// The decision recorded for the other role.
pub open spec fn other_slot(v: GovernanceView, role: DecisionRole) -> Option<OperatorDecision> {
    match role {
        DecisionRole::Risk => v.release_decision,
        DecisionRole::Release => v.risk_decision,
    }
}

/// A decision binds to the registered candidate, is sealed, recorded at its
/// decision time within the candidate's life and the policy's window, fills
/// an empty role, and does not reuse the other decision's id with other content.
pub open spec fn decision_acceptable(v: GovernanceView, c: CandidateSummary, cid: [u8; 32], d: OperatorDecision, recorded_at_ns: i64) -> bool {
    &&& cid@ == c.candidate_id@
    &&& d.decision_id@ != zero32()
    &&& d.operator_id@ != zero32()
    &&& d.decision_digest@ == decision_digest_spec(d)
    &&& d.candidate_digest@ == c.candidate_digest@
    &&& d.evidence_set_digest@ == c.evidence_set_digest@
    &&& d.artifacts_digest@ == c.artifacts_digest@
    &&& d.rollback_digest@ == c.rollback_digest@
    &&& d.decided_at_ns == recorded_at_ns
    &&& d.decided_at_ns >= c.created_at_ns
    &&& d.valid_until_ns >= d.decided_at_ns
    &&& d.valid_until_ns <= c.expires_at_ns
    &&& d.valid_until_ns - d.decided_at_ns <= v.policy.maximum_decision_age_ns
    &&& slot(v, d.role) is None
    &&& !(other_slot(v, d.role) matches Some(o) && o.decision_id@ == d.decision_id@ && o.decision_digest@ != d.decision_digest@)
}

/// `v` with a decision stored for its role.
pub open spec fn with_decision(v: GovernanceView, d: OperatorDecision) -> GovernanceView {
    match d.role {
        DecisionRole::Risk => GovernanceView { risk_decision: Some(d), ..v },
        DecisionRole::Release => GovernanceView { release_decision: Some(d), ..v },
    }
}

/// Why a role's decision does not count at `at`, if it does not.
pub open spec fn missing(v: GovernanceView, role: DecisionRole) -> bool {
    slot(v, role) is None
}

pub open spec fn rejected(v: GovernanceView, role: DecisionRole) -> bool {
    slot(v, role) matches Some(d) && d.verdict == DecisionVerdict::Reject
}

pub open spec fn expired(v: GovernanceView, role: DecisionRole, at: i64) -> bool {
    slot(v, role) matches Some(d) && d.verdict == DecisionVerdict::Approve && at > d.valid_until_ns
}

pub open spec fn same_operator(v: GovernanceView) -> bool {
    v.risk_decision matches Some(a) && v.release_decision matches Some(b) && a.operator_id@ == b.operator_id@
}

/// The reasons finalization adds to the registration reasons, in order.
pub open spec fn final_reasons(v: GovernanceView, c: CandidateSummary, at: i64) -> Seq<EligibilityReason> {
    v.base_reasons
        + crate::order::reason_if(missing(v, DecisionRole::Risk), EligibilityReason::MissingDecision(DecisionRole::Risk))
        + crate::order::reason_if(missing(v, DecisionRole::Release), EligibilityReason::MissingDecision(DecisionRole::Release))
        + crate::order::reason_if(rejected(v, DecisionRole::Risk), EligibilityReason::RejectedDecision(DecisionRole::Risk))
        + crate::order::reason_if(rejected(v, DecisionRole::Release), EligibilityReason::RejectedDecision(DecisionRole::Release))
        + crate::order::reason_if(expired(v, DecisionRole::Risk, at), EligibilityReason::ExpiredDecision(DecisionRole::Risk))
        + crate::order::reason_if(expired(v, DecisionRole::Release, at), EligibilityReason::ExpiredDecision(DecisionRole::Release))
        + crate::order::reason_if(same_operator(v), EligibilityReason::SameOperator)
        + crate::order::reason_if(at > c.expires_at_ns, EligibilityReason::CandidateExpired)
}

/// Both roles approved by different operators and still valid at `at`.
pub open spec fn dual_control(v: GovernanceView, at: i64) -> bool {
    v.risk_decision matches Some(a) && v.release_decision matches Some(b) && a.operator_id@ != b.operator_id@
        && a.verdict == DecisionVerdict::Approve && b.verdict == DecisionVerdict::Approve && at <= a.valid_until_ns
        && at <= b.valid_until_ns
}

pub open spec fn min_i64(a: i64, b: i64) -> i64 {
    if a <= b { a } else { b }
}

/// The record stays valid until the candidate or any recorded decision expires.
pub open spec fn record_valid_until(v: GovernanceView, c: CandidateSummary) -> i64 {
    let x = match v.risk_decision {
        Some(d) => min_i64(c.expires_at_ns, d.valid_until_ns),
        None => c.expires_at_ns,
    };
    match v.release_decision {
        Some(d) => min_i64(x, d.valid_until_ns),
        None => x,
    }
}

pub open spec fn digest_of(d: Option<OperatorDecision>) -> Option<[u8; 32]> {
    match d {
        Some(x) => Some(x.decision_digest),
        None => None,
    }
}

/// `r` is the sealed final record of the candidate evaluated at `at`: eligible
/// exactly when nothing stands against it and dual control is complete, and
/// never granting any authority.
pub open spec fn final_record_spec(
    r: CanaryEligibilityRecord,
    v: GovernanceView,
    c: CandidateSummary,
    a: CandidateAggregate,
    record_id: [u8; 32],
    at: i64,
) -> bool {
    let reasons = final_reasons(v, c, at);
    &&& r.record_id == record_id
    &&& r.candidate_id == c.candidate_id
    &&& r.candidate_digest == c.candidate_digest
    &&& r.evidence_set_digest == c.evidence_set_digest
    &&& r.baseline_digest == c.baseline_digest
    &&& r.artifacts_digest == c.artifacts_digest
    &&& r.rollback_digest == c.rollback_digest
    &&& r.policy_digest == c.policy_digest
    &&& r.evaluated_at_ns == at
    &&& r.valid_until_ns == record_valid_until(v, c)
    &&& r.status == (if reasons.len() == 0 && dual_control(v, at) { CanaryStatus::CanaryEligible } else { CanaryStatus::NotEligible })
    &&& r.reasons@ == reasons
    &&& r.aggregate == a
    &&& r.risk_decision_digest == digest_of(v.risk_decision)
    &&& r.release_decision_digest == digest_of(v.release_decision)
    &&& r.dual_control_complete == dual_control(v, at)
    &&& r.operator_execution_required
    &&& r.rollback_required_on_threshold
    &&& !r.canary_execution_authority_granted
    &&& !r.promotion_authority_granted
    &&& !r.deployment_authority_granted
    &&& !r.credential_authority_granted
    &&& !r.live_trading_authority_granted
    &&& r.record_digest@ == canary_record_digest_spec(r)
}

/// Registration of a candidate on an owner without one.
pub open spec fn register_spec(v: GovernanceView, s: ReleaseCandidateSubmission, recorded_at_ns: i64, new: GovernanceView, r: Result<GovernanceDetail, Error>) -> bool {
    let ev = s.evidence@;
    if v.candidate is Some {
        r == Err::<GovernanceDetail, Error>(Error::Candidate)
    } else {
        match submission_check(s, v.policy, recorded_at_ns) {
            Err(e) => r == Err::<GovernanceDetail, Error>(e),
            Ok(_) => if aggregate_overflows(ev, s.created_at_ns, v.policy) || floors_overflow(s.baseline, v.policy) {
                r == Err::<GovernanceDetail, Error>(Error::Overflow)
            } else {
                let a = aggregate_spec(ev, s.created_at_ns, v.policy);
                r matches Ok(GovernanceDetail::CandidateRegistered { candidate_digest, aggregate, reasons })
                    && candidate_digest == s.candidate_digest && aggregate == a && base_reasons(reasons@, s, v.policy)
                    && new == (GovernanceView { candidate: Some(summary_of(s)), aggregate: Some(a), base_reasons: reasons@, ..v })
            },
        }
    }
}

/// Recording one operator decision.
pub open spec fn decision_spec(v: GovernanceView, cid: [u8; 32], d: OperatorDecision, recorded_at_ns: i64, new: GovernanceView, r: Result<GovernanceDetail, Error>) -> bool {
    if v.candidate is None {
        r == Err::<GovernanceDetail, Error>(Error::Candidate)
    } else if !decision_acceptable(v, v.candidate->0, cid, d, recorded_at_ns) {
        r == Err::<GovernanceDetail, Error>(Error::Decision)
    } else {
        r == Ok::<GovernanceDetail, Error>(GovernanceDetail::DecisionRecorded { role: d.role, verdict: d.verdict })
            && new == with_decision(v, d)
    }
}

/// Finalizing the candidate into its record.
pub open spec fn finalize_spec(v: GovernanceView, cid: [u8; 32], record_id: [u8; 32], evaluated_at_ns: i64, recorded_at_ns: i64, new: GovernanceView, r: Result<GovernanceDetail, Error>) -> bool {
    if v.candidate is None {
        r == Err::<GovernanceDetail, Error>(Error::Candidate)
    } else if cid@ != v.candidate->0.candidate_id@ || record_id@ == zero32()
        || evaluated_at_ns < v.candidate->0.created_at_ns || evaluated_at_ns > recorded_at_ns {
        r == Err::<GovernanceDetail, Error>(Error::Record)
    } else if v.aggregate is None {
        r == Err::<GovernanceDetail, Error>(Error::Candidate)
    } else {
        match r {
            Ok(GovernanceDetail::Finalized(rec)) => {
                &&& final_record_spec(*rec, v, v.candidate->0, v.aggregate->0, record_id, evaluated_at_ns)
                &&& new.final_record matches Some(fr) && same_record(*rec, fr)
                &&& new == (GovernanceView { final_record: new.final_record, ..v })
            },
            _ => false,
        }
    }
}

/// The effect of a command on an owner that has neither halted nor seen it:
/// on success `new` is the next state before bookkeeping.
pub open spec fn fresh_spec(v: GovernanceView, cmd: GovernanceCommand, new: GovernanceView, r: Result<GovernanceDetail, Error>) -> bool {
    if v.final_record is Some {
        r == Err::<GovernanceDetail, Error>(Error::Finalized)
    } else {
        match cmd {
            GovernanceCommand::RegisterCandidate { submission, recorded_at_ns, .. } => register_spec(v, *submission, recorded_at_ns, new, r),
            GovernanceCommand::RecordDecision { candidate_id, decision, recorded_at_ns, .. } => decision_spec(v, candidate_id, *decision, recorded_at_ns, new, r),
            GovernanceCommand::Finalize { candidate_id, record_id, evaluated_at_ns, recorded_at_ns, .. } => finalize_spec(v, candidate_id, record_id, evaluated_at_ns, recorded_at_ns, new, r),
        }
    }
}

/// The content digest under which a command id is remembered.
pub open spec fn command_digest(cmd: GovernanceCommand) -> Seq<u8> {
    blake3_hash(wire_bytes(cmd))
}

/// `new` is `mid` after recording the outcome of `cmd`.
pub open spec fn bookkept(mid: GovernanceView, cmd: GovernanceCommand, new: GovernanceView, o: GovernanceOutcome) -> bool {
    &&& new.processed.len() == mid.processed.len() + 1
    &&& new.processed.take(mid.processed.len() as int) == mid.processed
    &&& new.processed.last().command_id == cmd.id_of()
    &&& new.processed.last().content_digest@ == command_digest(cmd)
    &&& same_outcome(new.processed.last().outcome, o)
    &&& new == (GovernanceView {
        processed: new.processed,
        accepted_commands: (mid.accepted_commands + 1) as u64,
        last_recorded_at_ns: Some(cmd.recorded_at()),
        ..mid
    })
}

/// The complete effect of applying one command to an owner in state `old`.
pub open spec fn apply_spec(old: GovernanceView, cmd: GovernanceCommand, new: GovernanceView, r: Result<GovernanceOutcome, Error>) -> bool {
    let id = cmd.id_of();
    let at = cmd.recorded_at();
    if old.halted is Some {
        new == old && (r matches Err(Error::Halted(s)) && s@ == old.halted->0)
    } else if at < 0 || (old.last_recorded_at_ns matches Some(prev) && at < prev) {
        r == Err::<GovernanceOutcome, Error>(Error::Timestamp) && halted_with(old, new, Error::Timestamp)
    } else if wire_bytes(cmd).len() > MAX_COMMAND_BYTES {
        new == old && r == Err::<GovernanceOutcome, Error>(Error::CommandBound)
    } else if remembers(old.processed, id) {
        let e = entry_for(old.processed, id);
        if e.content_digest@ == command_digest(cmd) {
            new == old && (r matches Ok(o) && same_outcome(o, e.outcome))
        } else {
            r == Err::<GovernanceOutcome, Error>(Error::IdempotencyConflict) && halted_with(old, new, Error::IdempotencyConflict)
        }
    } else {
        exists|mid: GovernanceView, fr: Result<GovernanceDetail, Error>| #[trigger] fresh_spec(old, cmd, mid, fr) && match fr {
            Err(e) => r == Err::<GovernanceOutcome, Error>(e) && halted_with(old, new, e),
            Ok(d) => if old.accepted_commands == u64::MAX {
                r == Err::<GovernanceOutcome, Error>(Error::Overflow) && halted_with(old, new, Error::Overflow)
            } else {
                r matches Ok(o) && o.command_id == id && same_detail(o.detail, d)
                    && o.outcome_digest@ == governance_outcome_digest_spec(o) && bookkept(mid, cmd, new, o)
            },
        }
    }
}

/// What an accepted fresh command changes.
pub enum Plan {
    Register(CandidateSummary, CandidateAggregate, Vec<EligibilityReason>),
    Decide(OperatorDecision),
    Finalize(CanaryEligibilityRecord),
}

/// The state after a plan is committed.
pub open spec fn commit_spec(v: GovernanceView, p: Plan) -> GovernanceView {
    match p {
        Plan::Register(s, a, rs) => GovernanceView { candidate: Some(s), aggregate: Some(a), base_reasons: rs@, ..v },
        Plan::Decide(d) => with_decision(v, d),
        Plan::Finalize(rec) => GovernanceView { final_record: Some(rec), ..v },
    }
}

/// The recorded decisions, risk first.
pub open spec fn decisions_seq(v: GovernanceView) -> Seq<OperatorDecision> {
    (match v.risk_decision {
        Some(d) => seq![d],
        None => Seq::empty(),
    }) + (match v.release_decision {
        Some(d) => seq![d],
        None => Seq::empty(),
    })
}

/// Domain of the owner state digest.
pub open spec fn state_domain() -> Seq<u8> {
    "promotion-governance-state-v1".spec_bytes()
}

pub open spec fn text_canon(t: Option<Seq<char>>) -> Seq<u8> {
    match t {
        None => seq![0u8],
        Some(s) => seq![1u8] + le_bytes(vstd::utf8::encode_utf8(s).len(), 8) + vstd::utf8::encode_utf8(s),
    }
}

/// The canonical encoding of a governance state.
pub open spec fn state_canon(v: GovernanceView) -> Seq<u8> {
    v.policy.canon() + v.candidate.canon() + v.aggregate.canon() + le_bytes(v.base_reasons.len(), 8)
        + crate::digest::seq_canon(v.base_reasons) + v.risk_decision.canon() + v.release_decision.canon()
        + v.final_record.canon() + le_bytes(v.processed.len(), 8) + crate::digest::seq_canon(v.processed)
        + le_bytes(v.accepted_commands as nat, 8) + v.last_recorded_at_ns.canon() + text_canon(v.halted)
}

pub open spec fn state_digest_spec(v: GovernanceView) -> Seq<u8> {
    domain_digest(state_domain(), state_canon(v))
}

impl PromotionGovernance {
    #[verifier::type_invariant]
    spec fn inv(&self) -> bool {
        &&& ids_unique(self.processed@)
        &&& outcomes_sealed(self.processed@)
    }

    /// An empty owner under a valid policy.
    pub fn new(policy: GovernancePolicy) -> (r: Result<Self, Error>)
        ensures
            match r {
                Ok(g) => policy_valid(policy) && g@ == (GovernanceView {
                    policy,
                    candidate: None,
                    aggregate: None,
                    base_reasons: Seq::empty(),
                    risk_decision: None,
                    release_decision: None,
                    final_record: None,
                    processed: Seq::empty(),
                    accepted_commands: 0,
                    last_recorded_at_ns: None,
                    halted: None,
                }),
                Err(e) => !policy_valid(policy) && e == Error::Config,
            },
    {
        match validate_policy(&policy) {
            Ok(_) => {},
            Err(e) => {
                return Err(e);
            },
        }
        let g = PromotionGovernance {
            policy,
            candidate: None,
            aggregate: None,
            base_reasons: Vec::new(),
            risk_decision: None,
            release_decision: None,
            final_record: None,
            processed: Vec::new(),
            accepted_commands: 0,
            last_recorded_at_ns: None,
            halted: None,
        };
        assert(g@.base_reasons =~= Seq::<EligibilityReason>::empty());
        assert(g@.processed =~= Seq::<GovernanceEntry>::empty());
        Ok(g)
    }

    /// Whether an integrity failure has halted the owner.
    pub fn is_halted(&self) -> (r: bool)
        ensures
            r == (self@.halted is Some),
    {
        self.halted.is_some()
    }

    fn lookup(&self, id: &GovernanceCommandId) -> (r: Option<usize>)
        ensures
            match r {
                Some(i) => i < self@.processed.len() && self@.processed[i as int] == entry_for(self@.processed, *id)
                    && remembers(self@.processed, *id),
                None => !remembers(self@.processed, *id),
            },
    {
        proof { use_type_invariant(self); }
        let mut i: usize = 0;
        while i < self.processed.len()
            invariant
                i <= self.processed@.len(),
                ids_unique(self.processed@),
                forall|j: int| 0 <= j < i ==> (#[trigger] self.processed@[j]).command_id.0@ != id.0@,
            decreases self.processed@.len() - i,
        {
            if digest_eq(&self.processed[i].command_id.0, &id.0) {
                proof {
                    let ps = self.processed@;
                    let k = choose|k: int| 0 <= k < ps.len() && (#[trigger] ps[k]).command_id.0@ == id.0@;
                    if k != i {
                        assert(ps[k].command_id.0@ != ps[i as int].command_id.0@);
                    }
                }
                return Some(i);
            }
            i = i + 1;
        }
        None
    }

    fn halt(&mut self, error: Error) -> (r: Result<GovernanceOutcome, Error>)
        requires
            halting(error),
        ensures
            r == Err::<GovernanceOutcome, Error>(error),
            halted_with(old(self)@, final(self)@, error),
            ids_unique(final(self)@.processed),
            outcomes_sealed(final(self)@.processed),
    {
        proof { use_type_invariant(&*self); }
        let reason = match error {
            Error::Timestamp => "governance timestamp is invalid or regressed".to_string(),
            Error::IdempotencyConflict => "governance command id was reused for different content".to_string(),
            Error::Candidate => "release candidate identity or digest is invalid".to_string(),
            Error::Evidence => "campaign evidence identity, digest, or authority fields are invalid".to_string(),
            Error::Baseline => "regression baseline is invalid".to_string(),
            Error::Artifacts => "release artifacts are invalid".to_string(),
            Error::Rollback => "rollback criteria are invalid".to_string(),
            Error::Decision => "operator decision identity, subject, or lifecycle is invalid".to_string(),
            Error::Record => "canary record identity is invalid".to_string(),
            Error::Finalized => "release candidate is already finalized".to_string(),
            _ => "governance arithmetic or counter overflow".to_string(),
        };
        self.halted = Some(reason);
        Err(error)
    }

    fn plan_register(&self, sub: &ReleaseCandidateSubmission, recorded_at_ns: i64) -> (r: Result<(Plan, GovernanceDetail), Error>)
        ensures
            match r {
                Ok((p, d)) => register_spec(self@, *sub, recorded_at_ns, commit_spec(self@, p), Ok(d)),
                Err(e) => register_spec(self@, *sub, recorded_at_ns, self@, Err(e)),
            },
    {
        if self.candidate.is_some() {
            return Err(Error::Candidate);
        }
        match validate_submission(sub, &self.policy, recorded_at_ns) {
            Ok(_) => {},
            Err(e) => {
                return Err(e);
            },
        }
        let (a, reasons) = match aggregate_candidate(sub, &self.policy) {
            Ok(x) => x,
            Err(e) => {
                return Err(e);
            },
        };
        let detail = GovernanceDetail::CandidateRegistered { candidate_digest: sub.candidate_digest, aggregate: a, reasons: copy_reasons(&reasons) };
        let p = Plan::Register(summarize(sub), a, reasons);
        Ok((p, detail))
    }
}

impl PromotionGovernance {
    fn plan_decision(&self, cid: &[u8; 32], d: &OperatorDecision, recorded_at_ns: i64) -> (r: Result<(Plan, GovernanceDetail), Error>)
        ensures
            match r {
                Ok((p, det)) => decision_spec(self@, *cid, *d, recorded_at_ns, commit_spec(self@, p), Ok(det)),
                Err(e) => decision_spec(self@, *cid, *d, recorded_at_ns, self@, Err(e)),
            },
    {
        let c = match self.candidate {
            Some(c) => c,
            None => {
                return Err(Error::Candidate);
            },
        };
        let (mine, other) = match d.role {
            DecisionRole::Risk => (&self.risk_decision, &self.release_decision),
            DecisionRole::Release => (&self.release_decision, &self.risk_decision),
        };
        let reused = match other {
            Some(o) => digest_eq(&o.decision_id, &d.decision_id) && !digest_eq(&o.decision_digest, &d.decision_digest),
            None => false,
        };
        if !digest_eq(cid, &c.candidate_id) || is_zero32(&d.decision_id) || is_zero32(&d.operator_id) || !d.verify_digest()
            || !digest_eq(&d.candidate_digest, &c.candidate_digest) || !digest_eq(&d.evidence_set_digest, &c.evidence_set_digest)
            || !digest_eq(&d.artifacts_digest, &c.artifacts_digest) || !digest_eq(&d.rollback_digest, &c.rollback_digest)
            || d.decided_at_ns != recorded_at_ns || d.decided_at_ns < c.created_at_ns || d.valid_until_ns < d.decided_at_ns
            || d.valid_until_ns > c.expires_at_ns
            || d.valid_until_ns as i128 - d.decided_at_ns as i128 > self.policy.maximum_decision_age_ns as i128
            || mine.is_some() || reused {
            return Err(Error::Decision);
        }
        Ok((Plan::Decide(*d), GovernanceDetail::DecisionRecorded { role: d.role, verdict: d.verdict }))
    }

    #[verifier::rlimit(40)]
    fn plan_finalize(&self, cid: &[u8; 32], record_id: &[u8; 32], evaluated_at_ns: i64, recorded_at_ns: i64) -> (r: Result<(Plan, GovernanceDetail), Error>)
        ensures
            match r {
                Ok((p, det)) => finalize_spec(self@, *cid, *record_id, evaluated_at_ns, recorded_at_ns, commit_spec(self@, p), Ok(det)),
                Err(e) => finalize_spec(self@, *cid, *record_id, evaluated_at_ns, recorded_at_ns, self@, Err(e)),
            },
    {
        let c = match self.candidate {
            Some(c) => c,
            None => {
                return Err(Error::Candidate);
            },
        };
        if !digest_eq(cid, &c.candidate_id) || is_zero32(record_id) || evaluated_at_ns < c.created_at_ns || evaluated_at_ns > recorded_at_ns {
            return Err(Error::Record);
        }
        let a = match self.aggregate {
            Some(a) => a,
            None => {
                return Err(Error::Candidate);
            },
        };
        let ghost v = self@;
        let mut reasons = copy_reasons(&self.base_reasons);
        let risk_missing = self.risk_decision.is_none();
        let release_missing = self.release_decision.is_none();
        let risk_rejected = match &self.risk_decision {
            Some(x) => match x.verdict {
                DecisionVerdict::Reject => true,
                DecisionVerdict::Approve => false,
            },
            None => false,
        };
        let release_rejected = match &self.release_decision {
            Some(x) => match x.verdict {
                DecisionVerdict::Reject => true,
                DecisionVerdict::Approve => false,
            },
            None => false,
        };
        let risk_expired = match &self.risk_decision {
            Some(x) => match x.verdict {
                DecisionVerdict::Approve => evaluated_at_ns > x.valid_until_ns,
                DecisionVerdict::Reject => false,
            },
            None => false,
        };
        let release_expired = match &self.release_decision {
            Some(x) => match x.verdict {
                DecisionVerdict::Approve => evaluated_at_ns > x.valid_until_ns,
                DecisionVerdict::Reject => false,
            },
            None => false,
        };
        let same_op = match (&self.risk_decision, &self.release_decision) {
            (Some(x), Some(y)) => digest_eq(&x.operator_id, &y.operator_id),
            _ => false,
        };
        let dual = match (&self.risk_decision, &self.release_decision) {
            (Some(x), Some(y)) => {
                let approved = match (x.verdict, y.verdict) {
                    (DecisionVerdict::Approve, DecisionVerdict::Approve) => true,
                    _ => false,
                };
                !digest_eq(&x.operator_id, &y.operator_id) && approved && evaluated_at_ns <= x.valid_until_ns
                    && evaluated_at_ns <= y.valid_until_ns
            },
            _ => false,
        };
        let ghost s0 = reasons@;
        crate::order::push_when(&mut reasons, risk_missing, EligibilityReason::MissingDecision(DecisionRole::Risk));
        crate::order::push_when(&mut reasons, release_missing, EligibilityReason::MissingDecision(DecisionRole::Release));
        crate::order::push_when(&mut reasons, risk_rejected, EligibilityReason::RejectedDecision(DecisionRole::Risk));
        crate::order::push_when(&mut reasons, release_rejected, EligibilityReason::RejectedDecision(DecisionRole::Release));
        crate::order::push_when(&mut reasons, risk_expired, EligibilityReason::ExpiredDecision(DecisionRole::Risk));
        crate::order::push_when(&mut reasons, release_expired, EligibilityReason::ExpiredDecision(DecisionRole::Release));
        crate::order::push_when(&mut reasons, same_op, EligibilityReason::SameOperator);
        crate::order::push_when(&mut reasons, evaluated_at_ns > c.expires_at_ns, EligibilityReason::CandidateExpired);
        assert(reasons@ =~= final_reasons(v, c, evaluated_at_ns));
        let mut valid_until = c.expires_at_ns;
        if let Some(x) = &self.risk_decision {
            if x.valid_until_ns < valid_until {
                valid_until = x.valid_until_ns;
            }
        }
        if let Some(x) = &self.release_decision {
            if x.valid_until_ns < valid_until {
                valid_until = x.valid_until_ns;
            }
        }
        let eligible = reasons.len() == 0 && dual;
        let mut record = CanaryEligibilityRecord {
            record_id: *record_id,
            candidate_id: c.candidate_id,
            candidate_digest: c.candidate_digest,
            evidence_set_digest: c.evidence_set_digest,
            baseline_digest: c.baseline_digest,
            artifacts_digest: c.artifacts_digest,
            rollback_digest: c.rollback_digest,
            policy_digest: c.policy_digest,
            evaluated_at_ns,
            valid_until_ns: valid_until,
            status: if eligible { CanaryStatus::CanaryEligible } else { CanaryStatus::NotEligible },
            reasons,
            aggregate: a,
            risk_decision_digest: match &self.risk_decision {
                Some(x) => Some(x.decision_digest),
                None => None,
            },
            release_decision_digest: match &self.release_decision {
                Some(x) => Some(x.decision_digest),
                None => None,
            },
            dual_control_complete: dual,
            operator_execution_required: true,
            rollback_required_on_threshold: true,
            canary_execution_authority_granted: false,
            promotion_authority_granted: false,
            deployment_authority_granted: false,
            credential_authority_granted: false,
            live_trading_authority_granted: false,
            record_digest: [0u8; 32],
        };
        record = record.sealed();
        let detail = GovernanceDetail::Finalized(Box::new(copy_record(&record)));
        Ok((Plan::Finalize(record), detail))
    }

    fn plan(&self, command: &GovernanceCommand) -> (r: Result<(Plan, GovernanceDetail), Error>)
        ensures
            match r {
                Ok((p, d)) => fresh_spec(self@, *command, commit_spec(self@, p), Ok(d)),
                Err(e) => fresh_spec(self@, *command, self@, Err(e)),
            },
    {
        if self.final_record.is_some() {
            return Err(Error::Finalized);
        }
        match command {
            GovernanceCommand::RegisterCandidate { submission, recorded_at_ns, .. } => self.plan_register(submission, *recorded_at_ns),
            GovernanceCommand::RecordDecision { candidate_id, decision, recorded_at_ns, .. } => self.plan_decision(candidate_id, decision, *recorded_at_ns),
            GovernanceCommand::Finalize { candidate_id, record_id, evaluated_at_ns, recorded_at_ns, .. } => self.plan_finalize(
                candidate_id,
                record_id,
                *evaluated_at_ns,
                *recorded_at_ns,
            ),
        }
    }

    fn commit(&mut self, p: Plan)
        ensures
            final(self)@ == commit_spec(old(self)@, p),
    {
        proof { use_type_invariant(&*self); }
        match p {
            Plan::Register(s, a, rs) => {
                self.candidate = Some(s);
                self.aggregate = Some(a);
                self.base_reasons = rs;
            },
            Plan::Decide(d) => {
                match d.role {
                    DecisionRole::Risk => {
                        self.risk_decision = Some(d);
                    },
                    DecisionRole::Release => {
                        self.release_decision = Some(d);
                    },
                }
            },
            Plan::Finalize(rec) => {
                self.final_record = Some(rec);
            },
        }
    }

    fn bookkeep(&mut self, command: &GovernanceCommand, content: [u8; 32], outcome: &GovernanceOutcome)
        requires
            !remembers(old(self)@.processed, command.id_of()),
            old(self)@.accepted_commands < u64::MAX,
            content@ == command_digest(*command),
            outcome_sealed(*outcome),
        ensures
            bookkept(old(self)@, *command, final(self)@, *outcome),
            ids_unique(final(self)@.processed),
            outcomes_sealed(final(self)@.processed),
    {
        proof { use_type_invariant(&*self); }
        let id = command.command_id();
        let entry = GovernanceEntry { command_id: id, content_digest: content, outcome: copy_outcome(outcome) };
        let mut ps: Vec<GovernanceEntry> = Vec::new();
        std::mem::swap(&mut ps, &mut self.processed);
        proof {
            let old_ps = ps@;
            assert forall|i: int, j: int|
                0 <= i < old_ps.push(entry).len() && 0 <= j < old_ps.push(entry).len() && i != j
                implies (#[trigger] old_ps.push(entry)[i]).command_id.0@ != (#[trigger] old_ps.push(entry)[j]).command_id.0@ by {
                if i < old_ps.len() && j < old_ps.len() {
                    assert(old_ps.push(entry)[i] == old_ps[i]);
                    assert(old_ps.push(entry)[j] == old_ps[j]);
                } else if i < old_ps.len() {
                    assert(old_ps.push(entry)[i] == old_ps[i]);
                    assert(old_ps[i].command_id.0@ != id.0@);
                } else {
                    assert(old_ps.push(entry)[j] == old_ps[j]);
                    assert(old_ps[j].command_id.0@ != id.0@);
                }
            }
        }
        ps.push(entry);
        self.processed = ps;
        self.accepted_commands = self.accepted_commands + 1;
        self.last_recorded_at_ns = Some(command.recorded_at_ns());
        assert(self@.processed.take(old(self)@.processed.len() as int) =~= old(self)@.processed);
        proof { use_type_invariant(&*self); }
    }

    /// Applies one governance command transactionally: a replay returns the
    /// remembered outcome; a timestamp, identity, lifecycle or arithmetic
    /// failure halts the owner for good.
    pub fn apply(&mut self, command: &GovernanceCommand) -> (r: Result<GovernanceOutcome, Error>)
        ensures
            apply_spec(old(self)@, *command, final(self)@, r),
            r matches Ok(o) ==> outcome_sealed(o),
            ids_unique(final(self)@.processed),
            outcomes_sealed(final(self)@.processed),
    {
        proof { use_type_invariant(&*self); }
        if let Some(reason) = &self.halted {
            return Err(Error::Halted(reason.clone()));
        }
        let at = command.recorded_at_ns();
        let regressed = match self.last_recorded_at_ns {
            Some(prev) => at < prev,
            None => false,
        };
        if at < 0 || regressed {
            return self.halt(Error::Timestamp);
        }
        let bytes = match encode_command(command) {
            Ok(b) => b,
            Err(e) => {
                return Err(e);
            },
        };
        let content = blake3_digest(bytes.as_slice());
        let id = command.command_id();
        if let Some(i) = self.lookup(&id) {
            if digest_eq(&self.processed[i].content_digest, &content) {
                return Ok(copy_outcome(&self.processed[i].outcome));
            }
            return self.halt(Error::IdempotencyConflict);
        }
        let ghost v0 = self@;
        let (p, detail) = match self.plan(command) {
            Ok(x) => x,
            Err(e) => {
                proof {
                    assert(fresh_spec(v0, *command, v0, Err(e)));
                }
                return self.halt(e);
            },
        };
        let ghost mid = commit_spec(v0, p);
        proof {
            assert(fresh_spec(v0, *command, mid, Ok(detail)));
        }
        if self.accepted_commands == u64::MAX {
            return self.halt(Error::Overflow);
        }
        self.commit(p);
        let mut outcome = GovernanceOutcome { command_id: id, detail, outcome_digest: [0u8; 32] };
        outcome = outcome.sealed();
        self.bookkeep(command, content, &outcome);
        Ok(outcome)
    }
}

impl PromotionGovernance {
    fn state_digest(&self) -> (r: [u8; 32])
        ensures
            r@ == state_digest_spec(self@),
    {
        let mut body: Vec<u8> = Vec::new();
        let ghost v = self@;
        self.policy.encode_into(&mut body);
        self.candidate.encode_into(&mut body);
        self.aggregate.encode_into(&mut body);
        let ghost a1 = v.policy.canon() + v.candidate.canon() + v.aggregate.canon();
        assert(body@ =~= a1);
        self.base_reasons.encode_into(&mut body);
        let ghost a2 = a1 + le_bytes(v.base_reasons.len(), 8) + crate::digest::seq_canon(v.base_reasons);
        assert(body@ =~= a2);
        self.risk_decision.encode_into(&mut body);
        self.release_decision.encode_into(&mut body);
        self.final_record.encode_into(&mut body);
        let ghost a3 = a2 + v.risk_decision.canon() + v.release_decision.canon() + v.final_record.canon();
        assert(body@ =~= a3);
        self.processed.encode_into(&mut body);
        let ghost a4 = a3 + le_bytes(v.processed.len(), 8) + crate::digest::seq_canon(v.processed);
        assert(body@ =~= a4);
        push_le(&mut body, self.accepted_commands as u128, 8);
        self.last_recorded_at_ns.encode_into(&mut body);
        self.halted.encode_into(&mut body);
        assert(self.halted.canon() == text_canon(v.halted));
        assert(body@ =~= a4 + le_bytes(v.accepted_commands as nat, 8) + v.last_recorded_at_ns.canon() + text_canon(v.halted));
        assert(body@ =~= state_canon(v));
        digest_domain("promotion-governance-state-v1".as_bytes(), body.as_slice())
    }

    /// The observable state, with its digest.
    pub fn snapshot(&self) -> (s: GovernanceSnapshot)
        ensures
            s.accepted_commands == self@.accepted_commands,
            s.candidate_id == (match self@.candidate {
                Some(c) => Some(c.candidate_id),
                None => None::<[u8; 32]>,
            }),
            s.candidate_digest == (match self@.candidate {
                Some(c) => Some(c.candidate_digest),
                None => None::<[u8; 32]>,
            }),
            s.decisions@ == decisions_seq(self@),
            s.last_record is Some == self@.final_record is Some,
            s.last_record is Some ==> same_record(s.last_record->0, self@.final_record->0),
            s.halted == (self@.halted is Some),
            text_view(s.halt_reason) == self@.halted,
            s.digest@ == state_digest_spec(self@),
    {
        let mut decisions: Vec<OperatorDecision> = Vec::new();
        if let Some(d) = self.risk_decision {
            decisions.push(d);
        }
        if let Some(d) = self.release_decision {
            decisions.push(d);
        }
        assert(decisions@ =~= decisions_seq(self@));
        GovernanceSnapshot {
            accepted_commands: self.accepted_commands,
            candidate_id: match self.candidate {
                Some(c) => Some(c.candidate_id),
                None => None,
            },
            candidate_digest: match self.candidate {
                Some(c) => Some(c.candidate_digest),
                None => None,
            },
            decisions,
            last_record: match &self.final_record {
                Some(r) => Some(copy_record(r)),
                None => None,
            },
            halted: self.halted.is_some(),
            halt_reason: self.halted.clone(),
            digest: self.state_digest(),
        }
    }
}

/// A halted owner is absorbing: every command is refused with the recorded
/// reason and changes nothing.
pub proof fn law_halted_governance_absorbs(old: GovernanceView, cmd: GovernanceCommand, new: GovernanceView, r: Result<GovernanceOutcome, Error>)
    requires
        apply_spec(old, cmd, new, r),
        old.halted is Some,
    ensures
        new == old,
        r matches Err(Error::Halted(s)) && s@ == old.halted->0,
{
}

/// Replaying an accepted command returns the same outcome and changes nothing.
pub proof fn law_governance_replay_is_idempotent(
    s0: GovernanceView,
    cmd: GovernanceCommand,
    s1: GovernanceView,
    o1: GovernanceOutcome,
    s2: GovernanceView,
    r2: Result<GovernanceOutcome, Error>,
)
    requires
        ids_unique(s1.processed),
        apply_spec(s0, cmd, s1, Ok(o1)),
        apply_spec(s1, cmd, s2, r2),
    ensures
        s2 == s1,
        r2 matches Ok(o2) && same_outcome(o2, o1),
{
    let id = cmd.id_of();
    if !remembers(s0.processed, id) {
        let last = s1.processed.len() - 1;
        assert(s1.processed[last].command_id.0@ == id.0@);
        assert(remembers(s1.processed, id));
        let k = choose|k: int| 0 <= k < s1.processed.len() && (#[trigger] s1.processed[k]).command_id.0@ == id.0@;
        if k != last {
            assert(s1.processed[k].command_id.0@ != s1.processed[last].command_id.0@);
        }
    }
}

/// Applying a command never forgets or rewrites a remembered command: what
/// was remembered before the call is a prefix of what is remembered after it.
pub proof fn law_governance_remembers_forever(old: GovernanceView, cmd: GovernanceCommand, new: GovernanceView, r: Result<GovernanceOutcome, Error>)
    requires
        apply_spec(old, cmd, new, r),
    ensures
        old.processed.len() <= new.processed.len(),
        new.processed.take(old.processed.len() as int) == old.processed,
{
    assert(old.processed.take(old.processed.len() as int) =~= old.processed);
}

/// A command id is answered from memory for as long as the owner runs: once a
/// call of `first` has returned `o1`, a later call with the same id on any
/// later running state that still remembers what was remembered then (see
/// `law_governance_remembers_forever`) returns the same outcome and changes
/// nothing when its content digest is the same, and halts on an idempotency
/// conflict when it is not.
pub proof fn law_governance_answers_from_memory(
    s0: GovernanceView,
    first: GovernanceCommand,
    s1: GovernanceView,
    o1: GovernanceOutcome,
    later: GovernanceView,
    cmd: GovernanceCommand,
    s2: GovernanceView,
    r2: Result<GovernanceOutcome, Error>,
)
    requires
        apply_spec(s0, first, s1, Ok(o1)),
        s1.processed.len() <= later.processed.len(),
        later.processed.take(s1.processed.len() as int) == s1.processed,
        ids_unique(later.processed),
        later.halted is None,
        cmd.id_of() == first.id_of(),
        cmd.recorded_at() >= 0,
        !(later.last_recorded_at_ns matches Some(prev) && cmd.recorded_at() < prev),
        wire_bytes(cmd).len() <= MAX_COMMAND_BYTES,
        apply_spec(later, cmd, s2, r2),
    ensures
        command_digest(cmd) == command_digest(first) ==> s2 == later && (r2 matches Ok(o2) && same_outcome(o2, o1)),
        wire_bytes(cmd) == wire_bytes(first) ==> s2 == later && (r2 matches Ok(o2) && same_outcome(o2, o1)),
        command_digest(cmd) != command_digest(first) ==> r2 == Err::<GovernanceOutcome, Error>(Error::IdempotencyConflict)
            && halted_with(later, s2, Error::IdempotencyConflict),
{
    let k = lemma_governance_answer_is_remembered(s0, first, s1, o1);
    let id = first.id_of();
    assert(later.processed[k] == s1.processed[k]);
    assert(remembers(later.processed, id));
    let j = choose|j: int| 0 <= j < later.processed.len() && (#[trigger] later.processed[j]).command_id.0@ == id.0@;
    if j != k {
        assert(later.processed[j].command_id.0@ != later.processed[k].command_id.0@);
    }
}

/// Where the answer to an accepted call is remembered.
proof fn lemma_governance_answer_is_remembered(s0: GovernanceView, first: GovernanceCommand, s1: GovernanceView, o1: GovernanceOutcome) -> (k: int)
    requires
        apply_spec(s0, first, s1, Ok(o1)),
    ensures
        0 <= k < s1.processed.len(),
        s1.processed[k].command_id.0@ == first.id_of().0@,
        s1.processed[k].content_digest@ == command_digest(first),
        same_outcome(o1, s1.processed[k].outcome),
{
    let id = first.id_of();
    if remembers(s0.processed, id) {
        choose|k: int| 0 <= k < s0.processed.len() && (#[trigger] s0.processed[k]).command_id.0@ == id.0@
    } else {
        s1.processed.len() - 1
    }
}

/// Changing only the digest of a sealed record breaks its seal, so a stored or
/// replayed record whose digest was altered no longer verifies.
pub proof fn law_record_seal_detects_a_changed_digest(rec: CanaryEligibilityRecord, forged: [u8; 32])
    requires
        record_sealed(rec),
        forged@ != rec.record_digest@,
    ensures
        !record_sealed(CanaryEligibilityRecord { record_digest: forged, ..rec }),
{
    let f = CanaryEligibilityRecord { record_digest: forged, ..rec };
    assert(canary_eligibility_record_body(&f) == canary_eligibility_record_body(&rec));
}

/// A command that fails either changes nothing or halts with its error's
/// reason; the candidate, decisions and record are never partly installed.
pub proof fn law_governance_failure_installs_nothing(old: GovernanceView, cmd: GovernanceCommand, new: GovernanceView, e: Error)
    requires
        apply_spec(old, cmd, new, Err(e)),
    ensures
        new == old || (halting(e) && halted_with(old, new, e)),
        new.candidate == old.candidate,
        new.risk_decision == old.risk_decision,
        new.release_decision == old.release_decision,
        new.final_record == old.final_record,
{
}

/// Once a record is final, every new command halts the owner as finalized.
pub proof fn law_finalized_candidate_is_closed(old: GovernanceView, cmd: GovernanceCommand, new: GovernanceView, r: Result<GovernanceOutcome, Error>)
    requires
        apply_spec(old, cmd, new, r),
        old.halted is None,
        old.final_record is Some,
        cmd.recorded_at() >= 0,
        !(old.last_recorded_at_ns matches Some(prev) && cmd.recorded_at() < prev),
        wire_bytes(cmd).len() <= MAX_COMMAND_BYTES,
        !remembers(old.processed, cmd.id_of()),
    ensures
        r == Err::<GovernanceOutcome, Error>(Error::Finalized),
        halted_with(old, new, Error::Finalized),
{
}

/// A freshly finalized record never grants authority, always requires an
/// operator to execute and a rollback on threshold, and is eligible exactly
/// when no reason stands against it and dual control is complete.
pub proof fn law_final_record_never_authorizes(old: GovernanceView, cmd: GovernanceCommand, new: GovernanceView, o: GovernanceOutcome)
    requires
        apply_spec(old, cmd, new, Ok(o)),
        !remembers(old.processed, cmd.id_of()),
        o.detail is Finalized,
    ensures
        ({
            let rec = *o.detail->Finalized_0;
            &&& !rec.canary_execution_authority_granted
            &&& !rec.promotion_authority_granted
            &&& !rec.deployment_authority_granted
            &&& !rec.credential_authority_granted
            &&& !rec.live_trading_authority_granted
            &&& rec.operator_execution_required
            &&& rec.rollback_required_on_threshold
            &&& (rec.status == CanaryStatus::CanaryEligible <==> rec.reasons@.len() == 0 && rec.dual_control_complete)
            &&& rec.record_digest@ == canary_record_digest_spec(rec)
        }),
{
}

/// Complete dual control takes two approving decisions by different operators.
pub proof fn law_dual_control_needs_two_operators(old: GovernanceView, cmd: GovernanceCommand, new: GovernanceView, o: GovernanceOutcome)
    requires
        apply_spec(old, cmd, new, Ok(o)),
        !remembers(old.processed, cmd.id_of()),
        o.detail matches GovernanceDetail::Finalized(rec) && rec.dual_control_complete,
    ensures
        old.risk_decision matches Some(a) && old.release_decision matches Some(b) && a.operator_id@ != b.operator_id@
            && a.verdict == DecisionVerdict::Approve && b.verdict == DecisionVerdict::Approve,
{
}

} // verus!
