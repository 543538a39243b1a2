//! The readiness owner: one candidate, three role decisions and one final
//! record; idempotent per command id and absorbing once halted.

use vstd::prelude::*;
use vstd::string::StringSliceAdditionalSpecFns;
use crate::digest::{blake3_digest, blake3_hash, digest_domain, digest_eq, domain_digest, is_zero32, le_bytes, push_le};
use crate::digest::{zero32, Canonical};
use super::evaluate::{evaluate_candidate, evaluation_overflows, readiness_reasons, summarize_evidence, summarizes, totals_spec};
use super::evaluate::{DecisionSlots, EvidenceSummary, ReadinessTotals};
use super::seal::{decision_digest_spec, record_digest_spec};
use super::types::{DecisionRole, Error, ProductionReadinessCandidate, ProductionReadinessPolicy, ProductionReadinessRecord};
use super::types::{ReadinessBaseline, ReadinessCommand, ReadinessCommandId, ReadinessDecision, ReadinessDetail, ReadinessOutcome};
use super::types::{ReadinessReason, ReadinessStatus};
use super::seal::outcome_digest_spec;
use super::types::{production_readiness_record_body, readiness_outcome_body};
use super::validate::{candidate_check, policy_valid, validate_candidate, validate_policy};

verus! {

broadcast use vstd::string::to_string_from_display_ensures_for_str;

/// Largest encoded command accepted.
pub const MAX_COMMAND_BYTES: usize = 16777216;

/// Version of the command encoding.
pub const WIRE_VERSION: u16 = 1;

/// The versioned encoding of a command.
pub open spec fn wire_bytes(cmd: ReadinessCommand) -> Seq<u8> {
    le_bytes(WIRE_VERSION as nat, 2) + cmd.canon()
}

/// Encodes one versioned command, refusing one over the size bound.
pub fn encode_command(cmd: &ReadinessCommand) -> (r: Result<Vec<u8>, Error>)
    ensures
        match r {
            Ok(b) => b@ == wire_bytes(*cmd) && b@.len() <= MAX_COMMAND_BYTES,
            Err(e) => e == Error::CommandBound && wire_bytes(*cmd).len() > MAX_COMMAND_BYTES,
        },
{
    let mut bytes: Vec<u8> = Vec::new();
    push_le(&mut bytes, 1u128, 2);
    cmd.encode_into(&mut bytes);
    if bytes.len() > MAX_COMMAND_BYTES {
        return Err(Error::CommandBound);
    }
    Ok(bytes)
}

/// What the owner keeps of a registered candidate.
#[derive(Debug)]
pub struct StoredCandidate {
    pub candidate_id: [u8; 32],
    pub created_at_ns: i64,
    pub expires_at_ns: i64,
    pub candidate_digest: [u8; 32],
    pub subject_digest: [u8; 32],
    pub baseline: ReadinessBaseline,
    pub evidence: Vec<EvidenceSummary>,
}

/// `s` holds what the owner keeps of `c`.
pub open spec fn stores(s: StoredCandidate, c: ProductionReadinessCandidate) -> bool {
    &&& s.candidate_id == c.candidate_id
    &&& s.created_at_ns == c.created_at_ns
    &&& s.expires_at_ns == c.expires_at_ns
    &&& s.candidate_digest == c.candidate_digest
    &&& s.subject_digest == c.subject.subject_digest
    &&& s.baseline == c.baseline
    &&& s.evidence@.len() == c.evidence@.len()
    &&& forall|i: int| 0 <= i < c.evidence@.len() ==> summarizes(#[trigger] s.evidence@[i], c.evidence@[i])
}

fn store(c: &ProductionReadinessCandidate) -> (s: StoredCandidate)
    ensures
        stores(s, *c),
{
    StoredCandidate {
        candidate_id: c.candidate_id,
        created_at_ns: c.created_at_ns,
        expires_at_ns: c.expires_at_ns,
        candidate_digest: c.candidate_digest,
        subject_digest: c.subject.subject_digest,
        baseline: c.baseline,
        evidence: summarize_evidence(&c.evidence),
    }
}

/// Two records hold the same values.
pub open spec fn same_record(a: ProductionReadinessRecord, b: ProductionReadinessRecord) -> bool {
    a == (ProductionReadinessRecord { reasons: a.reasons, ..b }) && a.reasons@ == b.reasons@
}

pub open spec fn same_detail(a: ReadinessDetail, b: ReadinessDetail) -> bool {
    match (a, b) {
        (ReadinessDetail::Registered, ReadinessDetail::Registered) => true,
        (ReadinessDetail::DecisionRecorded(x), ReadinessDetail::DecisionRecorded(y)) => x == y,
        (ReadinessDetail::Finalized(x), ReadinessDetail::Finalized(y)) => same_record(*x, *y),
        _ => false,
    }
}

pub open spec fn same_outcome(a: ReadinessOutcome, b: ReadinessOutcome) -> bool {
    a.command_id == b.command_id && same_detail(a.detail, b.detail) && a.outcome_digest == b.outcome_digest
}

fn copy_reasons(v: &Vec<ReadinessReason>) -> (r: Vec<ReadinessReason>)
    ensures
        r@ == v@,
{
    let mut r: Vec<ReadinessReason> = Vec::new();
    let mut i: usize = 0;
    while i < v.len()
        invariant
            i <= v@.len(),
            r@ == v@.take(i as int),
        decreases v@.len() - i,
    {
        r.push(v[i]);
        assert(v@.take(i + 1) =~= v@.take(i as int).push(v@[i as int]));
        i = i + 1;
    }
    assert(v@.take(v@.len() as int) =~= v@);
    r
}

fn copy_record(x: &ProductionReadinessRecord) -> (r: ProductionReadinessRecord)
    ensures
        same_record(r, *x),
        record_sealed(*x) ==> record_sealed(r),
{
    let r = ProductionReadinessRecord {
        record_id: x.record_id,
        candidate_id: x.candidate_id,
        candidate_digest: x.candidate_digest,
        subject_digest: x.subject_digest,
        finalized_at_ns: x.finalized_at_ns,
        status: x.status,
        reasons: copy_reasons(&x.reasons),
        eligible_campaign_count: x.eligible_campaign_count,
        case_count: x.case_count,
        independent_plan_count: x.independent_plan_count,
        restart_count: x.restart_count,
        approval_set_count: x.approval_set_count,
        manifest_diversity: x.manifest_diversity,
        schedule_diversity: x.schedule_diversity,
        result_chain_diversity: x.result_chain_diversity,
        plan_diversity: x.plan_diversity,
        regression_campaign_floor: x.regression_campaign_floor,
        regression_case_floor: x.regression_case_floor,
        regression_independent_plan_floor: x.regression_independent_plan_floor,
        regression_restart_floor: x.regression_restart_floor,
        regression_approval_set_floor: x.regression_approval_set_floor,
        operator_execution_required: x.operator_execution_required,
        credential_material_created: x.credential_material_created,
        authentication_authority_granted: x.authentication_authority_granted,
        deployment_authority_granted: x.deployment_authority_granted,
        rollback_execution_authority_granted: x.rollback_execution_authority_granted,
        traffic_authority_granted: x.traffic_authority_granted,
        cloud_control_authority_granted: x.cloud_control_authority_granted,
        live_trading_authority_granted: x.live_trading_authority_granted,
        record_digest: x.record_digest,
    };
    assert(production_readiness_record_body(&r) == production_readiness_record_body(x));
    r
}

fn copy_outcome(x: &ReadinessOutcome) -> (r: ReadinessOutcome)
    ensures
        same_outcome(r, *x),
        outcome_sealed(*x) ==> outcome_sealed(r),
{
    let detail = match &x.detail {
        ReadinessDetail::Registered => ReadinessDetail::Registered,
        ReadinessDetail::DecisionRecorded(role) => ReadinessDetail::DecisionRecorded(*role),
        ReadinessDetail::Finalized(rec) => ReadinessDetail::Finalized(Box::new(copy_record(rec))),
    };
    assert(detail.canon() == x.detail.canon());
    let r = ReadinessOutcome { command_id: x.command_id, detail, outcome_digest: x.outcome_digest };
    assert(readiness_outcome_body(&r) == readiness_outcome_body(x));
    r
}

/// A record whose digest matches its content.
pub open spec fn record_sealed(r: ProductionReadinessRecord) -> bool {
    r.record_digest@ == record_digest_spec(r)
}

/// An outcome whose digest matches its content, and whose final record, if it
/// carries one, matches its own digest too.
pub open spec fn outcome_sealed(o: ReadinessOutcome) -> bool {
    &&& o.outcome_digest@ == outcome_digest_spec(o)
    &&& (o.detail matches ReadinessDetail::Finalized(rec) ==> record_sealed(*rec))
}

/// Every remembered outcome is sealed.
pub open spec fn outcomes_sealed(ps: Seq<ReadinessEntry>) -> bool {
    forall|i: int| 0 <= i < ps.len() ==> outcome_sealed(#[trigger] ps[i].outcome)
}

/// One remembered command.
#[derive(Debug)]
pub struct ReadinessEntry {
    pub command_id: ReadinessCommandId,
    pub content_digest: [u8; 32],
    pub outcome: ReadinessOutcome,
}

/// The observable state of a readiness owner.
#[derive(Debug)]
pub struct ReadinessSnapshot {
    pub accepted_commands: u64,
    pub candidate_id: Option<[u8; 32]>,
    pub decision_count: usize,
    pub last_record: Option<ProductionReadinessRecord>,
    pub halted: bool,
    pub halt_reason: Option<String>,
    pub digest: [u8; 32],
}

/// Deterministic offline owner of one production-change readiness decision.
#[derive(Debug)]
pub struct ProductionChangeReadiness {
    policy: ProductionReadinessPolicy,
    candidate: Option<StoredCandidate>,
    decisions: DecisionSlots,
    record: Option<ProductionReadinessRecord>,
    processed: Vec<ReadinessEntry>,
    accepted_commands: u64,
    last_recorded_at_ns: Option<i64>,
    halted: Option<String>,
}

/// What a readiness owner holds, as values.
pub struct ReadinessView {
    pub policy: ProductionReadinessPolicy,
    pub candidate: Option<StoredCandidate>,
    pub decisions: DecisionSlots,
    pub record: Option<ProductionReadinessRecord>,
    pub processed: Seq<ReadinessEntry>,
    pub accepted_commands: u64,
    pub last_recorded_at_ns: Option<i64>,
    pub halted: Option<Seq<char>>,
}

pub open spec fn text_view(s: Option<String>) -> Option<Seq<char>> {
    match s {
        Some(t) => Some(t@),
        None => None,
    }
}

impl View for ProductionChangeReadiness {
    type V = ReadinessView;

    closed spec fn view(&self) -> ReadinessView {
        ReadinessView {
            policy: self.policy,
            candidate: self.candidate,
            decisions: self.decisions,
            record: self.record,
            processed: self.processed@,
            accepted_commands: self.accepted_commands,
            last_recorded_at_ns: self.last_recorded_at_ns,
            halted: text_view(self.halted),
        }
    }
}

pub open spec fn ids_unique(ps: Seq<ReadinessEntry>) -> bool {
    forall|i: int, j: int|
        0 <= i < ps.len() && 0 <= j < ps.len() && i != j ==> (#[trigger] ps[i]).command_id.0@ != (#[trigger] ps[j]).command_id.0@
}

pub open spec fn remembers(ps: Seq<ReadinessEntry>, id: ReadinessCommandId) -> bool {
    exists|i: int| 0 <= i < ps.len() && (#[trigger] ps[i]).command_id.0@ == id.0@
}

pub open spec fn entry_for(ps: Seq<ReadinessEntry>, id: ReadinessCommandId) -> ReadinessEntry {
    ps[choose|i: int| 0 <= i < ps.len() && (#[trigger] ps[i]).command_id.0@ == id.0@]
}

/// The message of an error that halts the owner.
pub open spec fn halt_text(e: Error) -> Seq<char> {
    match e {
        Error::Timestamp => "production readiness timestamp is invalid or regressed"@,
        Error::IdempotencyConflict => "production readiness command id was reused for different content"@,
        Error::Candidate => "production readiness candidate, baseline, or subject is invalid"@,
        Error::Evidence => "production readiness evidence is invalid, conflicting, or authority-bearing"@,
        Error::Decision => "production readiness decision is invalid or substituted"@,
        Error::Record => "production readiness record lifecycle is invalid"@,
        Error::Finalized => "production readiness is already finalized"@,
        _ => "production readiness arithmetic overflow"@,
    }
}

pub open spec fn halting(e: Error) -> bool {
    !(e is Config || e is CommandBound || e is Json || e is Version || e is Halted)
}

pub open spec fn halted_with(old: ReadinessView, new: ReadinessView, e: Error) -> bool {
    new == ReadinessView { halted: Some(halt_text(e)), ..old }
}

pub open spec fn slot_of(d: DecisionSlots, role: DecisionRole) -> Option<ReadinessDecision> {
    super::evaluate::slot(d, role)
}

/// Some recorded decision already carries this id.
pub open spec fn id_used(d: DecisionSlots, id: [u8; 32]) -> bool {
    ||| d.release matches Some(x) && x.decision_id@ == id@
    ||| d.risk matches Some(x) && x.decision_id@ == id@
    ||| d.operations matches Some(x) && x.decision_id@ == id@
}

pub open spec fn with_decision(d: DecisionSlots, x: ReadinessDecision) -> DecisionSlots {
    match x.role {
        DecisionRole::Release => DecisionSlots { release: Some(x), ..d },
        DecisionRole::Risk => DecisionSlots { risk: Some(x), ..d },
        DecisionRole::Operations => DecisionSlots { operations: Some(x), ..d },
    }
}

/// A decision binds to the registered candidate and subject, is sealed, fresh
/// in role and id, decided now and valid for a bounded time before expiry.
pub open spec fn decision_acceptable(v: ReadinessView, c: StoredCandidate, d: ReadinessDecision, at: i64) -> bool {
    &&& d.decision_id@ != zero32()
    &&& !id_used(v.decisions, d.decision_id)
    &&& slot_of(v.decisions, d.role) is None
    &&& d.candidate_id@ == c.candidate_id@
    &&& d.candidate_digest@ == c.candidate_digest@
    &&& d.subject_digest@ == c.subject_digest@
    &&& d.operator_id@ != zero32()
    &&& d.decided_at_ns == at
    &&& d.valid_until_ns > at
    &&& d.valid_until_ns <= c.expires_at_ns
    &&& d.valid_until_ns - at <= v.policy.maximum_decision_age_ns
    &&& d.decision_digest@ == decision_digest_spec(d)
}

/// `r` is the sealed final record of the candidate evaluated at `at` with
/// totals `t`: ready exactly when no reason stands, never granting authority.
pub open spec fn final_record_spec(r: ProductionReadinessRecord, v: ReadinessView, c: StoredCandidate, record_id: [u8; 32], at: i64, t: ReadinessTotals) -> bool {
    let reasons = readiness_reasons(c.evidence@, at, c.expires_at_ns, v.policy, t, v.decisions);
    &&& r.record_id == record_id
    &&& r.candidate_id == c.candidate_id
    &&& r.candidate_digest == c.candidate_digest
    &&& r.subject_digest == c.subject_digest
    &&& r.finalized_at_ns == at
    &&& r.status == (if reasons.len() == 0 { ReadinessStatus::ProductionChangeReady } else { ReadinessStatus::NotReady })
    &&& r.reasons@ == reasons
    &&& r.eligible_campaign_count == t.eligible_campaign_count
    &&& r.case_count == t.case_count
    &&& r.independent_plan_count == t.independent_plan_count
    &&& r.restart_count == t.restart_count
    &&& r.approval_set_count == t.approval_set_count
    &&& r.manifest_diversity == t.manifest_diversity
    &&& r.schedule_diversity == t.schedule_diversity
    &&& r.result_chain_diversity == t.result_chain_diversity
    &&& r.plan_diversity == t.plan_diversity
    &&& r.regression_campaign_floor == t.regression_campaign_floor
    &&& r.regression_case_floor == t.regression_case_floor
    &&& r.regression_independent_plan_floor == t.regression_independent_plan_floor
    &&& r.regression_restart_floor == t.regression_restart_floor
    &&& r.regression_approval_set_floor == t.regression_approval_set_floor
    &&& r.operator_execution_required
    &&& !r.credential_material_created
    &&& !r.authentication_authority_granted
    &&& !r.deployment_authority_granted
    &&& !r.rollback_execution_authority_granted
    &&& !r.traffic_authority_granted
    &&& !r.cloud_control_authority_granted
    &&& !r.live_trading_authority_granted
    &&& r.record_digest@ == record_digest_spec(r)
}

pub open spec fn register_spec(v: ReadinessView, c: ProductionReadinessCandidate, at: i64, new: ReadinessView, r: Result<ReadinessDetail, Error>) -> bool {
    if v.candidate is Some || c.created_at_ns != at {
        r == Err::<ReadinessDetail, Error>(Error::Candidate)
    } else {
        match candidate_check(c, v.policy) {
            Err(e) => r == Err::<ReadinessDetail, Error>(e),
            Ok(_) => {
                &&& r == Ok::<ReadinessDetail, Error>(ReadinessDetail::Registered)
                &&& new.candidate matches Some(s) && stores(s, c)
                &&& new == (ReadinessView { candidate: new.candidate, ..v })
            },
        }
    }
}

pub open spec fn decision_spec(v: ReadinessView, d: ReadinessDecision, at: i64, new: ReadinessView, r: Result<ReadinessDetail, Error>) -> bool {
    if v.candidate is None {
        r == Err::<ReadinessDetail, Error>(Error::Candidate)
    } else if !decision_acceptable(v, v.candidate->0, d, at) {
        r == Err::<ReadinessDetail, Error>(Error::Decision)
    } else {
        r == Ok::<ReadinessDetail, Error>(ReadinessDetail::DecisionRecorded(d.role))
            && new == (ReadinessView { decisions: with_decision(v.decisions, d), ..v })
    }
}

pub open spec fn finalize_spec(v: ReadinessView, cid: [u8; 32], record_id: [u8; 32], at: i64, recorded_at_ns: i64, new: ReadinessView, r: Result<ReadinessDetail, Error>) -> bool {
    if v.candidate is None {
        r == Err::<ReadinessDetail, Error>(Error::Candidate)
    } else if cid@ != v.candidate->0.candidate_id@ || record_id@ == zero32() || at < v.candidate->0.created_at_ns || at > recorded_at_ns {
        r == Err::<ReadinessDetail, Error>(Error::Record)
    } else {
        let c = v.candidate->0;
        if evaluation_overflows(c.evidence@, at, v.policy, c.baseline) {
            r == Err::<ReadinessDetail, Error>(Error::Overflow)
        } else {
            match r {
                Ok(ReadinessDetail::Finalized(rec)) => {
                    &&& final_record_spec(*rec, v, c, record_id, at, totals_spec(c.evidence@, at, v.policy, c.baseline))
                    &&& new.record matches Some(fr) && same_record(*rec, fr)
                    &&& new == (ReadinessView { record: new.record, ..v })
                },
                _ => false,
            }
        }
    }
}

pub open spec fn fresh_spec(v: ReadinessView, cmd: ReadinessCommand, new: ReadinessView, r: Result<ReadinessDetail, Error>) -> bool {
    if v.record is Some {
        r == Err::<ReadinessDetail, Error>(Error::Finalized)
    } else {
        match cmd {
            ReadinessCommand::Register { candidate, recorded_at_ns, .. } => register_spec(v, *candidate, recorded_at_ns, new, r),
            ReadinessCommand::RecordDecision { decision, recorded_at_ns, .. } => decision_spec(v, decision, recorded_at_ns, new, r),
            ReadinessCommand::Finalize { candidate_id, record_id, evaluated_at_ns, recorded_at_ns, .. } => finalize_spec(v, candidate_id, record_id, evaluated_at_ns, recorded_at_ns, new, r),
        }
    }
}

pub open spec fn command_digest(cmd: ReadinessCommand) -> Seq<u8> {
    blake3_hash(wire_bytes(cmd))
}

pub open spec fn bookkept(mid: ReadinessView, cmd: ReadinessCommand, new: ReadinessView, o: ReadinessOutcome) -> bool {
    &&& new.processed.len() == mid.processed.len() + 1
    &&& new.processed.take(mid.processed.len() as int) == mid.processed
    &&& new.processed.last().command_id == cmd.id_of()
    &&& new.processed.last().content_digest@ == command_digest(cmd)
    &&& same_outcome(new.processed.last().outcome, o)
    &&& new == (ReadinessView {
        processed: new.processed,
        accepted_commands: (mid.accepted_commands + 1) as u64,
        last_recorded_at_ns: Some(cmd.recorded_at()),
        ..mid
    })
}

/// The complete effect of applying one command to an owner in state `old`.
pub open spec fn apply_spec(old: ReadinessView, cmd: ReadinessCommand, new: ReadinessView, r: Result<ReadinessOutcome, Error>) -> bool {
    let id = cmd.id_of();
    let at = cmd.recorded_at();
    if old.halted is Some {
        new == old && (r matches Err(Error::Halted(s)) && s@ == old.halted->0)
    } else if at < 0 || (old.last_recorded_at_ns matches Some(prev) && at < prev) {
        r == Err::<ReadinessOutcome, Error>(Error::Timestamp) && halted_with(old, new, Error::Timestamp)
    } else if wire_bytes(cmd).len() > MAX_COMMAND_BYTES {
        new == old && r == Err::<ReadinessOutcome, Error>(Error::CommandBound)
    } else if remembers(old.processed, id) {
        let e = entry_for(old.processed, id);
        if e.content_digest@ == command_digest(cmd) {
            new == old && (r matches Ok(o) && same_outcome(o, e.outcome))
        } else {
            r == Err::<ReadinessOutcome, Error>(Error::IdempotencyConflict) && halted_with(old, new, Error::IdempotencyConflict)
        }
    } else {
        exists|mid: ReadinessView, fr: Result<ReadinessDetail, Error>| #[trigger] fresh_spec(old, cmd, mid, fr) && match fr {
            Err(e) => r == Err::<ReadinessOutcome, Error>(e) && halted_with(old, new, e),
            Ok(d) => if old.accepted_commands == u64::MAX {
                new == old && r == Err::<ReadinessOutcome, Error>(Error::Overflow)
            } else {
                r matches Ok(o) && o.command_id == id && same_detail(o.detail, d)
                    && o.outcome_digest@ == outcome_digest_spec(o) && bookkept(mid, cmd, new, o)
            },
        }
    }
}

/// What an accepted fresh command changes.
pub enum Plan {
    Register(StoredCandidate),
    Decide(ReadinessDecision),
    Finalize(ProductionReadinessRecord),
}

pub open spec fn commit_spec(v: ReadinessView, p: Plan) -> ReadinessView {
    match p {
        Plan::Register(s) => ReadinessView { candidate: Some(s), ..v },
        Plan::Decide(d) => ReadinessView { decisions: with_decision(v.decisions, d), ..v },
        Plan::Finalize(rec) => ReadinessView { record: Some(rec), ..v },
    }
}

/// Number of recorded decisions.
pub open spec fn decision_count(d: DecisionSlots) -> int {
    (if d.release is Some { 1int } else { 0int }) + (if d.risk is Some { 1int } else { 0int }) + (if d.operations is Some { 1int } else { 0int })
}

pub open spec fn state_domain() -> Seq<u8> {
    "production-change-readiness-state-v1".spec_bytes()
}

pub open spec fn text_canon(t: Option<Seq<char>>) -> Seq<u8> {
    match t {
        None => seq![0u8],
        Some(s) => seq![1u8] + le_bytes(vstd::utf8::encode_utf8(s).len(), 8) + vstd::utf8::encode_utf8(s),
    }
}

pub open spec fn state_canon(v: ReadinessView) -> Seq<u8> {
    v.policy.canon() + v.candidate.canon() + v.decisions.canon() + v.record.canon() + le_bytes(v.processed.len(), 8)
        + crate::digest::seq_canon(v.processed) + le_bytes(v.accepted_commands as nat, 8) + v.last_recorded_at_ns.canon()
        + text_canon(v.halted)
}

pub open spec fn state_digest_spec(v: ReadinessView) -> Seq<u8> {
    domain_digest(state_domain(), state_canon(v))
}

impl ProductionChangeReadiness {
    #[verifier::type_invariant]
    spec fn inv(&self) -> bool {
        &&& ids_unique(self.processed@)
        &&& outcomes_sealed(self.processed@)
    }

    /// An empty owner under a valid policy.
    pub fn new(policy: ProductionReadinessPolicy) -> (r: Result<Self, Error>)
        ensures
            match r {
                Ok(g) => policy_valid(policy) && g@.policy == policy && g@.candidate is None && g@.decisions.release is None
                    && g@.decisions.risk is None && g@.decisions.operations is None && g@.record is None
                    && g@.processed.len() == 0 && g@.accepted_commands == 0 && g@.last_recorded_at_ns is None && g@.halted is None,
                Err(e) => !policy_valid(policy) && e == Error::Config,
            },
    {
        match validate_policy(&policy) {
            Ok(_) => {},
            Err(e) => {
                return Err(e);
            },
        }
        Ok(ProductionChangeReadiness {
            policy,
            candidate: None,
            decisions: DecisionSlots { release: None, risk: None, operations: None },
            record: None,
            processed: Vec::new(),
            accepted_commands: 0,
            last_recorded_at_ns: None,
            halted: None,
        })
    }

    /// Whether an integrity failure has halted the owner.
    pub fn is_halted(&self) -> (r: bool)
        ensures
            r == (self@.halted is Some),
    {
        self.halted.is_some()
    }

    fn lookup(&self, id: &ReadinessCommandId) -> (r: Option<usize>)
        ensures
            match r {
                Some(i) => i < self@.processed.len() && self@.processed[i as int] == entry_for(self@.processed, *id)
                    && remembers(self@.processed, *id),
                None => !remembers(self@.processed, *id),
            },
    {
        proof { use_type_invariant(self); }
        let mut i: usize = 0;
        while i < self.processed.len()
            invariant
                i <= self.processed@.len(),
                ids_unique(self.processed@),
                forall|j: int| 0 <= j < i ==> (#[trigger] self.processed@[j]).command_id.0@ != id.0@,
            decreases self.processed@.len() - i,
        {
            if digest_eq(&self.processed[i].command_id.0, &id.0) {
                proof {
                    let ps = self.processed@;
                    let k = choose|k: int| 0 <= k < ps.len() && (#[trigger] ps[k]).command_id.0@ == id.0@;
                    if k != i {
                        assert(ps[k].command_id.0@ != ps[i as int].command_id.0@);
                    }
                }
                return Some(i);
            }
            i = i + 1;
        }
        None
    }

    fn halt(&mut self, error: Error) -> (r: Result<ReadinessOutcome, Error>)
        requires
            halting(error),
        ensures
            r == Err::<ReadinessOutcome, Error>(error),
            halted_with(old(self)@, final(self)@, error),
            ids_unique(final(self)@.processed),
            outcomes_sealed(final(self)@.processed),
    {
        proof { use_type_invariant(&*self); }
        let reason = match error {
            Error::Timestamp => "production readiness timestamp is invalid or regressed".to_string(),
            Error::IdempotencyConflict => "production readiness command id was reused for different content".to_string(),
            Error::Candidate => "production readiness candidate, baseline, or subject is invalid".to_string(),
            Error::Evidence => "production readiness evidence is invalid, conflicting, or authority-bearing".to_string(),
            Error::Decision => "production readiness decision is invalid or substituted".to_string(),
            Error::Record => "production readiness record lifecycle is invalid".to_string(),
            Error::Finalized => "production readiness is already finalized".to_string(),
            _ => "production readiness arithmetic overflow".to_string(),
        };
        self.halted = Some(reason);
        Err(error)
    }

    fn plan_register(&self, c: &ProductionReadinessCandidate, at: i64) -> (r: Result<(Plan, ReadinessDetail), Error>)
        ensures
            match r {
                Ok((p, d)) => register_spec(self@, *c, at, commit_spec(self@, p), Ok(d)),
                Err(e) => register_spec(self@, *c, at, self@, Err(e)),
            },
    {
        if self.candidate.is_some() || c.created_at_ns != at {
            return Err(Error::Candidate);
        }
        match validate_candidate(c, &self.policy) {
            Ok(_) => {},
            Err(e) => {
                return Err(e);
            },
        }
        Ok((Plan::Register(store(c)), ReadinessDetail::Registered))
    }

    fn plan_decision(&self, d: &ReadinessDecision, at: i64) -> (r: Result<(Plan, ReadinessDetail), Error>)
        ensures
            match r {
                Ok((p, det)) => decision_spec(self@, *d, at, commit_spec(self@, p), Ok(det)),
                Err(e) => decision_spec(self@, *d, at, self@, Err(e)),
            },
    {
        let c = match &self.candidate {
            Some(c) => c,
            None => {
                return Err(Error::Candidate);
            },
        };
        let used = |x: &Option<ReadinessDecision>| -> (b: bool)
            ensures
                b == (*x matches Some(y) && y.decision_id@ == d.decision_id@),
            {
                match x {
                    Some(y) => digest_eq(&y.decision_id, &d.decision_id),
                    None => false,
                }
            };
        let id_taken = used(&self.decisions.release) || used(&self.decisions.risk) || used(&self.decisions.operations);
        let role_taken = match d.role {
            DecisionRole::Release => self.decisions.release.is_some(),
            DecisionRole::Risk => self.decisions.risk.is_some(),
            DecisionRole::Operations => self.decisions.operations.is_some(),
        };
        if is_zero32(&d.decision_id) || id_taken || role_taken || !digest_eq(&d.candidate_id, &c.candidate_id)
            || !digest_eq(&d.candidate_digest, &c.candidate_digest) || !digest_eq(&d.subject_digest, &c.subject_digest)
            || is_zero32(&d.operator_id) || d.decided_at_ns != at || d.valid_until_ns <= at || d.valid_until_ns > c.expires_at_ns
            || d.valid_until_ns as i128 - at as i128 > self.policy.maximum_decision_age_ns as i128 || !d.verify_digest() {
            return Err(Error::Decision);
        }
        Ok((Plan::Decide(*d), ReadinessDetail::DecisionRecorded(d.role)))
    }

    fn plan_finalize(&self, cid: &[u8; 32], record_id: &[u8; 32], at: i64, recorded_at_ns: i64) -> (r: Result<(Plan, ReadinessDetail), Error>)
        ensures
            match r {
                Ok((p, det)) => finalize_spec(self@, *cid, *record_id, at, recorded_at_ns, commit_spec(self@, p), Ok(det)),
                Err(e) => finalize_spec(self@, *cid, *record_id, at, recorded_at_ns, self@, Err(e)),
            },
    {
        let c = match &self.candidate {
            Some(c) => c,
            None => {
                return Err(Error::Candidate);
            },
        };
        if !digest_eq(cid, &c.candidate_id) || is_zero32(record_id) || at < c.created_at_ns || at > recorded_at_ns {
            return Err(Error::Record);
        }
        let (t, reasons) = match evaluate_candidate(&c.evidence, c.expires_at_ns, &c.baseline, &self.policy, &self.decisions, at) {
            Ok(x) => x,
            Err(e) => {
                return Err(e);
            },
        };
        let ready = reasons.len() == 0;
        let record = ProductionReadinessRecord {
            record_id: *record_id,
            candidate_id: c.candidate_id,
            candidate_digest: c.candidate_digest,
            subject_digest: c.subject_digest,
            finalized_at_ns: at,
            status: if ready { ReadinessStatus::ProductionChangeReady } else { ReadinessStatus::NotReady },
            reasons,
            eligible_campaign_count: t.eligible_campaign_count,
            case_count: t.case_count,
            independent_plan_count: t.independent_plan_count,
            restart_count: t.restart_count,
            approval_set_count: t.approval_set_count,
            manifest_diversity: t.manifest_diversity,
            schedule_diversity: t.schedule_diversity,
            result_chain_diversity: t.result_chain_diversity,
            plan_diversity: t.plan_diversity,
            regression_campaign_floor: t.regression_campaign_floor,
            regression_case_floor: t.regression_case_floor,
            regression_independent_plan_floor: t.regression_independent_plan_floor,
            regression_restart_floor: t.regression_restart_floor,
            regression_approval_set_floor: t.regression_approval_set_floor,
            operator_execution_required: true,
            credential_material_created: false,
            authentication_authority_granted: false,
            deployment_authority_granted: false,
            rollback_execution_authority_granted: false,
            traffic_authority_granted: false,
            cloud_control_authority_granted: false,
            live_trading_authority_granted: false,
            record_digest: [0u8; 32],
        };
        let record = record.sealed();
        let detail = ReadinessDetail::Finalized(Box::new(copy_record(&record)));
        Ok((Plan::Finalize(record), detail))
    }

    fn plan(&self, command: &ReadinessCommand) -> (r: Result<(Plan, ReadinessDetail), Error>)
        ensures
            match r {
                Ok((p, d)) => fresh_spec(self@, *command, commit_spec(self@, p), Ok(d)),
                Err(e) => fresh_spec(self@, *command, self@, Err(e)),
            },
    {
        if self.record.is_some() {
            return Err(Error::Finalized);
        }
        match command {
            ReadinessCommand::Register { candidate, recorded_at_ns, .. } => self.plan_register(candidate, *recorded_at_ns),
            ReadinessCommand::RecordDecision { decision, recorded_at_ns, .. } => self.plan_decision(decision, *recorded_at_ns),
            ReadinessCommand::Finalize { candidate_id, record_id, evaluated_at_ns, recorded_at_ns, .. } => self.plan_finalize(
                candidate_id,
                record_id,
                *evaluated_at_ns,
                *recorded_at_ns,
            ),
        }
    }

    fn commit(&mut self, p: Plan)
        ensures
            final(self)@ == commit_spec(old(self)@, p),
    {
        proof { use_type_invariant(&*self); }
        match p {
            Plan::Register(s) => {
                self.candidate = Some(s);
            },
            Plan::Decide(d) => {
                match d.role {
                    DecisionRole::Release => {
                        self.decisions.release = Some(d);
                    },
                    DecisionRole::Risk => {
                        self.decisions.risk = Some(d);
                    },
                    DecisionRole::Operations => {
                        self.decisions.operations = Some(d);
                    },
                }
            },
            Plan::Finalize(rec) => {
                self.record = Some(rec);
            },
        }
    }

    fn bookkeep(&mut self, command: &ReadinessCommand, content: [u8; 32], outcome: &ReadinessOutcome)
        requires
            !remembers(old(self)@.processed, command.id_of()),
            old(self)@.accepted_commands < u64::MAX,
            content@ == command_digest(*command),
            outcome_sealed(*outcome),
        ensures
            bookkept(old(self)@, *command, final(self)@, *outcome),
            ids_unique(final(self)@.processed),
            outcomes_sealed(final(self)@.processed),
    {
        proof { use_type_invariant(&*self); }
        let id = command.command_id();
        let entry = ReadinessEntry { command_id: id, content_digest: content, outcome: copy_outcome(outcome) };
        let mut ps: Vec<ReadinessEntry> = Vec::new();
        std::mem::swap(&mut ps, &mut self.processed);
        proof {
            let old_ps = ps@;
            assert forall|i: int, j: int|
                0 <= i < old_ps.push(entry).len() && 0 <= j < old_ps.push(entry).len() && i != j
                implies (#[trigger] old_ps.push(entry)[i]).command_id.0@ != (#[trigger] old_ps.push(entry)[j]).command_id.0@ by {
                if i < old_ps.len() && j < old_ps.len() {
                    assert(old_ps.push(entry)[i] == old_ps[i]);
                    assert(old_ps.push(entry)[j] == old_ps[j]);
                } else if i < old_ps.len() {
                    assert(old_ps.push(entry)[i] == old_ps[i]);
                    assert(old_ps[i].command_id.0@ != id.0@);
                } else {
                    assert(old_ps.push(entry)[j] == old_ps[j]);
                    assert(old_ps[j].command_id.0@ != id.0@);
                }
            }
        }
        ps.push(entry);
        self.processed = ps;
        self.accepted_commands = self.accepted_commands + 1;
        self.last_recorded_at_ns = Some(command.recorded_at_ns());
        assert(self@.processed.take(old(self)@.processed.len() as int) =~= old(self)@.processed);
        proof { use_type_invariant(&*self); }
    }

    /// Applies one readiness command: a replay returns the remembered outcome;
    /// a chronology, identity, evidence, decision, lifecycle or arithmetic
    /// failure halts the owner for good.
    pub fn apply(&mut self, command: &ReadinessCommand) -> (r: Result<ReadinessOutcome, Error>)
        ensures
            apply_spec(old(self)@, *command, final(self)@, r),
            r matches Ok(o) ==> outcome_sealed(o),
            ids_unique(final(self)@.processed),
            outcomes_sealed(final(self)@.processed),
    {
        proof { use_type_invariant(&*self); }
        if let Some(reason) = &self.halted {
            return Err(Error::Halted(reason.clone()));
        }
        let at = command.recorded_at_ns();
        let regressed = match self.last_recorded_at_ns {
            Some(prev) => at < prev,
            None => false,
        };
        if at < 0 || regressed {
            return self.halt(Error::Timestamp);
        }
        let bytes = match encode_command(command) {
            Ok(b) => b,
            Err(e) => {
                return Err(e);
            },
        };
        let content = blake3_digest(bytes.as_slice());
        let id = command.command_id();
        if let Some(i) = self.lookup(&id) {
            if digest_eq(&self.processed[i].content_digest, &content) {
                return Ok(copy_outcome(&self.processed[i].outcome));
            }
            return self.halt(Error::IdempotencyConflict);
        }
        let ghost v0 = self@;
        let (p, detail) = match self.plan(command) {
            Ok(x) => x,
            Err(e) => {
                proof {
                    assert(fresh_spec(v0, *command, v0, Err(e)));
                }
                return self.halt(e);
            },
        };
        let ghost mid = commit_spec(v0, p);
        proof {
            assert(fresh_spec(v0, *command, mid, Ok(detail)));
        }
        if self.accepted_commands == u64::MAX {
            return Err(Error::Overflow);
        }
        self.commit(p);
        let mut outcome = ReadinessOutcome { command_id: id, detail, outcome_digest: [0u8; 32] };
        outcome = outcome.sealed();
        self.bookkeep(command, content, &outcome);
        Ok(outcome)
    }

    fn state_digest(&self) -> (r: [u8; 32])
        ensures
            r@ == state_digest_spec(self@),
    {
        let mut body: Vec<u8> = Vec::new();
        let ghost v = self@;
        self.policy.encode_into(&mut body);
        self.candidate.encode_into(&mut body);
        self.decisions.encode_into(&mut body);
        self.record.encode_into(&mut body);
        let ghost a1 = v.policy.canon() + v.candidate.canon() + v.decisions.canon() + v.record.canon();
        assert(body@ =~= a1);
        self.processed.encode_into(&mut body);
        let ghost a2 = a1 + le_bytes(v.processed.len(), 8) + crate::digest::seq_canon(v.processed);
        assert(body@ =~= a2);
        push_le(&mut body, self.accepted_commands as u128, 8);
        self.last_recorded_at_ns.encode_into(&mut body);
        self.halted.encode_into(&mut body);
        assert(self.halted.canon() == text_canon(v.halted));
        assert(body@ =~= a2 + le_bytes(v.accepted_commands as nat, 8) + v.last_recorded_at_ns.canon() + text_canon(v.halted));
        assert(body@ =~= state_canon(v));
        digest_domain("production-change-readiness-state-v1".as_bytes(), body.as_slice())
    }

    /// The observable state, with its digest.
    pub fn snapshot(&self) -> (s: ReadinessSnapshot)
        ensures
            s.accepted_commands == self@.accepted_commands,
            s.candidate_id == (match self@.candidate {
                Some(c) => Some(c.candidate_id),
                None => None::<[u8; 32]>,
            }),
            s.decision_count == decision_count(self@.decisions),
            s.last_record is Some == self@.record is Some,
            s.last_record is Some ==> same_record(s.last_record->0, self@.record->0),
            s.halted == (self@.halted is Some),
            text_view(s.halt_reason) == self@.halted,
            s.digest@ == state_digest_spec(self@),
    {
        let mut count: usize = 0;
        if self.decisions.release.is_some() {
            count = count + 1;
        }
        if self.decisions.risk.is_some() {
            count = count + 1;
        }
        if self.decisions.operations.is_some() {
            count = count + 1;
        }
        ReadinessSnapshot {
            accepted_commands: self.accepted_commands,
            candidate_id: match &self.candidate {
                Some(c) => Some(c.candidate_id),
                None => None,
            },
            decision_count: count,
            last_record: match &self.record {
                Some(r) => Some(copy_record(r)),
                None => None,
            },
            halted: self.halted.is_some(),
            halt_reason: self.halted.clone(),
            digest: self.state_digest(),
        }
    }
}

/// A halted owner is absorbing: every command is refused with the recorded
/// reason and changes nothing.
pub proof fn law_halted_readiness_absorbs(old: ReadinessView, cmd: ReadinessCommand, new: ReadinessView, r: Result<ReadinessOutcome, Error>)
    requires
        apply_spec(old, cmd, new, r),
        old.halted is Some,
    ensures
        new == old,
        r matches Err(Error::Halted(s)) && s@ == old.halted->0,
{
}

/// Replaying an accepted command returns the same outcome and changes nothing.
pub proof fn law_readiness_replay_is_idempotent(
    s0: ReadinessView,
    cmd: ReadinessCommand,
    s1: ReadinessView,
    o1: ReadinessOutcome,
    s2: ReadinessView,
    r2: Result<ReadinessOutcome, Error>,
)
    requires
        ids_unique(s1.processed),
        apply_spec(s0, cmd, s1, Ok(o1)),
        apply_spec(s1, cmd, s2, r2),
    ensures
        s2 == s1,
        r2 matches Ok(o2) && same_outcome(o2, o1),
{
    let id = cmd.id_of();
    if !remembers(s0.processed, id) {
        let last = s1.processed.len() - 1;
        assert(s1.processed[last].command_id.0@ == id.0@);
        assert(remembers(s1.processed, id));
        let k = choose|k: int| 0 <= k < s1.processed.len() && (#[trigger] s1.processed[k]).command_id.0@ == id.0@;
        if k != last {
            assert(s1.processed[k].command_id.0@ != s1.processed[last].command_id.0@);
        }
    }
}

/// Applying a command never forgets or rewrites a remembered command: what
/// was remembered before the call is a prefix of what is remembered after it.
pub proof fn law_readiness_remembers_forever(old: ReadinessView, cmd: ReadinessCommand, new: ReadinessView, r: Result<ReadinessOutcome, Error>)
    requires
        apply_spec(old, cmd, new, r),
    ensures
        old.processed.len() <= new.processed.len(),
        new.processed.take(old.processed.len() as int) == old.processed,
{
    assert(old.processed.take(old.processed.len() as int) =~= old.processed);
}

/// A command id is answered from memory for as long as the owner runs: once a
/// call of `first` has returned `o1`, a later call with the same id on any
/// later running state that still remembers what was remembered then (see
/// `law_readiness_remembers_forever`) returns the same outcome and changes
/// nothing when its content digest is the same, and halts on an idempotency
/// conflict when it is not.
pub proof fn law_readiness_answers_from_memory(
    s0: ReadinessView,
    first: ReadinessCommand,
    s1: ReadinessView,
    o1: ReadinessOutcome,
    later: ReadinessView,
    cmd: ReadinessCommand,
    s2: ReadinessView,
    r2: Result<ReadinessOutcome, Error>,
)
    requires
        apply_spec(s0, first, s1, Ok(o1)),
        s1.processed.len() <= later.processed.len(),
        later.processed.take(s1.processed.len() as int) == s1.processed,
        ids_unique(later.processed),
        later.halted is None,
        cmd.id_of() == first.id_of(),
        cmd.recorded_at() >= 0,
        !(later.last_recorded_at_ns matches Some(prev) && cmd.recorded_at() < prev),
        wire_bytes(cmd).len() <= MAX_COMMAND_BYTES,
        apply_spec(later, cmd, s2, r2),
    ensures
        command_digest(cmd) == command_digest(first) ==> s2 == later && (r2 matches Ok(o2) && same_outcome(o2, o1)),
        wire_bytes(cmd) == wire_bytes(first) ==> s2 == later && (r2 matches Ok(o2) && same_outcome(o2, o1)),
        command_digest(cmd) != command_digest(first) ==> r2 == Err::<ReadinessOutcome, Error>(Error::IdempotencyConflict)
            && halted_with(later, s2, Error::IdempotencyConflict),
{
    let k = lemma_readiness_answer_is_remembered(s0, first, s1, o1);
    let id = first.id_of();
    assert(later.processed[k] == s1.processed[k]);
    assert(remembers(later.processed, id));
    let j = choose|j: int| 0 <= j < later.processed.len() && (#[trigger] later.processed[j]).command_id.0@ == id.0@;
    if j != k {
        assert(later.processed[j].command_id.0@ != later.processed[k].command_id.0@);
    }
}

/// Where the answer to an accepted call is remembered.
proof fn lemma_readiness_answer_is_remembered(s0: ReadinessView, first: ReadinessCommand, s1: ReadinessView, o1: ReadinessOutcome) -> (k: int)
    requires
        apply_spec(s0, first, s1, Ok(o1)),
    ensures
        0 <= k < s1.processed.len(),
        s1.processed[k].command_id.0@ == first.id_of().0@,
        s1.processed[k].content_digest@ == command_digest(first),
        same_outcome(o1, s1.processed[k].outcome),
{
    let id = first.id_of();
    if remembers(s0.processed, id) {
        choose|k: int| 0 <= k < s0.processed.len() && (#[trigger] s0.processed[k]).command_id.0@ == id.0@
    } else {
        s1.processed.len() - 1
    }
}

/// Changing only the digest of a sealed record breaks its seal, so a stored or
/// replayed record whose digest was altered no longer verifies.
pub proof fn law_record_seal_detects_a_changed_digest(rec: ProductionReadinessRecord, forged: [u8; 32])
    requires
        record_sealed(rec),
        forged@ != rec.record_digest@,
    ensures
        !record_sealed(ProductionReadinessRecord { record_digest: forged, ..rec }),
{
    let f = ProductionReadinessRecord { record_digest: forged, ..rec };
    assert(production_readiness_record_body(&f) == production_readiness_record_body(&rec));
}

/// A command that fails either changes nothing or halts with its error's
/// reason; a candidate, decision or record is never partly installed.
pub proof fn law_readiness_failure_installs_nothing(old: ReadinessView, cmd: ReadinessCommand, new: ReadinessView, e: Error)
    requires
        apply_spec(old, cmd, new, Err(e)),
    ensures
        new == old || (halting(e) && halted_with(old, new, e)),
        new.candidate == old.candidate,
        new.decisions == old.decisions,
        new.record == old.record,
{
}

/// A freshly finalized record never grants authority, always requires an
/// operator to execute, and is ready exactly when no reason stands.
pub proof fn law_readiness_record_never_authorizes(old: ReadinessView, cmd: ReadinessCommand, new: ReadinessView, o: ReadinessOutcome)
    requires
        apply_spec(old, cmd, new, Ok(o)),
        !remembers(old.processed, cmd.id_of()),
        o.detail is Finalized,
    ensures
        ({
            let rec = *o.detail->Finalized_0;
            &&& rec.operator_execution_required
            &&& !rec.credential_material_created
            &&& !rec.authentication_authority_granted
            &&& !rec.deployment_authority_granted
            &&& !rec.rollback_execution_authority_granted
            &&& !rec.traffic_authority_granted
            &&& !rec.cloud_control_authority_granted
            &&& !rec.live_trading_authority_granted
            &&& (rec.status == ReadinessStatus::ProductionChangeReady <==> rec.reasons@.len() == 0)
            &&& rec.record_digest@ == record_digest_spec(rec)
        }),
{
}

pub open spec fn evidence_summary_canon_0(v: &EvidenceSummary) -> Seq<u8> {
    v.evidence_id.canon() + v.campaign_id.canon() + v.evaluated_at_ns.canon() + v.reviewable.canon() + v.completed_case_count.canon() + v.restart_reconstruction_count.canon() + v.approval_set_count.canon()
}

fn evidence_summary_encode_0(v: &EvidenceSummary, out: &mut Vec<u8>)
    ensures
        final(out)@ == old(out)@ + evidence_summary_canon_0(v),
{
    let ghost start = out@;
    v.evidence_id.encode_into(out);
    v.campaign_id.encode_into(out);
    v.evaluated_at_ns.encode_into(out);
    v.reviewable.encode_into(out);
    v.completed_case_count.encode_into(out);
    v.restart_reconstruction_count.encode_into(out);
    v.approval_set_count.encode_into(out);
    assert(out@ =~= start + evidence_summary_canon_0(v));
}

pub open spec fn evidence_summary_canon_1(v: &EvidenceSummary) -> Seq<u8> {
    v.manifest_digest.canon() + v.case_schedule_digest.canon() + v.case_result_chain_digest.canon() + v.plan_digests.canon()
}

fn evidence_summary_encode_1(v: &EvidenceSummary, out: &mut Vec<u8>)
    ensures
        final(out)@ == old(out)@ + evidence_summary_canon_1(v),
{
    let ghost start = out@;
    v.manifest_digest.encode_into(out);
    v.case_schedule_digest.encode_into(out);
    v.case_result_chain_digest.encode_into(out);
    v.plan_digests.encode_into(out);
    assert(out@ =~= start + evidence_summary_canon_1(v));
}

impl Canonical for EvidenceSummary {
    open spec fn canon(&self) -> Seq<u8> {
        evidence_summary_canon_0(self) + evidence_summary_canon_1(self)
    }

    fn encode_into(&self, out: &mut Vec<u8>) {
        let ghost start = out@;
        evidence_summary_encode_0(self, out);
        evidence_summary_encode_1(self, out);
        assert(out@ =~= start + self.canon());
    }
}

impl Canonical for DecisionSlots {
    open spec fn canon(&self) -> Seq<u8> {
        self.release.canon() + self.risk.canon() + self.operations.canon()
    }

    fn encode_into(&self, out: &mut Vec<u8>) {
        let ghost start = out@;
        self.release.encode_into(out);
        self.risk.encode_into(out);
        self.operations.encode_into(out);
        assert(out@ =~= start + self.canon());
    }
}

impl Canonical for StoredCandidate {
    open spec fn canon(&self) -> Seq<u8> {
        self.candidate_id.canon() + self.created_at_ns.canon() + self.expires_at_ns.canon() + self.candidate_digest.canon() + self.subject_digest.canon() + self.baseline.canon() + self.evidence.canon()
    }

    fn encode_into(&self, out: &mut Vec<u8>) {
        let ghost start = out@;
        self.candidate_id.encode_into(out);
        self.created_at_ns.encode_into(out);
        self.expires_at_ns.encode_into(out);
        self.candidate_digest.encode_into(out);
        self.subject_digest.encode_into(out);
        self.baseline.encode_into(out);
        self.evidence.encode_into(out);
        assert(out@ =~= start + self.canon());
    }
}

impl Canonical for ReadinessEntry {
    open spec fn canon(&self) -> Seq<u8> {
        self.command_id.canon() + self.content_digest.canon() + self.outcome.canon()
    }

    fn encode_into(&self, out: &mut Vec<u8>) {
        let ghost start = out@;
        self.command_id.encode_into(out);
        self.content_digest.encode_into(out);
        self.outcome.encode_into(out);
        assert(out@ =~= start + self.canon());
    }
}

} // verus!
