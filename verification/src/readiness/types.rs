//! Values of production-change readiness: policy, baseline, subject,
//! campaign evidence, candidate, decisions, commands and the record.

use vstd::prelude::*;
use crate::digest::Canonical;

verus! {

/// Identity of one readiness command.
#[derive(Clone, Copy, Debug, PartialEq, Eq)]
pub struct ReadinessCommandId(pub [u8; 32]);

/// Bounds, diversity minimums, retention and windows of a readiness owner.
#[derive(Clone, Copy, Debug, PartialEq, Eq)]
pub struct ProductionReadinessPolicy {
    pub maximum_evidence_records: usize,
    pub minimum_eligible_campaigns: usize,
    pub minimum_manifest_diversity: usize,
    pub minimum_schedule_diversity: usize,
    pub minimum_result_chain_diversity: usize,
    pub minimum_plan_diversity: usize,
    pub minimum_case_count: usize,
    pub minimum_independent_plan_count: usize,
    pub minimum_restart_count: usize,
    pub minimum_approval_set_count: usize,
    pub retention_basis_points: u16,
    pub maximum_evidence_age_ns: i64,
    pub maximum_candidate_age_ns: i64,
    pub maximum_decision_age_ns: i64,
}

/// Counts of the last accepted production change that must be retained.
#[derive(Clone, Copy, Debug, PartialEq, Eq)]
pub struct ReadinessBaseline {
    pub campaign_count: usize,
    pub case_count: usize,
    pub independent_plan_count: usize,
    pub restart_count: usize,
    pub approval_set_count: usize,
    pub baseline_digest: [u8; 32],
}

/// What is being changed in production, with sorted digest sets.
#[derive(Clone, Debug, PartialEq, Eq)]
pub struct ProductionChangeSubject {
    pub release_digest: [u8; 32],
    pub binary_digest: [u8; 32],
    pub configuration_digest: [u8; 32],
    pub infrastructure_digest: [u8; 32],
    pub observability_digest: [u8; 32],
    pub plan_digests: Vec<[u8; 32]>,
    pub certificate_digests: Vec<[u8; 32]>,
    pub preflight_report_digests: Vec<[u8; 32]>,
    pub rollback_package_digests: Vec<[u8; 32]>,
    pub subject_digest: [u8; 32],
}

/// Verdict of one deployment-change campaign.
#[derive(Clone, Copy, Debug, PartialEq, Eq, Structural)]
pub enum CampaignEvidenceStatus {
    OperatorReviewEligible,
    NotEligible,
}

/// The evidence of one deployment-change campaign, as readiness reads it.
/// Reason kinds are numeric codes; the two scenario flags say whether the
/// required and covered scenario lists are each the complete list.
#[derive(Clone, Debug, PartialEq, Eq)]
pub struct ChangeCampaignEvidence {
    pub evidence_id: [u8; 32],
    pub campaign_id: [u8; 32],
    pub manifest_digest: [u8; 32],
    pub evaluated_at_ns: i64,
    pub status: CampaignEvidenceStatus,
    pub reasons: Vec<u16>,
    pub required_scenarios_complete: bool,
    pub covered_scenarios_complete: bool,
    pub case_count: usize,
    pub completed_case_count: usize,
    pub independent_plan_count: usize,
    pub case_schedule_digest: [u8; 32],
    pub case_result_chain_digest: [u8; 32],
    pub restart_reconstruction_count: usize,
    pub approval_set_count: usize,
    pub plan_digests: Vec<[u8; 32]>,
    pub certificate_digests: Vec<[u8; 32]>,
    pub preflight_report_digests: Vec<[u8; 32]>,
    pub rollback_package_digests: Vec<[u8; 32]>,
    pub operator_decision_required: bool,
    pub credential_material_created: bool,
    pub authentication_authority_granted: bool,
    pub deployment_authority_granted: bool,
    pub rollback_execution_authority_granted: bool,
    pub traffic_authority_granted: bool,
    pub cloud_control_authority_granted: bool,
    pub live_trading_authority_granted: bool,
    pub evidence_digest: [u8; 32],
}

/// One production-change candidate with its evidence, baseline and subject.
#[derive(Clone, Debug, PartialEq, Eq)]
pub struct ProductionReadinessCandidate {
    pub candidate_id: [u8; 32],
    pub created_at_ns: i64,
    pub expires_at_ns: i64,
    pub evidence: Vec<ChangeCampaignEvidence>,
    pub baseline: ReadinessBaseline,
    pub subject: ProductionChangeSubject,
    pub policy_digest: [u8; 32],
    pub candidate_digest: [u8; 32],
}

/// The three roles whose sign-off readiness needs, in this order.
#[derive(Clone, Copy, Debug, PartialEq, Eq, Structural)]
pub enum DecisionRole {
    Release,
    Risk,
    Operations,
}

#[derive(Clone, Copy, Debug, PartialEq, Eq, Structural)]
pub enum DecisionValue {
    Approve,
    Reject,
}

/// One operator's sealed decision on a candidate.
#[derive(Clone, Copy, Debug, PartialEq, Eq)]
pub struct ReadinessDecision {
    pub decision_id: [u8; 32],
    pub candidate_id: [u8; 32],
    pub candidate_digest: [u8; 32],
    pub subject_digest: [u8; 32],
    pub role: DecisionRole,
    pub operator_id: [u8; 32],
    pub value: DecisionValue,
    pub decided_at_ns: i64,
    pub valid_until_ns: i64,
    pub decision_digest: [u8; 32],
}

#[derive(Clone, Copy, Debug, PartialEq, Eq, Structural)]
pub enum ReadinessStatus {
    ProductionChangeReady,
    NotReady,
}

/// Why a candidate is not ready; listed in this order.
#[derive(Clone, Copy, Debug, PartialEq, Eq, Structural)]
pub enum ReadinessReason {
    CandidateExpired,
    DuplicateEvidence,
    DuplicateCampaign,
    EvidenceIneligible,
    EvidenceStale,
    EligibleCampaignFloor,
    ManifestDiversity,
    ScheduleDiversity,
    ResultChainDiversity,
    PlanDiversity,
    CampaignRegression,
    CaseRegression,
    IndependentPlanRegression,
    RestartRegression,
    ApprovalSetRegression,
    DecisionMissing(DecisionRole),
    DecisionRejected(DecisionRole),
    DecisionExpired(DecisionRole),
    OperatorsNotDistinct,
}

/// The final, non-authorizing readiness record of a candidate.
#[derive(Clone, Debug, PartialEq, Eq)]
pub struct ProductionReadinessRecord {
    pub record_id: [u8; 32],
    pub candidate_id: [u8; 32],
    pub candidate_digest: [u8; 32],
    pub subject_digest: [u8; 32],
    pub finalized_at_ns: i64,
    pub status: ReadinessStatus,
    pub reasons: Vec<ReadinessReason>,
    pub eligible_campaign_count: usize,
    pub case_count: usize,
    pub independent_plan_count: usize,
    pub restart_count: usize,
    pub approval_set_count: usize,
    pub manifest_diversity: usize,
    pub schedule_diversity: usize,
    pub result_chain_diversity: usize,
    pub plan_diversity: usize,
    pub regression_campaign_floor: usize,
    pub regression_case_floor: usize,
    pub regression_independent_plan_floor: usize,
    pub regression_restart_floor: usize,
    pub regression_approval_set_floor: usize,
    pub operator_execution_required: bool,
    pub credential_material_created: bool,
    pub authentication_authority_granted: bool,
    pub deployment_authority_granted: bool,
    pub rollback_execution_authority_granted: bool,
    pub traffic_authority_granted: bool,
    pub cloud_control_authority_granted: bool,
    pub live_trading_authority_granted: bool,
    pub record_digest: [u8; 32],
}

#[derive(Clone, Debug, PartialEq, Eq)]
pub enum ReadinessCommand {
    Register { command_id: ReadinessCommandId, candidate: Box<ProductionReadinessCandidate>, recorded_at_ns: i64 },
    RecordDecision { command_id: ReadinessCommandId, decision: ReadinessDecision, recorded_at_ns: i64 },
    Finalize { command_id: ReadinessCommandId, candidate_id: [u8; 32], record_id: [u8; 32], evaluated_at_ns: i64, recorded_at_ns: i64 },
}

impl ReadinessCommand {
    pub open spec fn id_of(&self) -> ReadinessCommandId {
        match self {
            ReadinessCommand::Register { command_id, .. } => *command_id,
            ReadinessCommand::RecordDecision { command_id, .. } => *command_id,
            ReadinessCommand::Finalize { command_id, .. } => *command_id,
        }
    }

    pub open spec fn recorded_at(&self) -> i64 {
        match self {
            ReadinessCommand::Register { recorded_at_ns, .. } => *recorded_at_ns,
            ReadinessCommand::RecordDecision { recorded_at_ns, .. } => *recorded_at_ns,
            ReadinessCommand::Finalize { recorded_at_ns, .. } => *recorded_at_ns,
        }
    }

    pub fn command_id(&self) -> (r: ReadinessCommandId)
        ensures
            r == self.id_of(),
    {
        match self {
            ReadinessCommand::Register { command_id, .. } => *command_id,
            ReadinessCommand::RecordDecision { command_id, .. } => *command_id,
            ReadinessCommand::Finalize { command_id, .. } => *command_id,
        }
    }

    pub fn recorded_at_ns(&self) -> (r: i64)
        ensures
            r == self.recorded_at(),
    {
        match self {
            ReadinessCommand::Register { recorded_at_ns, .. } => *recorded_at_ns,
            ReadinessCommand::RecordDecision { recorded_at_ns, .. } => *recorded_at_ns,
            ReadinessCommand::Finalize { recorded_at_ns, .. } => *recorded_at_ns,
        }
    }
}

/// What an accepted command did.
#[derive(Clone, Debug, PartialEq, Eq)]
pub enum ReadinessDetail {
    Registered,
    DecisionRecorded(DecisionRole),
    Finalized(Box<ProductionReadinessRecord>),
}

/// The sealed answer to one accepted command.
#[derive(Clone, Debug, PartialEq, Eq)]
pub struct ReadinessOutcome {
    pub command_id: ReadinessCommandId,
    pub detail: ReadinessDetail,
    pub outcome_digest: [u8; 32],
}

#[derive(Clone, Debug, PartialEq, Eq)]
pub enum Error {
    Config,
    Timestamp,
    CommandBound,
    Json(String),
    Version(u16),
    IdempotencyConflict,
    Candidate,
    Evidence,
    Decision,
    Record,
    Finalized,
    Overflow,
    Halted(String),
}

impl Canonical for ReadinessCommandId {
    open spec fn canon(&self) -> Seq<u8> {
        self.0.canon()
    }

    fn encode_into(&self, out: &mut Vec<u8>) {
        let ghost start = out@;
        self.0.encode_into(out);
        assert(out@ =~= start + self.canon());
    }
}

pub open spec fn production_readiness_policy_canon_0(v: &ProductionReadinessPolicy) -> Seq<u8> {
    v.maximum_evidence_records.canon() + v.minimum_eligible_campaigns.canon() + v.minimum_manifest_diversity.canon() + v.minimum_schedule_diversity.canon() + v.minimum_result_chain_diversity.canon() + v.minimum_plan_diversity.canon() + v.minimum_case_count.canon()
}

fn production_readiness_policy_encode_0(v: &ProductionReadinessPolicy, out: &mut Vec<u8>)
    ensures
        final(out)@ == old(out)@ + production_readiness_policy_canon_0(v),
{
    let ghost start = out@;
    v.maximum_evidence_records.encode_into(out);
    v.minimum_eligible_campaigns.encode_into(out);
    v.minimum_manifest_diversity.encode_into(out);
    v.minimum_schedule_diversity.encode_into(out);
    v.minimum_result_chain_diversity.encode_into(out);
    v.minimum_plan_diversity.encode_into(out);
    v.minimum_case_count.encode_into(out);
    assert(out@ =~= start + production_readiness_policy_canon_0(v));
}

pub open spec fn production_readiness_policy_canon_1(v: &ProductionReadinessPolicy) -> Seq<u8> {
    v.minimum_independent_plan_count.canon() + v.minimum_restart_count.canon() + v.minimum_approval_set_count.canon() + v.retention_basis_points.canon() + v.maximum_evidence_age_ns.canon() + v.maximum_candidate_age_ns.canon() + v.maximum_decision_age_ns.canon()
}

fn production_readiness_policy_encode_1(v: &ProductionReadinessPolicy, out: &mut Vec<u8>)
    ensures
        final(out)@ == old(out)@ + production_readiness_policy_canon_1(v),
{
    let ghost start = out@;
    v.minimum_independent_plan_count.encode_into(out);
    v.minimum_restart_count.encode_into(out);
    v.minimum_approval_set_count.encode_into(out);
    v.retention_basis_points.encode_into(out);
    v.maximum_evidence_age_ns.encode_into(out);
    v.maximum_candidate_age_ns.encode_into(out);
    v.maximum_decision_age_ns.encode_into(out);
    assert(out@ =~= start + production_readiness_policy_canon_1(v));
}

impl Canonical for ProductionReadinessPolicy {
    open spec fn canon(&self) -> Seq<u8> {
        production_readiness_policy_canon_0(self) + production_readiness_policy_canon_1(self)
    }

    fn encode_into(&self, out: &mut Vec<u8>) {
        let ghost start = out@;
        production_readiness_policy_encode_0(self, out);
        production_readiness_policy_encode_1(self, out);
        assert(out@ =~= start + self.canon());
    }
}

pub open spec fn readiness_baseline_body_0(v: &ReadinessBaseline) -> Seq<u8> {
    v.campaign_count.canon() + v.case_count.canon() + v.independent_plan_count.canon() + v.restart_count.canon() + v.approval_set_count.canon()
}

fn readiness_baseline_encode_body_0(v: &ReadinessBaseline, out: &mut Vec<u8>)
    ensures
        final(out)@ == old(out)@ + readiness_baseline_body_0(v),
{
    let ghost start = out@;
    v.campaign_count.encode_into(out);
    v.case_count.encode_into(out);
    v.independent_plan_count.encode_into(out);
    v.restart_count.encode_into(out);
    v.approval_set_count.encode_into(out);
    assert(out@ =~= start + readiness_baseline_body_0(v));
}

/// The encoding of every field but the digest.
pub open spec fn readiness_baseline_body(v: &ReadinessBaseline) -> Seq<u8> {
    readiness_baseline_body_0(v)
}

pub fn readiness_baseline_encode_body(v: &ReadinessBaseline, out: &mut Vec<u8>)
    ensures
        final(out)@ == old(out)@ + readiness_baseline_body(v),
{
    let ghost start = out@;
    readiness_baseline_encode_body_0(v, out);
    assert(out@ =~= start + readiness_baseline_body(v));
}

impl Canonical for ReadinessBaseline {
    open spec fn canon(&self) -> Seq<u8> {
        readiness_baseline_body(self) + self.baseline_digest.canon()
    }

    fn encode_into(&self, out: &mut Vec<u8>) {
        let ghost start = out@;
        readiness_baseline_encode_body(self, out);
        self.baseline_digest.encode_into(out);
        assert(out@ =~= start + self.canon());
    }
}

pub open spec fn production_change_subject_body_0(v: &ProductionChangeSubject) -> Seq<u8> {
    v.release_digest.canon() + v.binary_digest.canon() + v.configuration_digest.canon() + v.infrastructure_digest.canon() + v.observability_digest.canon() + v.plan_digests.canon() + v.certificate_digests.canon()
}

fn production_change_subject_encode_body_0(v: &ProductionChangeSubject, out: &mut Vec<u8>)
    ensures
        final(out)@ == old(out)@ + production_change_subject_body_0(v),
{
    let ghost start = out@;
    v.release_digest.encode_into(out);
    v.binary_digest.encode_into(out);
    v.configuration_digest.encode_into(out);
    v.infrastructure_digest.encode_into(out);
    v.observability_digest.encode_into(out);
    v.plan_digests.encode_into(out);
    v.certificate_digests.encode_into(out);
    assert(out@ =~= start + production_change_subject_body_0(v));
}

pub open spec fn production_change_subject_body_1(v: &ProductionChangeSubject) -> Seq<u8> {
    v.preflight_report_digests.canon() + v.rollback_package_digests.canon()
}

fn production_change_subject_encode_body_1(v: &ProductionChangeSubject, out: &mut Vec<u8>)
    ensures
        final(out)@ == old(out)@ + production_change_subject_body_1(v),
{
    let ghost start = out@;
    v.preflight_report_digests.encode_into(out);
    v.rollback_package_digests.encode_into(out);
    assert(out@ =~= start + production_change_subject_body_1(v));
}

/// The encoding of every field but the digest.
pub open spec fn production_change_subject_body(v: &ProductionChangeSubject) -> Seq<u8> {
    production_change_subject_body_0(v) + production_change_subject_body_1(v)
}

pub fn production_change_subject_encode_body(v: &ProductionChangeSubject, out: &mut Vec<u8>)
    ensures
        final(out)@ == old(out)@ + production_change_subject_body(v),
{
    let ghost start = out@;
    production_change_subject_encode_body_0(v, out);
    production_change_subject_encode_body_1(v, out);
    assert(out@ =~= start + production_change_subject_body(v));
}

impl Canonical for ProductionChangeSubject {
    open spec fn canon(&self) -> Seq<u8> {
        production_change_subject_body(self) + self.subject_digest.canon()
    }

    fn encode_into(&self, out: &mut Vec<u8>) {
        let ghost start = out@;
        production_change_subject_encode_body(self, out);
        self.subject_digest.encode_into(out);
        assert(out@ =~= start + self.canon());
    }
}

impl Canonical for CampaignEvidenceStatus {
    open spec fn canon(&self) -> Seq<u8> {
        match self {
            CampaignEvidenceStatus::OperatorReviewEligible => seq![0u8],
            CampaignEvidenceStatus::NotEligible => seq![1u8],
        }
    }

    fn encode_into(&self, out: &mut Vec<u8>) {
        let ghost start = out@;
        match self {
            CampaignEvidenceStatus::OperatorReviewEligible => {
                out.push(0u8);
            },
            CampaignEvidenceStatus::NotEligible => {
                out.push(1u8);
            },
        }
        assert(out@ =~= start + self.canon());
    }
}

pub open spec fn change_campaign_evidence_body_0(v: &ChangeCampaignEvidence) -> Seq<u8> {
    v.evidence_id.canon() + v.campaign_id.canon() + v.manifest_digest.canon() + v.evaluated_at_ns.canon() + v.status.canon() + v.reasons.canon() + v.required_scenarios_complete.canon()
}

fn change_campaign_evidence_encode_body_0(v: &ChangeCampaignEvidence, out: &mut Vec<u8>)
    ensures
        final(out)@ == old(out)@ + change_campaign_evidence_body_0(v),
{
    let ghost start = out@;
    v.evidence_id.encode_into(out);
    v.campaign_id.encode_into(out);
    v.manifest_digest.encode_into(out);
    v.evaluated_at_ns.encode_into(out);
    v.status.encode_into(out);
    v.reasons.encode_into(out);
    v.required_scenarios_complete.encode_into(out);
    assert(out@ =~= start + change_campaign_evidence_body_0(v));
}

pub open spec fn change_campaign_evidence_body_1(v: &ChangeCampaignEvidence) -> Seq<u8> {
    v.covered_scenarios_complete.canon() + v.case_count.canon() + v.completed_case_count.canon() + v.independent_plan_count.canon() + v.case_schedule_digest.canon() + v.case_result_chain_digest.canon() + v.restart_reconstruction_count.canon()
}

fn change_campaign_evidence_encode_body_1(v: &ChangeCampaignEvidence, out: &mut Vec<u8>)
    ensures
        final(out)@ == old(out)@ + change_campaign_evidence_body_1(v),
{
    let ghost start = out@;
    v.covered_scenarios_complete.encode_into(out);
    v.case_count.encode_into(out);
    v.completed_case_count.encode_into(out);
    v.independent_plan_count.encode_into(out);
    v.case_schedule_digest.encode_into(out);
    v.case_result_chain_digest.encode_into(out);
    v.restart_reconstruction_count.encode_into(out);
    assert(out@ =~= start + change_campaign_evidence_body_1(v));
}

pub open spec fn change_campaign_evidence_body_2(v: &ChangeCampaignEvidence) -> Seq<u8> {
    v.approval_set_count.canon() + v.plan_digests.canon() + v.certificate_digests.canon() + v.preflight_report_digests.canon() + v.rollback_package_digests.canon() + v.operator_decision_required.canon() + v.credential_material_created.canon()
}

fn change_campaign_evidence_encode_body_2(v: &ChangeCampaignEvidence, out: &mut Vec<u8>)
    ensures
        final(out)@ == old(out)@ + change_campaign_evidence_body_2(v),
{
    let ghost start = out@;
    v.approval_set_count.encode_into(out);
    v.plan_digests.encode_into(out);
    v.certificate_digests.encode_into(out);
    v.preflight_report_digests.encode_into(out);
    v.rollback_package_digests.encode_into(out);
    v.operator_decision_required.encode_into(out);
    v.credential_material_created.encode_into(out);
    assert(out@ =~= start + change_campaign_evidence_body_2(v));
}

pub open spec fn change_campaign_evidence_body_3(v: &ChangeCampaignEvidence) -> Seq<u8> {
    v.authentication_authority_granted.canon() + v.deployment_authority_granted.canon() + v.rollback_execution_authority_granted.canon() + v.traffic_authority_granted.canon() + v.cloud_control_authority_granted.canon() + v.live_trading_authority_granted.canon()
}

fn change_campaign_evidence_encode_body_3(v: &ChangeCampaignEvidence, out: &mut Vec<u8>)
    ensures
        final(out)@ == old(out)@ + change_campaign_evidence_body_3(v),
{
    let ghost start = out@;
    v.authentication_authority_granted.encode_into(out);
    v.deployment_authority_granted.encode_into(out);
    v.rollback_execution_authority_granted.encode_into(out);
    v.traffic_authority_granted.encode_into(out);
    v.cloud_control_authority_granted.encode_into(out);
    v.live_trading_authority_granted.encode_into(out);
    assert(out@ =~= start + change_campaign_evidence_body_3(v));
}

/// The encoding of every field but the digest.
pub open spec fn change_campaign_evidence_body(v: &ChangeCampaignEvidence) -> Seq<u8> {
    change_campaign_evidence_body_0(v) + change_campaign_evidence_body_1(v) + change_campaign_evidence_body_2(v) + change_campaign_evidence_body_3(v)
}

pub fn change_campaign_evidence_encode_body(v: &ChangeCampaignEvidence, out: &mut Vec<u8>)
    ensures
        final(out)@ == old(out)@ + change_campaign_evidence_body(v),
{
    let ghost start = out@;
    change_campaign_evidence_encode_body_0(v, out);
    change_campaign_evidence_encode_body_1(v, out);
    change_campaign_evidence_encode_body_2(v, out);
    change_campaign_evidence_encode_body_3(v, out);
    assert(out@ =~= start + change_campaign_evidence_body(v));
}

impl Canonical for ChangeCampaignEvidence {
    open spec fn canon(&self) -> Seq<u8> {
        change_campaign_evidence_body(self) + self.evidence_digest.canon()
    }

    fn encode_into(&self, out: &mut Vec<u8>) {
        let ghost start = out@;
        change_campaign_evidence_encode_body(self, out);
        self.evidence_digest.encode_into(out);
        assert(out@ =~= start + self.canon());
    }
}

pub open spec fn production_readiness_candidate_body_0(v: &ProductionReadinessCandidate) -> Seq<u8> {
    v.candidate_id.canon() + v.created_at_ns.canon() + v.expires_at_ns.canon() + v.evidence.canon() + v.baseline.canon() + v.subject.canon() + v.policy_digest.canon()
}

fn production_readiness_candidate_encode_body_0(v: &ProductionReadinessCandidate, out: &mut Vec<u8>)
    ensures
        final(out)@ == old(out)@ + production_readiness_candidate_body_0(v),
{
    let ghost start = out@;
    v.candidate_id.encode_into(out);
    v.created_at_ns.encode_into(out);
    v.expires_at_ns.encode_into(out);
    v.evidence.encode_into(out);
    v.baseline.encode_into(out);
    v.subject.encode_into(out);
    v.policy_digest.encode_into(out);
    assert(out@ =~= start + production_readiness_candidate_body_0(v));
}

/// The encoding of every field but the digest.
pub open spec fn production_readiness_candidate_body(v: &ProductionReadinessCandidate) -> Seq<u8> {
    production_readiness_candidate_body_0(v)
}

pub fn production_readiness_candidate_encode_body(v: &ProductionReadinessCandidate, out: &mut Vec<u8>)
    ensures
        final(out)@ == old(out)@ + production_readiness_candidate_body(v),
{
    let ghost start = out@;
    production_readiness_candidate_encode_body_0(v, out);
    assert(out@ =~= start + production_readiness_candidate_body(v));
}

impl Canonical for ProductionReadinessCandidate {
    open spec fn canon(&self) -> Seq<u8> {
        production_readiness_candidate_body(self) + self.candidate_digest.canon()
    }

    fn encode_into(&self, out: &mut Vec<u8>) {
        let ghost start = out@;
        production_readiness_candidate_encode_body(self, out);
        self.candidate_digest.encode_into(out);
        assert(out@ =~= start + self.canon());
    }
}

impl Canonical for DecisionRole {
    open spec fn canon(&self) -> Seq<u8> {
        match self {
            DecisionRole::Release => seq![0u8],
            DecisionRole::Risk => seq![1u8],
            DecisionRole::Operations => seq![2u8],
        }
    }

    fn encode_into(&self, out: &mut Vec<u8>) {
        let ghost start = out@;
        match self {
            DecisionRole::Release => {
                out.push(0u8);
            },
            DecisionRole::Risk => {
                out.push(1u8);
            },
            DecisionRole::Operations => {
                out.push(2u8);
            },
        }
        assert(out@ =~= start + self.canon());
    }
}

impl Canonical for DecisionValue {
    open spec fn canon(&self) -> Seq<u8> {
        match self {
            DecisionValue::Approve => seq![0u8],
            DecisionValue::Reject => seq![1u8],
        }
    }

    fn encode_into(&self, out: &mut Vec<u8>) {
        let ghost start = out@;
        match self {
            DecisionValue::Approve => {
                out.push(0u8);
            },
            DecisionValue::Reject => {
                out.push(1u8);
            },
        }
        assert(out@ =~= start + self.canon());
    }
}

pub open spec fn readiness_decision_body_0(v: &ReadinessDecision) -> Seq<u8> {
    v.decision_id.canon() + v.candidate_id.canon() + v.candidate_digest.canon() + v.subject_digest.canon() + v.role.canon() + v.operator_id.canon() + v.value.canon()
}

fn readiness_decision_encode_body_0(v: &ReadinessDecision, out: &mut Vec<u8>)
    ensures
        final(out)@ == old(out)@ + readiness_decision_body_0(v),
{
    let ghost start = out@;
    v.decision_id.encode_into(out);
    v.candidate_id.encode_into(out);
    v.candidate_digest.encode_into(out);
    v.subject_digest.encode_into(out);
    v.role.encode_into(out);
    v.operator_id.encode_into(out);
    v.value.encode_into(out);
    assert(out@ =~= start + readiness_decision_body_0(v));
}

pub open spec fn readiness_decision_body_1(v: &ReadinessDecision) -> Seq<u8> {
    v.decided_at_ns.canon() + v.valid_until_ns.canon()
}

fn readiness_decision_encode_body_1(v: &ReadinessDecision, out: &mut Vec<u8>)
    ensures
        final(out)@ == old(out)@ + readiness_decision_body_1(v),
{
    let ghost start = out@;
    v.decided_at_ns.encode_into(out);
    v.valid_until_ns.encode_into(out);
    assert(out@ =~= start + readiness_decision_body_1(v));
}

/// The encoding of every field but the digest.
pub open spec fn readiness_decision_body(v: &ReadinessDecision) -> Seq<u8> {
    readiness_decision_body_0(v) + readiness_decision_body_1(v)
}

pub fn readiness_decision_encode_body(v: &ReadinessDecision, out: &mut Vec<u8>)
    ensures
        final(out)@ == old(out)@ + readiness_decision_body(v),
{
    let ghost start = out@;
    readiness_decision_encode_body_0(v, out);
    readiness_decision_encode_body_1(v, out);
    assert(out@ =~= start + readiness_decision_body(v));
}

impl Canonical for ReadinessDecision {
    open spec fn canon(&self) -> Seq<u8> {
        readiness_decision_body(self) + self.decision_digest.canon()
    }

    fn encode_into(&self, out: &mut Vec<u8>) {
        let ghost start = out@;
        readiness_decision_encode_body(self, out);
        self.decision_digest.encode_into(out);
        assert(out@ =~= start + self.canon());
    }
}

impl Canonical for ReadinessStatus {
    open spec fn canon(&self) -> Seq<u8> {
        match self {
            ReadinessStatus::ProductionChangeReady => seq![0u8],
            ReadinessStatus::NotReady => seq![1u8],
        }
    }

    fn encode_into(&self, out: &mut Vec<u8>) {
        let ghost start = out@;
        match self {
            ReadinessStatus::ProductionChangeReady => {
                out.push(0u8);
            },
            ReadinessStatus::NotReady => {
                out.push(1u8);
            },
        }
        assert(out@ =~= start + self.canon());
    }
}

impl Canonical for ReadinessReason {
    open spec fn canon(&self) -> Seq<u8> {
        match self {
            ReadinessReason::CandidateExpired => seq![0u8],
            ReadinessReason::DuplicateEvidence => seq![1u8],
            ReadinessReason::DuplicateCampaign => seq![2u8],
            ReadinessReason::EvidenceIneligible => seq![3u8],
            ReadinessReason::EvidenceStale => seq![4u8],
            ReadinessReason::EligibleCampaignFloor => seq![5u8],
            ReadinessReason::ManifestDiversity => seq![6u8],
            ReadinessReason::ScheduleDiversity => seq![7u8],
            ReadinessReason::ResultChainDiversity => seq![8u8],
            ReadinessReason::PlanDiversity => seq![9u8],
            ReadinessReason::CampaignRegression => seq![10u8],
            ReadinessReason::CaseRegression => seq![11u8],
            ReadinessReason::IndependentPlanRegression => seq![12u8],
            ReadinessReason::RestartRegression => seq![13u8],
            ReadinessReason::ApprovalSetRegression => seq![14u8],
            ReadinessReason::DecisionMissing(f0) => seq![15u8] + f0.canon(),
            ReadinessReason::DecisionRejected(f0) => seq![16u8] + f0.canon(),
            ReadinessReason::DecisionExpired(f0) => seq![17u8] + f0.canon(),
            ReadinessReason::OperatorsNotDistinct => seq![18u8],
        }
    }

    fn encode_into(&self, out: &mut Vec<u8>) {
        let ghost start = out@;
        match self {
            ReadinessReason::CandidateExpired => {
                out.push(0u8);
            },
            ReadinessReason::DuplicateEvidence => {
                out.push(1u8);
            },
            ReadinessReason::DuplicateCampaign => {
                out.push(2u8);
            },
            ReadinessReason::EvidenceIneligible => {
                out.push(3u8);
            },
            ReadinessReason::EvidenceStale => {
                out.push(4u8);
            },
            ReadinessReason::EligibleCampaignFloor => {
                out.push(5u8);
            },
            ReadinessReason::ManifestDiversity => {
                out.push(6u8);
            },
            ReadinessReason::ScheduleDiversity => {
                out.push(7u8);
            },
            ReadinessReason::ResultChainDiversity => {
                out.push(8u8);
            },
            ReadinessReason::PlanDiversity => {
                out.push(9u8);
            },
            ReadinessReason::CampaignRegression => {
                out.push(10u8);
            },
            ReadinessReason::CaseRegression => {
                out.push(11u8);
            },
            ReadinessReason::IndependentPlanRegression => {
                out.push(12u8);
            },
            ReadinessReason::RestartRegression => {
                out.push(13u8);
            },
            ReadinessReason::ApprovalSetRegression => {
                out.push(14u8);
            },
            ReadinessReason::DecisionMissing(f0) => {
                out.push(15u8);
                f0.encode_into(out);
            },
            ReadinessReason::DecisionRejected(f0) => {
                out.push(16u8);
                f0.encode_into(out);
            },
            ReadinessReason::DecisionExpired(f0) => {
                out.push(17u8);
                f0.encode_into(out);
            },
            ReadinessReason::OperatorsNotDistinct => {
                out.push(18u8);
            },
        }
        assert(out@ =~= start + self.canon());
    }
}

pub open spec fn production_readiness_record_body_0(v: &ProductionReadinessRecord) -> Seq<u8> {
    v.record_id.canon() + v.candidate_id.canon() + v.candidate_digest.canon() + v.subject_digest.canon() + v.finalized_at_ns.canon() + v.status.canon() + v.reasons.canon()
}

fn production_readiness_record_encode_body_0(v: &ProductionReadinessRecord, out: &mut Vec<u8>)
    ensures
        final(out)@ == old(out)@ + production_readiness_record_body_0(v),
{
    let ghost start = out@;
    v.record_id.encode_into(out);
    v.candidate_id.encode_into(out);
    v.candidate_digest.encode_into(out);
    v.subject_digest.encode_into(out);
    v.finalized_at_ns.encode_into(out);
    v.status.encode_into(out);
    v.reasons.encode_into(out);
    assert(out@ =~= start + production_readiness_record_body_0(v));
}

pub open spec fn production_readiness_record_body_1(v: &ProductionReadinessRecord) -> Seq<u8> {
    v.eligible_campaign_count.canon() + v.case_count.canon() + v.independent_plan_count.canon() + v.restart_count.canon() + v.approval_set_count.canon() + v.manifest_diversity.canon() + v.schedule_diversity.canon()
}

fn production_readiness_record_encode_body_1(v: &ProductionReadinessRecord, out: &mut Vec<u8>)
    ensures
        final(out)@ == old(out)@ + production_readiness_record_body_1(v),
{
    let ghost start = out@;
    v.eligible_campaign_count.encode_into(out);
    v.case_count.encode_into(out);
    v.independent_plan_count.encode_into(out);
    v.restart_count.encode_into(out);
    v.approval_set_count.encode_into(out);
    v.manifest_diversity.encode_into(out);
    v.schedule_diversity.encode_into(out);
    assert(out@ =~= start + production_readiness_record_body_1(v));
}

pub open spec fn production_readiness_record_body_2(v: &ProductionReadinessRecord) -> Seq<u8> {
    v.result_chain_diversity.canon() + v.plan_diversity.canon() + v.regression_campaign_floor.canon() + v.regression_case_floor.canon() + v.regression_independent_plan_floor.canon() + v.regression_restart_floor.canon() + v.regression_approval_set_floor.canon()
}

fn production_readiness_record_encode_body_2(v: &ProductionReadinessRecord, out: &mut Vec<u8>)
    ensures
        final(out)@ == old(out)@ + production_readiness_record_body_2(v),
{
    let ghost start = out@;
    v.result_chain_diversity.encode_into(out);
    v.plan_diversity.encode_into(out);
    v.regression_campaign_floor.encode_into(out);
    v.regression_case_floor.encode_into(out);
    v.regression_independent_plan_floor.encode_into(out);
    v.regression_restart_floor.encode_into(out);
    v.regression_approval_set_floor.encode_into(out);
    assert(out@ =~= start + production_readiness_record_body_2(v));
}

pub open spec fn production_readiness_record_body_3(v: &ProductionReadinessRecord) -> Seq<u8> {
    v.operator_execution_required.canon() + v.credential_material_created.canon() + v.authentication_authority_granted.canon() + v.deployment_authority_granted.canon() + v.rollback_execution_authority_granted.canon() + v.traffic_authority_granted.canon() + v.cloud_control_authority_granted.canon()
}

fn production_readiness_record_encode_body_3(v: &ProductionReadinessRecord, out: &mut Vec<u8>)
    ensures
        final(out)@ == old(out)@ + production_readiness_record_body_3(v),
{
    let ghost start = out@;
    v.operator_execution_required.encode_into(out);
    v.credential_material_created.encode_into(out);
    v.authentication_authority_granted.encode_into(out);
    v.deployment_authority_granted.encode_into(out);
    v.rollback_execution_authority_granted.encode_into(out);
    v.traffic_authority_granted.encode_into(out);
    v.cloud_control_authority_granted.encode_into(out);
    assert(out@ =~= start + production_readiness_record_body_3(v));
}

pub open spec fn production_readiness_record_body_4(v: &ProductionReadinessRecord) -> Seq<u8> {
    v.live_trading_authority_granted.canon()
}

fn production_readiness_record_encode_body_4(v: &ProductionReadinessRecord, out: &mut Vec<u8>)
    ensures
        final(out)@ == old(out)@ + production_readiness_record_body_4(v),
{
    let ghost start = out@;
    v.live_trading_authority_granted.encode_into(out);
    assert(out@ =~= start + production_readiness_record_body_4(v));
}

/// The encoding of every field but the digest.
pub open spec fn production_readiness_record_body(v: &ProductionReadinessRecord) -> Seq<u8> {
    production_readiness_record_body_0(v) + production_readiness_record_body_1(v) + production_readiness_record_body_2(v) + production_readiness_record_body_3(v) + production_readiness_record_body_4(v)
}

pub fn production_readiness_record_encode_body(v: &ProductionReadinessRecord, out: &mut Vec<u8>)
    ensures
        final(out)@ == old(out)@ + production_readiness_record_body(v),
{
    let ghost start = out@;
    production_readiness_record_encode_body_0(v, out);
    production_readiness_record_encode_body_1(v, out);
    production_readiness_record_encode_body_2(v, out);
    production_readiness_record_encode_body_3(v, out);
    production_readiness_record_encode_body_4(v, out);
    assert(out@ =~= start + production_readiness_record_body(v));
}

impl Canonical for ProductionReadinessRecord {
    open spec fn canon(&self) -> Seq<u8> {
        production_readiness_record_body(self) + self.record_digest.canon()
    }

    fn encode_into(&self, out: &mut Vec<u8>) {
        let ghost start = out@;
        production_readiness_record_encode_body(self, out);
        self.record_digest.encode_into(out);
        assert(out@ =~= start + self.canon());
    }
}

impl Canonical for ReadinessCommand {
    open spec fn canon(&self) -> Seq<u8> {
        match self {
            ReadinessCommand::Register { command_id, candidate, recorded_at_ns } => seq![0u8] + command_id.canon() + candidate.canon() + recorded_at_ns.canon(),
            ReadinessCommand::RecordDecision { command_id, decision, recorded_at_ns } => seq![1u8] + command_id.canon() + decision.canon() + recorded_at_ns.canon(),
            ReadinessCommand::Finalize { command_id, candidate_id, record_id, evaluated_at_ns, recorded_at_ns } => seq![2u8] + command_id.canon() + candidate_id.canon() + record_id.canon() + evaluated_at_ns.canon() + recorded_at_ns.canon(),
        }
    }

    fn encode_into(&self, out: &mut Vec<u8>) {
        let ghost start = out@;
        match self {
            ReadinessCommand::Register { command_id, candidate, recorded_at_ns } => {
                out.push(0u8);
                command_id.encode_into(out);
                candidate.encode_into(out);
                recorded_at_ns.encode_into(out);
            },
            ReadinessCommand::RecordDecision { command_id, decision, recorded_at_ns } => {
                out.push(1u8);
                command_id.encode_into(out);
                decision.encode_into(out);
                recorded_at_ns.encode_into(out);
            },
            ReadinessCommand::Finalize { command_id, candidate_id, record_id, evaluated_at_ns, recorded_at_ns } => {
                out.push(2u8);
                command_id.encode_into(out);
                candidate_id.encode_into(out);
                record_id.encode_into(out);
                evaluated_at_ns.encode_into(out);
                recorded_at_ns.encode_into(out);
            },
        }
        assert(out@ =~= start + self.canon());
    }
}

impl Canonical for ReadinessDetail {
    open spec fn canon(&self) -> Seq<u8> {
        match self {
            ReadinessDetail::Registered => seq![0u8],
            ReadinessDetail::DecisionRecorded(f0) => seq![1u8] + f0.canon(),
            ReadinessDetail::Finalized(f0) => seq![2u8] + f0.canon(),
        }
    }

    fn encode_into(&self, out: &mut Vec<u8>) {
        let ghost start = out@;
        match self {
            ReadinessDetail::Registered => {
                out.push(0u8);
            },
            ReadinessDetail::DecisionRecorded(f0) => {
                out.push(1u8);
                f0.encode_into(out);
            },
            ReadinessDetail::Finalized(f0) => {
                out.push(2u8);
                f0.encode_into(out);
            },
        }
        assert(out@ =~= start + self.canon());
    }
}

pub open spec fn readiness_outcome_body_0(v: &ReadinessOutcome) -> Seq<u8> {
    v.command_id.canon() + v.detail.canon()
}

fn readiness_outcome_encode_body_0(v: &ReadinessOutcome, out: &mut Vec<u8>)
    ensures
        final(out)@ == old(out)@ + readiness_outcome_body_0(v),
{
    let ghost start = out@;
    v.command_id.encode_into(out);
    v.detail.encode_into(out);
    assert(out@ =~= start + readiness_outcome_body_0(v));
}

/// The encoding of every field but the digest.
pub open spec fn readiness_outcome_body(v: &ReadinessOutcome) -> Seq<u8> {
    readiness_outcome_body_0(v)
}

pub fn readiness_outcome_encode_body(v: &ReadinessOutcome, out: &mut Vec<u8>)
    ensures
        final(out)@ == old(out)@ + readiness_outcome_body(v),
{
    let ghost start = out@;
    readiness_outcome_encode_body_0(v, out);
    assert(out@ =~= start + readiness_outcome_body(v));
}

impl Canonical for ReadinessOutcome {
    open spec fn canon(&self) -> Seq<u8> {
        readiness_outcome_body(self) + self.outcome_digest.canon()
    }

    fn encode_into(&self, out: &mut Vec<u8>) {
        let ghost start = out@;
        readiness_outcome_encode_body(self, out);
        self.outcome_digest.encode_into(out);
        assert(out@ =~= start + self.canon());
    }
}

} // verus!
