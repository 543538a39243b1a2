//! Values of promotion governance: policy, evidence, candidates, operator
//! decisions, commands and the canary-eligibility record.

use vstd::prelude::*;
use crate::digest::Canonical;

verus! {

/// Identity of one governance command.
#[derive(Clone, Copy, Debug, PartialEq, Eq)]
pub struct GovernanceCommandId(pub [u8; 32]);

/// Hard bounds and thresholds of one governance owner.
#[derive(Clone, Copy, Debug, PartialEq, Eq)]
pub struct GovernancePolicy {
    pub max_bundles: usize,
    pub minimum_campaigns: usize,
    pub minimum_distinct_manifests: usize,
    pub minimum_distinct_schedules: usize,
    pub minimum_distinct_final_states: usize,
    pub minimum_total_sessions: u64,
    pub minimum_total_steps: u64,
    pub minimum_total_fault_cycles: u64,
    pub minimum_regression_retention_bps: u16,
    pub maximum_bundle_age_ns: i64,
    pub maximum_candidate_age_ns: i64,
    pub maximum_decision_age_ns: i64,
}

/// Counts of the previous accepted release that a candidate must retain.
#[derive(Clone, Copy, Debug, PartialEq, Eq)]
pub struct RegressionBaseline {
    pub baseline_id: [u8; 32],
    pub campaign_count: u64,
    pub total_sessions: u64,
    pub total_steps: u64,
    pub total_fault_cycles: u64,
    pub baseline_digest: [u8; 32],
}

/// Content digests of one release build.
#[derive(Clone, Copy, Debug, PartialEq, Eq)]
pub struct ReleaseArtifacts {
    pub release_id: [u8; 32],
    pub source_digest: [u8; 32],
    pub binary_digest: [u8; 32],
    pub toolchain_digest: [u8; 32],
    pub dependency_lock_digest: [u8; 32],
    pub sbom_digest: [u8; 32],
    pub configuration_digest: [u8; 32],
    pub artifacts_digest: [u8; 32],
}

/// Thresholds on which a canary must be rolled back.
#[derive(Clone, Copy, Debug, PartialEq, Eq)]
pub struct RollbackCriteria {
    pub criteria_id: [u8; 32],
    pub rollback_target_digest: [u8; 32],
    pub maximum_canary_duration_ns: i64,
    pub maximum_unreconciled_ns: i64,
    pub maximum_unknown_state_ns: i64,
    pub maximum_session_loss_micros: i128,
    pub maximum_consecutive_faults: u64,
    pub require_capital_floor_halt: bool,
    pub require_reconciliation_halt: bool,
    pub criteria_digest: [u8; 32],
}

/// Verdict of one shadow-session campaign.
#[derive(Clone, Copy, Debug, PartialEq, Eq, Structural)]
pub enum CampaignStatus {
    PromotionEligible,
    NotEligible,
}

/// The operator evidence bundle of one shadow-session campaign, as the
/// governance rules read it. Scenario and reason kinds are numeric codes.
#[derive(Clone, Debug, PartialEq, Eq)]
pub struct EvidenceBundle {
    pub bundle_id: [u8; 32],
    pub campaign_id: [u8; 32],
    pub manifest_digest: [u8; 32],
    pub schedule_digest: [u8; 32],
    pub evaluated_at_ns: i64,
    pub status: CampaignStatus,
    pub reasons: Vec<u16>,
    pub required_scenarios: Vec<u16>,
    pub covered_scenarios: Vec<u16>,
    pub session_count: usize,
    pub completed_session_count: usize,
    pub applied_step_count: u64,
    pub certification_install_count: u64,
    pub dead_man_count: u64,
    pub restart_count: u64,
    pub unknown_recovery_count: u64,
    pub initial_gateway_digest: [u8; 32],
    pub final_gateway_digest: [u8; 32],
    pub final_cash_reserved_micros: i128,
    pub final_pending_conversion_count: usize,
    pub final_gateway_ready: bool,
    pub operator_decision_required: bool,
    pub promotion_authority_granted: bool,
    pub deployment_authority_granted: bool,
    pub bundle_digest: [u8; 32],
}

/// One release candidate with its evidence and commitments.
#[derive(Clone, Debug, PartialEq, Eq)]
pub struct ReleaseCandidateSubmission {
    pub candidate_id: [u8; 32],
    pub created_at_ns: i64,
    pub expires_at_ns: i64,
    pub evidence: Vec<EvidenceBundle>,
    pub baseline: RegressionBaseline,
    pub artifacts: ReleaseArtifacts,
    pub rollback: RollbackCriteria,
    pub policy_digest: [u8; 32],
    pub evidence_set_digest: [u8; 32],
    pub candidate_digest: [u8; 32],
}

/// The two roles of dual control; risk orders before release.
#[derive(Clone, Copy, Debug, PartialEq, Eq, Structural)]
pub enum DecisionRole {
    Risk,
    Release,
}

#[derive(Clone, Copy, Debug, PartialEq, Eq, Structural)]
pub enum DecisionVerdict {
    Approve,
    Reject,
}

/// One operator's signed-off decision on a candidate.
#[derive(Clone, Copy, Debug, PartialEq, Eq)]
pub struct OperatorDecision {
    pub decision_id: [u8; 32],
    pub operator_id: [u8; 32],
    pub role: DecisionRole,
    pub verdict: DecisionVerdict,
    pub candidate_digest: [u8; 32],
    pub evidence_set_digest: [u8; 32],
    pub artifacts_digest: [u8; 32],
    pub rollback_digest: [u8; 32],
    pub decided_at_ns: i64,
    pub valid_until_ns: i64,
    pub decision_digest: [u8; 32],
}

/// Totals over the independent, eligible and fresh campaigns of a candidate.
#[derive(Clone, Copy, Debug, PartialEq, Eq, Structural)]
pub struct CandidateAggregate {
    pub unique_campaigns: u64,
    pub distinct_manifests: u64,
    pub distinct_schedules: u64,
    pub distinct_final_states: u64,
    pub total_sessions: u64,
    pub total_steps: u64,
    pub total_fault_cycles: u64,
}

/// Why a candidate is not eligible; listed in this order.
#[derive(Clone, Copy, Debug, PartialEq, Eq)]
pub enum EligibilityReason {
    DuplicateEvidence,
    CampaignNotEligible([u8; 32]),
    CampaignStale([u8; 32]),
    InsufficientCampaigns,
    InsufficientManifestDiversity,
    InsufficientScheduleDiversity,
    InsufficientFinalStateDiversity,
    InsufficientSessions,
    InsufficientSteps,
    InsufficientFaultCycles,
    RegressionCampaignCount,
    RegressionSessionCount,
    RegressionStepCount,
    RegressionFaultCycles,
    MissingDecision(DecisionRole),
    RejectedDecision(DecisionRole),
    ExpiredDecision(DecisionRole),
    SameOperator,
    CandidateExpired,
}

#[derive(Clone, Copy, Debug, PartialEq, Eq, Structural)]
pub enum CanaryStatus {
    CanaryEligible,
    NotEligible,
}

/// The final, non-authorizing canary-eligibility record of a candidate.
#[derive(Clone, Debug, PartialEq, Eq)]
pub struct CanaryEligibilityRecord {
    pub record_id: [u8; 32],
    pub candidate_id: [u8; 32],
    pub candidate_digest: [u8; 32],
    pub evidence_set_digest: [u8; 32],
    pub baseline_digest: [u8; 32],
    pub artifacts_digest: [u8; 32],
    pub rollback_digest: [u8; 32],
    pub policy_digest: [u8; 32],
    pub evaluated_at_ns: i64,
    pub valid_until_ns: i64,
    pub status: CanaryStatus,
    pub reasons: Vec<EligibilityReason>,
    pub aggregate: CandidateAggregate,
    pub risk_decision_digest: Option<[u8; 32]>,
    pub release_decision_digest: Option<[u8; 32]>,
    pub dual_control_complete: bool,
    pub operator_execution_required: bool,
    pub rollback_required_on_threshold: bool,
    pub canary_execution_authority_granted: bool,
    pub promotion_authority_granted: bool,
    pub deployment_authority_granted: bool,
    pub credential_authority_granted: bool,
    pub live_trading_authority_granted: bool,
    pub record_digest: [u8; 32],
}

#[derive(Clone, Debug, PartialEq, Eq)]
pub enum GovernanceCommand {
    RegisterCandidate { command_id: GovernanceCommandId, submission: Box<ReleaseCandidateSubmission>, recorded_at_ns: i64 },
    RecordDecision { command_id: GovernanceCommandId, candidate_id: [u8; 32], decision: Box<OperatorDecision>, recorded_at_ns: i64 },
    Finalize { command_id: GovernanceCommandId, candidate_id: [u8; 32], record_id: [u8; 32], evaluated_at_ns: i64, recorded_at_ns: i64 },
}

impl GovernanceCommand {
    pub open spec fn id_of(&self) -> GovernanceCommandId {
        match self {
            GovernanceCommand::RegisterCandidate { command_id, .. } => *command_id,
            GovernanceCommand::RecordDecision { command_id, .. } => *command_id,
            GovernanceCommand::Finalize { command_id, .. } => *command_id,
        }
    }

    pub open spec fn recorded_at(&self) -> i64 {
        match self {
            GovernanceCommand::RegisterCandidate { recorded_at_ns, .. } => *recorded_at_ns,
            GovernanceCommand::RecordDecision { recorded_at_ns, .. } => *recorded_at_ns,
            GovernanceCommand::Finalize { recorded_at_ns, .. } => *recorded_at_ns,
        }
    }

    pub fn command_id(&self) -> (r: GovernanceCommandId)
        ensures
            r == self.id_of(),
    {
        match self {
            GovernanceCommand::RegisterCandidate { command_id, .. } => *command_id,
            GovernanceCommand::RecordDecision { command_id, .. } => *command_id,
            GovernanceCommand::Finalize { command_id, .. } => *command_id,
        }
    }

    pub fn recorded_at_ns(&self) -> (r: i64)
        ensures
            r == self.recorded_at(),
    {
        match self {
            GovernanceCommand::RegisterCandidate { recorded_at_ns, .. } => *recorded_at_ns,
            GovernanceCommand::RecordDecision { recorded_at_ns, .. } => *recorded_at_ns,
            GovernanceCommand::Finalize { recorded_at_ns, .. } => *recorded_at_ns,
        }
    }
}

/// What an accepted command did.
#[derive(Clone, Debug, PartialEq, Eq)]
pub enum GovernanceDetail {
    CandidateRegistered { candidate_digest: [u8; 32], aggregate: CandidateAggregate, reasons: Vec<EligibilityReason> },
    DecisionRecorded { role: DecisionRole, verdict: DecisionVerdict },
    Finalized(Box<CanaryEligibilityRecord>),
}

/// The sealed answer to one accepted command.
#[derive(Clone, Debug, PartialEq, Eq)]
pub struct GovernanceOutcome {
    pub command_id: GovernanceCommandId,
    pub detail: GovernanceDetail,
    pub outcome_digest: [u8; 32],
}

#[derive(Clone, Debug, PartialEq, Eq)]
pub enum Error {
    Config,
    Timestamp,
    CommandBound,
    Json(String),
    Version(u16),
    IdempotencyConflict,
    Candidate,
    Evidence,
    Baseline,
    Artifacts,
    Rollback,
    Decision,
    Record,
    Finalized,
    Overflow,
    Halted(String),
}

impl Canonical for GovernanceCommandId {
    open spec fn canon(&self) -> Seq<u8> {
        self.0.canon()
    }

    fn encode_into(&self, out: &mut Vec<u8>) {
        let ghost start = out@;
        self.0.encode_into(out);
        assert(out@ =~= start + self.canon());
    }
}

pub open spec fn governance_policy_canon_0(v: &GovernancePolicy) -> Seq<u8> {
    v.max_bundles.canon() + v.minimum_campaigns.canon() + v.minimum_distinct_manifests.canon() + v.minimum_distinct_schedules.canon() + v.minimum_distinct_final_states.canon() + v.minimum_total_sessions.canon() + v.minimum_total_steps.canon()
}

fn governance_policy_encode_0(v: &GovernancePolicy, out: &mut Vec<u8>)
    ensures
        final(out)@ == old(out)@ + governance_policy_canon_0(v),
{
    let ghost start = out@;
    v.max_bundles.encode_into(out);
    v.minimum_campaigns.encode_into(out);
    v.minimum_distinct_manifests.encode_into(out);
    v.minimum_distinct_schedules.encode_into(out);
    v.minimum_distinct_final_states.encode_into(out);
    v.minimum_total_sessions.encode_into(out);
    v.minimum_total_steps.encode_into(out);
    assert(out@ =~= start + governance_policy_canon_0(v));
}

pub open spec fn governance_policy_canon_1(v: &GovernancePolicy) -> Seq<u8> {
    v.minimum_total_fault_cycles.canon() + v.minimum_regression_retention_bps.canon() + v.maximum_bundle_age_ns.canon() + v.maximum_candidate_age_ns.canon() + v.maximum_decision_age_ns.canon()
}

fn governance_policy_encode_1(v: &GovernancePolicy, out: &mut Vec<u8>)
    ensures
        final(out)@ == old(out)@ + governance_policy_canon_1(v),
{
    let ghost start = out@;
    v.minimum_total_fault_cycles.encode_into(out);
    v.minimum_regression_retention_bps.encode_into(out);
    v.maximum_bundle_age_ns.encode_into(out);
    v.maximum_candidate_age_ns.encode_into(out);
    v.maximum_decision_age_ns.encode_into(out);
    assert(out@ =~= start + governance_policy_canon_1(v));
}

impl Canonical for GovernancePolicy {
    open spec fn canon(&self) -> Seq<u8> {
        governance_policy_canon_0(self) + governance_policy_canon_1(self)
    }

    fn encode_into(&self, out: &mut Vec<u8>) {
        let ghost start = out@;
        governance_policy_encode_0(self, out);
        governance_policy_encode_1(self, out);
        assert(out@ =~= start + self.canon());
    }
}

pub open spec fn regression_baseline_body_0(v: &RegressionBaseline) -> Seq<u8> {
    v.baseline_id.canon() + v.campaign_count.canon() + v.total_sessions.canon() + v.total_steps.canon() + v.total_fault_cycles.canon()
}

fn regression_baseline_encode_body_0(v: &RegressionBaseline, out: &mut Vec<u8>)
    ensures
        final(out)@ == old(out)@ + regression_baseline_body_0(v),
{
    let ghost start = out@;
    v.baseline_id.encode_into(out);
    v.campaign_count.encode_into(out);
    v.total_sessions.encode_into(out);
    v.total_steps.encode_into(out);
    v.total_fault_cycles.encode_into(out);
    assert(out@ =~= start + regression_baseline_body_0(v));
}

/// The encoding of every field but the digest.
pub open spec fn regression_baseline_body(v: &RegressionBaseline) -> Seq<u8> {
    regression_baseline_body_0(v)
}

pub fn regression_baseline_encode_body(v: &RegressionBaseline, out: &mut Vec<u8>)
    ensures
        final(out)@ == old(out)@ + regression_baseline_body(v),
{
    let ghost start = out@;
    regression_baseline_encode_body_0(v, out);
    assert(out@ =~= start + regression_baseline_body(v));
}

impl Canonical for RegressionBaseline {
    open spec fn canon(&self) -> Seq<u8> {
        regression_baseline_body(self) + self.baseline_digest.canon()
    }

    fn encode_into(&self, out: &mut Vec<u8>) {
        let ghost start = out@;
        regression_baseline_encode_body(self, out);
        self.baseline_digest.encode_into(out);
        assert(out@ =~= start + self.canon());
    }
}

pub open spec fn release_artifacts_body_0(v: &ReleaseArtifacts) -> Seq<u8> {
    v.release_id.canon() + v.source_digest.canon() + v.binary_digest.canon() + v.toolchain_digest.canon() + v.dependency_lock_digest.canon() + v.sbom_digest.canon() + v.configuration_digest.canon()
}

fn release_artifacts_encode_body_0(v: &ReleaseArtifacts, out: &mut Vec<u8>)
    ensures
        final(out)@ == old(out)@ + release_artifacts_body_0(v),
{
    let ghost start = out@;
    v.release_id.encode_into(out);
    v.source_digest.encode_into(out);
    v.binary_digest.encode_into(out);
    v.toolchain_digest.encode_into(out);
    v.dependency_lock_digest.encode_into(out);
    v.sbom_digest.encode_into(out);
    v.configuration_digest.encode_into(out);
    assert(out@ =~= start + release_artifacts_body_0(v));
}

/// The encoding of every field but the digest.
pub open spec fn release_artifacts_body(v: &ReleaseArtifacts) -> Seq<u8> {
    release_artifacts_body_0(v)
}

pub fn release_artifacts_encode_body(v: &ReleaseArtifacts, out: &mut Vec<u8>)
    ensures
        final(out)@ == old(out)@ + release_artifacts_body(v),
{
    let ghost start = out@;
    release_artifacts_encode_body_0(v, out);
    assert(out@ =~= start + release_artifacts_body(v));
}

impl Canonical for ReleaseArtifacts {
    open spec fn canon(&self) -> Seq<u8> {
        release_artifacts_body(self) + self.artifacts_digest.canon()
    }

    fn encode_into(&self, out: &mut Vec<u8>) {
        let ghost start = out@;
        release_artifacts_encode_body(self, out);
        self.artifacts_digest.encode_into(out);
        assert(out@ =~= start + self.canon());
    }
}

pub open spec fn rollback_criteria_body_0(v: &RollbackCriteria) -> Seq<u8> {
    v.criteria_id.canon() + v.rollback_target_digest.canon() + v.maximum_canary_duration_ns.canon() + v.maximum_unreconciled_ns.canon() + v.maximum_unknown_state_ns.canon() + v.maximum_session_loss_micros.canon() + v.maximum_consecutive_faults.canon()
}

fn rollback_criteria_encode_body_0(v: &RollbackCriteria, out: &mut Vec<u8>)
    ensures
        final(out)@ == old(out)@ + rollback_criteria_body_0(v),
{
    let ghost start = out@;
    v.criteria_id.encode_into(out);
    v.rollback_target_digest.encode_into(out);
    v.maximum_canary_duration_ns.encode_into(out);
    v.maximum_unreconciled_ns.encode_into(out);
    v.maximum_unknown_state_ns.encode_into(out);
    v.maximum_session_loss_micros.encode_into(out);
    v.maximum_consecutive_faults.encode_into(out);
    assert(out@ =~= start + rollback_criteria_body_0(v));
}

pub open spec fn rollback_criteria_body_1(v: &RollbackCriteria) -> Seq<u8> {
    v.require_capital_floor_halt.canon() + v.require_reconciliation_halt.canon()
}

fn rollback_criteria_encode_body_1(v: &RollbackCriteria, out: &mut Vec<u8>)
    ensures
        final(out)@ == old(out)@ + rollback_criteria_body_1(v),
{
    let ghost start = out@;
    v.require_capital_floor_halt.encode_into(out);
    v.require_reconciliation_halt.encode_into(out);
    assert(out@ =~= start + rollback_criteria_body_1(v));
}

/// The encoding of every field but the digest.
pub open spec fn rollback_criteria_body(v: &RollbackCriteria) -> Seq<u8> {
    rollback_criteria_body_0(v) + rollback_criteria_body_1(v)
}

pub fn rollback_criteria_encode_body(v: &RollbackCriteria, out: &mut Vec<u8>)
    ensures
        final(out)@ == old(out)@ + rollback_criteria_body(v),
{
    let ghost start = out@;
    rollback_criteria_encode_body_0(v, out);
    rollback_criteria_encode_body_1(v, out);
    assert(out@ =~= start + rollback_criteria_body(v));
}

impl Canonical for RollbackCriteria {
    open spec fn canon(&self) -> Seq<u8> {
        rollback_criteria_body(self) + self.criteria_digest.canon()
    }

    fn encode_into(&self, out: &mut Vec<u8>) {
        let ghost start = out@;
        rollback_criteria_encode_body(self, out);
        self.criteria_digest.encode_into(out);
        assert(out@ =~= start + self.canon());
    }
}

impl Canonical for CampaignStatus {
    open spec fn canon(&self) -> Seq<u8> {
        match self {
            CampaignStatus::PromotionEligible => seq![0u8],
            CampaignStatus::NotEligible => seq![1u8],
        }
    }

    fn encode_into(&self, out: &mut Vec<u8>) {
        let ghost start = out@;
        match self {
            CampaignStatus::PromotionEligible => {
                out.push(0u8);
            },
            CampaignStatus::NotEligible => {
                out.push(1u8);
            },
        }
        assert(out@ =~= start + self.canon());
    }
}

pub open spec fn evidence_bundle_body_0(v: &EvidenceBundle) -> Seq<u8> {
    v.bundle_id.canon() + v.campaign_id.canon() + v.manifest_digest.canon() + v.schedule_digest.canon() + v.evaluated_at_ns.canon() + v.status.canon() + v.reasons.canon()
}

fn evidence_bundle_encode_body_0(v: &EvidenceBundle, out: &mut Vec<u8>)
    ensures
        final(out)@ == old(out)@ + evidence_bundle_body_0(v),
{
    let ghost start = out@;
    v.bundle_id.encode_into(out);
    v.campaign_id.encode_into(out);
    v.manifest_digest.encode_into(out);
    v.schedule_digest.encode_into(out);
    v.evaluated_at_ns.encode_into(out);
    v.status.encode_into(out);
    v.reasons.encode_into(out);
    assert(out@ =~= start + evidence_bundle_body_0(v));
}

pub open spec fn evidence_bundle_body_1(v: &EvidenceBundle) -> Seq<u8> {
    v.required_scenarios.canon() + v.covered_scenarios.canon() + v.session_count.canon() + v.completed_session_count.canon() + v.applied_step_count.canon() + v.certification_install_count.canon() + v.dead_man_count.canon()
}

fn evidence_bundle_encode_body_1(v: &EvidenceBundle, out: &mut Vec<u8>)
    ensures
        final(out)@ == old(out)@ + evidence_bundle_body_1(v),
{
    let ghost start = out@;
    v.required_scenarios.encode_into(out);
    v.covered_scenarios.encode_into(out);
    v.session_count.encode_into(out);
    v.completed_session_count.encode_into(out);
    v.applied_step_count.encode_into(out);
    v.certification_install_count.encode_into(out);
    v.dead_man_count.encode_into(out);
    assert(out@ =~= start + evidence_bundle_body_1(v));
}

pub open spec fn evidence_bundle_body_2(v: &EvidenceBundle) -> Seq<u8> {
    v.restart_count.canon() + v.unknown_recovery_count.canon() + v.initial_gateway_digest.canon() + v.final_gateway_digest.canon() + v.final_cash_reserved_micros.canon() + v.final_pending_conversion_count.canon() + v.final_gateway_ready.canon()
}

fn evidence_bundle_encode_body_2(v: &EvidenceBundle, out: &mut Vec<u8>)
    ensures
        final(out)@ == old(out)@ + evidence_bundle_body_2(v),
{
    let ghost start = out@;
    v.restart_count.encode_into(out);
    v.unknown_recovery_count.encode_into(out);
    v.initial_gateway_digest.encode_into(out);
    v.final_gateway_digest.encode_into(out);
    v.final_cash_reserved_micros.encode_into(out);
    v.final_pending_conversion_count.encode_into(out);
    v.final_gateway_ready.encode_into(out);
    assert(out@ =~= start + evidence_bundle_body_2(v));
}

pub open spec fn evidence_bundle_body_3(v: &EvidenceBundle) -> Seq<u8> {
    v.operator_decision_required.canon() + v.promotion_authority_granted.canon() + v.deployment_authority_granted.canon()
}

fn evidence_bundle_encode_body_3(v: &EvidenceBundle, out: &mut Vec<u8>)
    ensures
        final(out)@ == old(out)@ + evidence_bundle_body_3(v),
{
    let ghost start = out@;
    v.operator_decision_required.encode_into(out);
    v.promotion_authority_granted.encode_into(out);
    v.deployment_authority_granted.encode_into(out);
    assert(out@ =~= start + evidence_bundle_body_3(v));
}

/// The encoding of every field but the digest.
pub open spec fn evidence_bundle_body(v: &EvidenceBundle) -> Seq<u8> {
    evidence_bundle_body_0(v) + evidence_bundle_body_1(v) + evidence_bundle_body_2(v) + evidence_bundle_body_3(v)
}

pub fn evidence_bundle_encode_body(v: &EvidenceBundle, out: &mut Vec<u8>)
    ensures
        final(out)@ == old(out)@ + evidence_bundle_body(v),
{
    let ghost start = out@;
    evidence_bundle_encode_body_0(v, out);
    evidence_bundle_encode_body_1(v, out);
    evidence_bundle_encode_body_2(v, out);
    evidence_bundle_encode_body_3(v, out);
    assert(out@ =~= start + evidence_bundle_body(v));
}

impl Canonical for EvidenceBundle {
    open spec fn canon(&self) -> Seq<u8> {
        evidence_bundle_body(self) + self.bundle_digest.canon()
    }

    fn encode_into(&self, out: &mut Vec<u8>) {
        let ghost start = out@;
        evidence_bundle_encode_body(self, out);
        self.bundle_digest.encode_into(out);
        assert(out@ =~= start + self.canon());
    }
}

pub open spec fn release_candidate_submission_body_0(v: &ReleaseCandidateSubmission) -> Seq<u8> {
    v.candidate_id.canon() + v.created_at_ns.canon() + v.expires_at_ns.canon() + v.evidence.canon() + v.baseline.canon() + v.artifacts.canon() + v.rollback.canon()
}

fn release_candidate_submission_encode_body_0(v: &ReleaseCandidateSubmission, out: &mut Vec<u8>)
    ensures
        final(out)@ == old(out)@ + release_candidate_submission_body_0(v),
{
    let ghost start = out@;
    v.candidate_id.encode_into(out);
    v.created_at_ns.encode_into(out);
    v.expires_at_ns.encode_into(out);
    v.evidence.encode_into(out);
    v.baseline.encode_into(out);
    v.artifacts.encode_into(out);
    v.rollback.encode_into(out);
    assert(out@ =~= start + release_candidate_submission_body_0(v));
}

pub open spec fn release_candidate_submission_body_1(v: &ReleaseCandidateSubmission) -> Seq<u8> {
    v.policy_digest.canon() + v.evidence_set_digest.canon()
}

fn release_candidate_submission_encode_body_1(v: &ReleaseCandidateSubmission, out: &mut Vec<u8>)
    ensures
        final(out)@ == old(out)@ + release_candidate_submission_body_1(v),
{
    let ghost start = out@;
    v.policy_digest.encode_into(out);
    v.evidence_set_digest.encode_into(out);
    assert(out@ =~= start + release_candidate_submission_body_1(v));
}

/// The encoding of every field but the digest.
pub open spec fn release_candidate_submission_body(v: &ReleaseCandidateSubmission) -> Seq<u8> {
    release_candidate_submission_body_0(v) + release_candidate_submission_body_1(v)
}

pub fn release_candidate_submission_encode_body(v: &ReleaseCandidateSubmission, out: &mut Vec<u8>)
    ensures
        final(out)@ == old(out)@ + release_candidate_submission_body(v),
{
    let ghost start = out@;
    release_candidate_submission_encode_body_0(v, out);
    release_candidate_submission_encode_body_1(v, out);
    assert(out@ =~= start + release_candidate_submission_body(v));
}

impl Canonical for ReleaseCandidateSubmission {
    open spec fn canon(&self) -> Seq<u8> {
        release_candidate_submission_body(self) + self.candidate_digest.canon()
    }

    fn encode_into(&self, out: &mut Vec<u8>) {
        let ghost start = out@;
        release_candidate_submission_encode_body(self, out);
        self.candidate_digest.encode_into(out);
        assert(out@ =~= start + self.canon());
    }
}

impl Canonical for DecisionRole {
    open spec fn canon(&self) -> Seq<u8> {
        match self {
            DecisionRole::Risk => seq![0u8],
            DecisionRole::Release => seq![1u8],
        }
    }

    fn encode_into(&self, out: &mut Vec<u8>) {
        let ghost start = out@;
        match self {
            DecisionRole::Risk => {
                out.push(0u8);
            },
            DecisionRole::Release => {
                out.push(1u8);
            },
        }
        assert(out@ =~= start + self.canon());
    }
}

impl Canonical for DecisionVerdict {
    open spec fn canon(&self) -> Seq<u8> {
        match self {
            DecisionVerdict::Approve => seq![0u8],
            DecisionVerdict::Reject => seq![1u8],
        }
    }

    fn encode_into(&self, out: &mut Vec<u8>) {
        let ghost start = out@;
        match self {
            DecisionVerdict::Approve => {
                out.push(0u8);
            },
            DecisionVerdict::Reject => {
                out.push(1u8);
            },
        }
        assert(out@ =~= start + self.canon());
    }
}

pub open spec fn operator_decision_body_0(v: &OperatorDecision) -> Seq<u8> {
    v.decision_id.canon() + v.operator_id.canon() + v.role.canon() + v.verdict.canon() + v.candidate_digest.canon() + v.evidence_set_digest.canon() + v.artifacts_digest.canon()
}

fn operator_decision_encode_body_0(v: &OperatorDecision, out: &mut Vec<u8>)
    ensures
        final(out)@ == old(out)@ + operator_decision_body_0(v),
{
    let ghost start = out@;
    v.decision_id.encode_into(out);
    v.operator_id.encode_into(out);
    v.role.encode_into(out);
    v.verdict.encode_into(out);
    v.candidate_digest.encode_into(out);
    v.evidence_set_digest.encode_into(out);
    v.artifacts_digest.encode_into(out);
    assert(out@ =~= start + operator_decision_body_0(v));
}

pub open spec fn operator_decision_body_1(v: &OperatorDecision) -> Seq<u8> {
    v.rollback_digest.canon() + v.decided_at_ns.canon() + v.valid_until_ns.canon()
}

fn operator_decision_encode_body_1(v: &OperatorDecision, out: &mut Vec<u8>)
    ensures
        final(out)@ == old(out)@ + operator_decision_body_1(v),
{
    let ghost start = out@;
    v.rollback_digest.encode_into(out);
    v.decided_at_ns.encode_into(out);
    v.valid_until_ns.encode_into(out);
    assert(out@ =~= start + operator_decision_body_1(v));
}

/// The encoding of every field but the digest.
pub open spec fn operator_decision_body(v: &OperatorDecision) -> Seq<u8> {
    operator_decision_body_0(v) + operator_decision_body_1(v)
}

pub fn operator_decision_encode_body(v: &OperatorDecision, out: &mut Vec<u8>)
    ensures
        final(out)@ == old(out)@ + operator_decision_body(v),
{
    let ghost start = out@;
    operator_decision_encode_body_0(v, out);
    operator_decision_encode_body_1(v, out);
    assert(out@ =~= start + operator_decision_body(v));
}

impl Canonical for OperatorDecision {
    open spec fn canon(&self) -> Seq<u8> {
        operator_decision_body(self) + self.decision_digest.canon()
    }

    fn encode_into(&self, out: &mut Vec<u8>) {
        let ghost start = out@;
        operator_decision_encode_body(self, out);
        self.decision_digest.encode_into(out);
        assert(out@ =~= start + self.canon());
    }
}

impl Canonical for CandidateAggregate {
    open spec fn canon(&self) -> Seq<u8> {
        self.unique_campaigns.canon() + self.distinct_manifests.canon() + self.distinct_schedules.canon() + self.distinct_final_states.canon() + self.total_sessions.canon() + self.total_steps.canon() + self.total_fault_cycles.canon()
    }

    fn encode_into(&self, out: &mut Vec<u8>) {
        let ghost start = out@;
        self.unique_campaigns.encode_into(out);
        self.distinct_manifests.encode_into(out);
        self.distinct_schedules.encode_into(out);
        self.distinct_final_states.encode_into(out);
        self.total_sessions.encode_into(out);
        self.total_steps.encode_into(out);
        self.total_fault_cycles.encode_into(out);
        assert(out@ =~= start + self.canon());
    }
}

impl Canonical for EligibilityReason {
    open spec fn canon(&self) -> Seq<u8> {
        match self {
            EligibilityReason::DuplicateEvidence => seq![0u8],
            EligibilityReason::CampaignNotEligible(f0) => seq![1u8] + f0.canon(),
            EligibilityReason::CampaignStale(f0) => seq![2u8] + f0.canon(),
            EligibilityReason::InsufficientCampaigns => seq![3u8],
            EligibilityReason::InsufficientManifestDiversity => seq![4u8],
            EligibilityReason::InsufficientScheduleDiversity => seq![5u8],
            EligibilityReason::InsufficientFinalStateDiversity => seq![6u8],
            EligibilityReason::InsufficientSessions => seq![7u8],
            EligibilityReason::InsufficientSteps => seq![8u8],
            EligibilityReason::InsufficientFaultCycles => seq![9u8],
            EligibilityReason::RegressionCampaignCount => seq![10u8],
            EligibilityReason::RegressionSessionCount => seq![11u8],
            EligibilityReason::RegressionStepCount => seq![12u8],
            EligibilityReason::RegressionFaultCycles => seq![13u8],
            EligibilityReason::MissingDecision(f0) => seq![14u8] + f0.canon(),
            EligibilityReason::RejectedDecision(f0) => seq![15u8] + f0.canon(),
            EligibilityReason::ExpiredDecision(f0) => seq![16u8] + f0.canon(),
            EligibilityReason::SameOperator => seq![17u8],
            EligibilityReason::CandidateExpired => seq![18u8],
        }
    }

    fn encode_into(&self, out: &mut Vec<u8>) {
        let ghost start = out@;
        match self {
            EligibilityReason::DuplicateEvidence => {
                out.push(0u8);
            },
            EligibilityReason::CampaignNotEligible(f0) => {
                out.push(1u8);
                f0.encode_into(out);
            },
            EligibilityReason::CampaignStale(f0) => {
                out.push(2u8);
                f0.encode_into(out);
            },
            EligibilityReason::InsufficientCampaigns => {
                out.push(3u8);
            },
            EligibilityReason::InsufficientManifestDiversity => {
                out.push(4u8);
            },
            EligibilityReason::InsufficientScheduleDiversity => {
                out.push(5u8);
            },
            EligibilityReason::InsufficientFinalStateDiversity => {
                out.push(6u8);
            },
            EligibilityReason::InsufficientSessions => {
                out.push(7u8);
            },
            EligibilityReason::InsufficientSteps => {
                out.push(8u8);
            },
            EligibilityReason::InsufficientFaultCycles => {
                out.push(9u8);
            },
            EligibilityReason::RegressionCampaignCount => {
                out.push(10u8);
            },
            EligibilityReason::RegressionSessionCount => {
                out.push(11u8);
            },
            EligibilityReason::RegressionStepCount => {
                out.push(12u8);
            },
            EligibilityReason::RegressionFaultCycles => {
                out.push(13u8);
            },
            EligibilityReason::MissingDecision(f0) => {
                out.push(14u8);
                f0.encode_into(out);
            },
            EligibilityReason::RejectedDecision(f0) => {
                out.push(15u8);
                f0.encode_into(out);
            },
            EligibilityReason::ExpiredDecision(f0) => {
                out.push(16u8);
                f0.encode_into(out);
            },
            EligibilityReason::SameOperator => {
                out.push(17u8);
            },
            EligibilityReason::CandidateExpired => {
                out.push(18u8);
            },
        }
        assert(out@ =~= start + self.canon());
    }
}

impl Canonical for CanaryStatus {
    open spec fn canon(&self) -> Seq<u8> {
        match self {
            CanaryStatus::CanaryEligible => seq![0u8],
            CanaryStatus::NotEligible => seq![1u8],
        }
    }

    fn encode_into(&self, out: &mut Vec<u8>) {
        let ghost start = out@;
        match self {
            CanaryStatus::CanaryEligible => {
                out.push(0u8);
            },
            CanaryStatus::NotEligible => {
                out.push(1u8);
            },
        }
        assert(out@ =~= start + self.canon());
    }
}

pub open spec fn canary_eligibility_record_body_0(v: &CanaryEligibilityRecord) -> Seq<u8> {
    v.record_id.canon() + v.candidate_id.canon() + v.candidate_digest.canon() + v.evidence_set_digest.canon() + v.baseline_digest.canon() + v.artifacts_digest.canon() + v.rollback_digest.canon()
}

fn canary_eligibility_record_encode_body_0(v: &CanaryEligibilityRecord, out: &mut Vec<u8>)
    ensures
        final(out)@ == old(out)@ + canary_eligibility_record_body_0(v),
{
    let ghost start = out@;
    v.record_id.encode_into(out);
    v.candidate_id.encode_into(out);
    v.candidate_digest.encode_into(out);
    v.evidence_set_digest.encode_into(out);
    v.baseline_digest.encode_into(out);
    v.artifacts_digest.encode_into(out);
    v.rollback_digest.encode_into(out);
    assert(out@ =~= start + canary_eligibility_record_body_0(v));
}

pub open spec fn canary_eligibility_record_body_1(v: &CanaryEligibilityRecord) -> Seq<u8> {
    v.policy_digest.canon() + v.evaluated_at_ns.canon() + v.valid_until_ns.canon() + v.status.canon() + v.reasons.canon() + v.aggregate.canon() + v.risk_decision_digest.canon()
}

fn canary_eligibility_record_encode_body_1(v: &CanaryEligibilityRecord, out: &mut Vec<u8>)
    ensures
        final(out)@ == old(out)@ + canary_eligibility_record_body_1(v),
{
    let ghost start = out@;
    v.policy_digest.encode_into(out);
    v.evaluated_at_ns.encode_into(out);
    v.valid_until_ns.encode_into(out);
    v.status.encode_into(out);
    v.reasons.encode_into(out);
    v.aggregate.encode_into(out);
    v.risk_decision_digest.encode_into(out);
    assert(out@ =~= start + canary_eligibility_record_body_1(v));
}

pub open spec fn canary_eligibility_record_body_2(v: &CanaryEligibilityRecord) -> Seq<u8> {
    v.release_decision_digest.canon() + v.dual_control_complete.canon() + v.operator_execution_required.canon() + v.rollback_required_on_threshold.canon() + v.canary_execution_authority_granted.canon() + v.promotion_authority_granted.canon() + v.deployment_authority_granted.canon()
}

fn canary_eligibility_record_encode_body_2(v: &CanaryEligibilityRecord, out: &mut Vec<u8>)
    ensures
        final(out)@ == old(out)@ + canary_eligibility_record_body_2(v),
{
    let ghost start = out@;
    v.release_decision_digest.encode_into(out);
    v.dual_control_complete.encode_into(out);
    v.operator_execution_required.encode_into(out);
    v.rollback_required_on_threshold.encode_into(out);
    v.canary_execution_authority_granted.encode_into(out);
    v.promotion_authority_granted.encode_into(out);
    v.deployment_authority_granted.encode_into(out);
    assert(out@ =~= start + canary_eligibility_record_body_2(v));
}

pub open spec fn canary_eligibility_record_body_3(v: &CanaryEligibilityRecord) -> Seq<u8> {
    v.credential_authority_granted.canon() + v.live_trading_authority_granted.canon()
}

fn canary_eligibility_record_encode_body_3(v: &CanaryEligibilityRecord, out: &mut Vec<u8>)
    ensures
        final(out)@ == old(out)@ + canary_eligibility_record_body_3(v),
{
    let ghost start = out@;
    v.credential_authority_granted.encode_into(out);
    v.live_trading_authority_granted.encode_into(out);
    assert(out@ =~= start + canary_eligibility_record_body_3(v));
}

/// The encoding of every field but the digest.
pub open spec fn canary_eligibility_record_body(v: &CanaryEligibilityRecord) -> Seq<u8> {
    canary_eligibility_record_body_0(v) + canary_eligibility_record_body_1(v) + canary_eligibility_record_body_2(v) + canary_eligibility_record_body_3(v)
}

pub fn canary_eligibility_record_encode_body(v: &CanaryEligibilityRecord, out: &mut Vec<u8>)
    ensures
        final(out)@ == old(out)@ + canary_eligibility_record_body(v),
{
    let ghost start = out@;
    canary_eligibility_record_encode_body_0(v, out);
    canary_eligibility_record_encode_body_1(v, out);
    canary_eligibility_record_encode_body_2(v, out);
    canary_eligibility_record_encode_body_3(v, out);
    assert(out@ =~= start + canary_eligibility_record_body(v));
}

impl Canonical for CanaryEligibilityRecord {
    open spec fn canon(&self) -> Seq<u8> {
        canary_eligibility_record_body(self) + self.record_digest.canon()
    }

    fn encode_into(&self, out: &mut Vec<u8>) {
        let ghost start = out@;
        canary_eligibility_record_encode_body(self, out);
        self.record_digest.encode_into(out);
        assert(out@ =~= start + self.canon());
    }
}

impl Canonical for GovernanceCommand {
    open spec fn canon(&self) -> Seq<u8> {
        match self {
            GovernanceCommand::RegisterCandidate { command_id, submission, recorded_at_ns } => seq![0u8] + command_id.canon() + submission.canon() + recorded_at_ns.canon(),
            GovernanceCommand::RecordDecision { command_id, candidate_id, decision, recorded_at_ns } => seq![1u8] + command_id.canon() + candidate_id.canon() + decision.canon() + recorded_at_ns.canon(),
            GovernanceCommand::Finalize { command_id, candidate_id, record_id, evaluated_at_ns, recorded_at_ns } => seq![2u8] + command_id.canon() + candidate_id.canon() + record_id.canon() + evaluated_at_ns.canon() + recorded_at_ns.canon(),
        }
    }

    fn encode_into(&self, out: &mut Vec<u8>) {
        let ghost start = out@;
        match self {
            GovernanceCommand::RegisterCandidate { command_id, submission, recorded_at_ns } => {
                out.push(0u8);
                command_id.encode_into(out);
                submission.encode_into(out);
                recorded_at_ns.encode_into(out);
            },
            GovernanceCommand::RecordDecision { command_id, candidate_id, decision, recorded_at_ns } => {
                out.push(1u8);
                command_id.encode_into(out);
                candidate_id.encode_into(out);
                decision.encode_into(out);
                recorded_at_ns.encode_into(out);
            },
            GovernanceCommand::Finalize { command_id, candidate_id, record_id, evaluated_at_ns, recorded_at_ns } => {
                out.push(2u8);
                command_id.encode_into(out);
                candidate_id.encode_into(out);
                record_id.encode_into(out);
                evaluated_at_ns.encode_into(out);
                recorded_at_ns.encode_into(out);
            },
        }
        assert(out@ =~= start + self.canon());
    }
}

impl Canonical for GovernanceDetail {
    open spec fn canon(&self) -> Seq<u8> {
        match self {
            GovernanceDetail::CandidateRegistered { candidate_digest, aggregate, reasons } => seq![0u8] + candidate_digest.canon() + aggregate.canon() + reasons.canon(),
            GovernanceDetail::DecisionRecorded { role, verdict } => seq![1u8] + role.canon() + verdict.canon(),
            GovernanceDetail::Finalized(f0) => seq![2u8] + f0.canon(),
        }
    }

    fn encode_into(&self, out: &mut Vec<u8>) {
        let ghost start = out@;
        match self {
            GovernanceDetail::CandidateRegistered { candidate_digest, aggregate, reasons } => {
                out.push(0u8);
                candidate_digest.encode_into(out);
                aggregate.encode_into(out);
                reasons.encode_into(out);
            },
            GovernanceDetail::DecisionRecorded { role, verdict } => {
                out.push(1u8);
                role.encode_into(out);
                verdict.encode_into(out);
            },
            GovernanceDetail::Finalized(f0) => {
                out.push(2u8);
                f0.encode_into(out);
            },
        }
        assert(out@ =~= start + self.canon());
    }
}

pub open spec fn governance_outcome_body_0(v: &GovernanceOutcome) -> Seq<u8> {
    v.command_id.canon() + v.detail.canon()
}

fn governance_outcome_encode_body_0(v: &GovernanceOutcome, out: &mut Vec<u8>)
    ensures
        final(out)@ == old(out)@ + governance_outcome_body_0(v),
{
    let ghost start = out@;
    v.command_id.encode_into(out);
    v.detail.encode_into(out);
    assert(out@ =~= start + governance_outcome_body_0(v));
}

/// The encoding of every field but the digest.
pub open spec fn governance_outcome_body(v: &GovernanceOutcome) -> Seq<u8> {
    governance_outcome_body_0(v)
}

pub fn governance_outcome_encode_body(v: &GovernanceOutcome, out: &mut Vec<u8>)
    ensures
        final(out)@ == old(out)@ + governance_outcome_body(v),
{
    let ghost start = out@;
    governance_outcome_encode_body_0(v, out);
    assert(out@ =~= start + governance_outcome_body(v));
}

impl Canonical for GovernanceOutcome {
    open spec fn canon(&self) -> Seq<u8> {
        governance_outcome_body(self) + self.outcome_digest.canon()
    }

    fn encode_into(&self, out: &mut Vec<u8>) {
        let ghost start = out@;
        governance_outcome_encode_body(self, out);
        self.outcome_digest.encode_into(out);
        assert(out@ =~= start + self.canon());
    }
}

} // verus!
