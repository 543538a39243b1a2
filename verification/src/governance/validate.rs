//! Admission rules of governance inputs: policy, baseline, artifacts,
//! rollback criteria, evidence bundles and a whole candidate.

use vstd::prelude::*;
use crate::digest::{bytes_less, bytes_lt, digest_eq, is_zero32, zero32};
use super::seal::{artifacts_digest_spec, evidence_bundle_digest_spec, regression_digest_spec, rollback_digest_spec};
use super::submission::{candidate_digest_spec, evidence_set_digest_spec, policy_digest_spec};
use super::types::{CampaignStatus, Error, EvidenceBundle, GovernancePolicy, RegressionBaseline, ReleaseArtifacts};
use super::types::{ReleaseCandidateSubmission, RollbackCriteria};

verus! {

/// Most evidence bundles any policy may admit.
pub const MAX_BUNDLES_HARD: usize = 512;

/// One in basis points.
pub const BASIS_POINTS: u64 = 10000;

/// The largest of the three diversity minimums.
pub open spec fn diversity_max(p: GovernancePolicy) -> int {
    let a = p.minimum_distinct_manifests as int;
    let b = p.minimum_distinct_schedules as int;
    let c = p.minimum_distinct_final_states as int;
    let ab = if a >= b { a } else { b };
    if ab >= c { ab } else { c }
}

/// Hard bounds, thresholds and validity windows of a policy are coherent.
pub open spec fn policy_valid(p: GovernancePolicy) -> bool {
    &&& 0 < p.max_bundles <= MAX_BUNDLES_HARD
    &&& 0 < p.minimum_campaigns <= p.max_bundles
    &&& 0 < diversity_max(p) <= p.minimum_campaigns
    &&& p.minimum_total_sessions > 0
    &&& p.minimum_total_steps > 0
    &&& p.minimum_total_fault_cycles > 0
    &&& 0 < p.minimum_regression_retention_bps <= BASIS_POINTS
    &&& p.maximum_bundle_age_ns > 0
    &&& p.maximum_candidate_age_ns > 0
    &&& 0 < p.maximum_decision_age_ns <= p.maximum_candidate_age_ns
}

/// Checks a policy.
pub fn validate_policy(p: &GovernancePolicy) -> (r: Result<(), Error>)
    ensures
        r is Ok <==> policy_valid(*p),
        r is Err ==> r == Err::<(), Error>(Error::Config),
{
    let a = p.minimum_distinct_manifests;
    let b = p.minimum_distinct_schedules;
    let c = p.minimum_distinct_final_states;
    let ab = if a >= b { a } else { b };
    let dmax = if ab >= c { ab } else { c };
    if p.max_bundles == 0 || p.max_bundles > MAX_BUNDLES_HARD || p.minimum_campaigns == 0
        || p.minimum_campaigns > p.max_bundles || dmax == 0 || dmax > p.minimum_campaigns
        || p.minimum_total_sessions == 0 || p.minimum_total_steps == 0 || p.minimum_total_fault_cycles == 0
        || p.minimum_regression_retention_bps == 0 || p.minimum_regression_retention_bps as u64 > BASIS_POINTS
        || p.maximum_bundle_age_ns <= 0 || p.maximum_candidate_age_ns <= 0 || p.maximum_decision_age_ns <= 0
        || p.maximum_decision_age_ns > p.maximum_candidate_age_ns {
        Err(Error::Config)
    } else {
        Ok(())
    }
}

/// A baseline has an identity, non-zero counts and a matching digest.
pub open spec fn baseline_valid(b: RegressionBaseline) -> bool {
    &&& b.baseline_id@ != zero32()
    &&& b.campaign_count > 0
    &&& b.total_sessions > 0
    &&& b.total_steps > 0
    &&& b.total_fault_cycles > 0
    &&& b.baseline_digest@ == regression_digest_spec(b)
}

pub fn validate_baseline(b: &RegressionBaseline) -> (r: Result<(), Error>)
    ensures
        r is Ok <==> baseline_valid(*b),
        r is Err ==> r == Err::<(), Error>(Error::Baseline),
{
    if is_zero32(&b.baseline_id) || b.campaign_count == 0 || b.total_sessions == 0 || b.total_steps == 0
        || b.total_fault_cycles == 0 || !b.verify_digest() {
        Err(Error::Baseline)
    } else {
        Ok(())
    }
}

/// Every artifact digest is present and the set digest matches.
pub open spec fn artifacts_valid(a: ReleaseArtifacts) -> bool {
    &&& a.release_id@ != zero32()
    &&& a.source_digest@ != zero32()
    &&& a.binary_digest@ != zero32()
    &&& a.toolchain_digest@ != zero32()
    &&& a.dependency_lock_digest@ != zero32()
    &&& a.sbom_digest@ != zero32()
    &&& a.configuration_digest@ != zero32()
    &&& a.artifacts_digest@ == artifacts_digest_spec(a)
}

pub fn validate_artifacts(a: &ReleaseArtifacts) -> (r: Result<(), Error>)
    ensures
        r is Ok <==> artifacts_valid(*a),
        r is Err ==> r == Err::<(), Error>(Error::Artifacts),
{
    if is_zero32(&a.release_id) || is_zero32(&a.source_digest) || is_zero32(&a.binary_digest)
        || is_zero32(&a.toolchain_digest) || is_zero32(&a.dependency_lock_digest) || is_zero32(&a.sbom_digest)
        || is_zero32(&a.configuration_digest) || !a.verify_digest() {
        Err(Error::Artifacts)
    } else {
        Ok(())
    }
}

/// Rollback criteria are identified, positive, demand both halts and match their digest.
pub open spec fn rollback_valid(c: RollbackCriteria) -> bool {
    &&& c.criteria_id@ != zero32()
    &&& c.rollback_target_digest@ != zero32()
    &&& c.maximum_canary_duration_ns > 0
    &&& c.maximum_unreconciled_ns > 0
    &&& c.maximum_unknown_state_ns > 0
    &&& c.maximum_session_loss_micros >= 0
    &&& c.maximum_consecutive_faults > 0
    &&& c.require_capital_floor_halt
    &&& c.require_reconciliation_halt
    &&& c.criteria_digest@ == rollback_digest_spec(c)
}

pub fn validate_rollback(c: &RollbackCriteria) -> (r: Result<(), Error>)
    ensures
        r is Ok <==> rollback_valid(*c),
        r is Err ==> r == Err::<(), Error>(Error::Rollback),
{
    if is_zero32(&c.criteria_id) || is_zero32(&c.rollback_target_digest) || c.maximum_canary_duration_ns <= 0
        || c.maximum_unreconciled_ns <= 0 || c.maximum_unknown_state_ns <= 0 || c.maximum_session_loss_micros < 0
        || c.maximum_consecutive_faults == 0 || !c.require_capital_floor_halt || !c.require_reconciliation_halt
        || !c.verify_digest() {
        Err(Error::Rollback)
    } else {
        Ok(())
    }
}

/// Every required scenario is covered.
pub open spec fn scenarios_covered(required: Seq<u16>, covered: Seq<u16>) -> bool {
    forall|i: int| 0 <= i < required.len() ==> covered.contains(#[trigger] required[i])
}

fn covers(required: &Vec<u16>, covered: &Vec<u16>) -> (r: bool)
    ensures
        r == scenarios_covered(required@, covered@),
{
    let mut i: usize = 0;
    while i < required.len()
        invariant
            i <= required@.len(),
            forall|k: int| 0 <= k < i ==> covered@.contains(#[trigger] required@[k]),
        decreases required@.len() - i,
    {
        let mut j: usize = 0;
        let mut found = false;
        while j < covered.len()
            invariant
                j <= covered@.len(),
                i < required@.len(),
                found ==> covered@.contains(required@[i as int]),
                !found ==> forall|k: int| 0 <= k < j ==> covered@[k] != required@[i as int],
            decreases covered@.len() - j,
        {
            if covered[j] == required[i] {
                found = true;
            }
            j = j + 1;
        }
        if !found {
            assert(!covered@.contains(required@[i as int]));
            assert(!scenarios_covered(required@, covered@)) by {
                assert(0 <= i < required@.len());
            }
            return false;
        }
        i = i + 1;
    }
    true
}

/// One bundle is well formed, non-authorizing, evaluated before the candidate
/// and, where eligible, complete.
pub open spec fn bundle_valid(b: EvidenceBundle, created_at_ns: i64) -> bool {
    let eligible = b.status == CampaignStatus::PromotionEligible;
    &&& b.bundle_id@ != zero32()
    &&& b.campaign_id@ != zero32()
    &&& b.manifest_digest@ != zero32()
    &&& b.schedule_digest@ != zero32()
    &&& 0 <= b.evaluated_at_ns <= created_at_ns
    &&& b.bundle_digest@ == evidence_bundle_digest_spec(b)
    &&& b.operator_decision_required
    &&& !b.promotion_authority_granted
    &&& !b.deployment_authority_granted
    &&& eligible == (b.reasons@.len() == 0)
    &&& eligible ==> {
        &&& b.session_count == b.completed_session_count
        &&& scenarios_covered(b.required_scenarios@, b.covered_scenarios@)
        &&& b.final_cash_reserved_micros == 0
        &&& b.final_pending_conversion_count == 0
        &&& b.final_gateway_ready
    }
}

pub fn validate_bundle(b: &EvidenceBundle, created_at_ns: i64) -> (r: Result<(), Error>)
    ensures
        r is Ok <==> bundle_valid(*b, created_at_ns),
        r is Err ==> r == Err::<(), Error>(Error::Evidence),
{
    let eligible = match b.status {
        CampaignStatus::PromotionEligible => true,
        CampaignStatus::NotEligible => false,
    };
    if is_zero32(&b.bundle_id) || is_zero32(&b.campaign_id) || is_zero32(&b.manifest_digest)
        || is_zero32(&b.schedule_digest) || b.evaluated_at_ns < 0 || b.evaluated_at_ns > created_at_ns
        || !b.verify_digest() || !b.operator_decision_required || b.promotion_authority_granted
        || b.deployment_authority_granted || eligible != (b.reasons.len() == 0) {
        return Err(Error::Evidence);
    }
    if eligible && (b.session_count != b.completed_session_count || !covers(&b.required_scenarios, &b.covered_scenarios)
        || b.final_cash_reserved_micros != 0 || b.final_pending_conversion_count != 0 || !b.final_gateway_ready) {
        return Err(Error::Evidence);
    }
    Ok(())
}

/// Bundles are in non-decreasing digest order.
pub open spec fn evidence_ordered(ev: Seq<EvidenceBundle>) -> bool {
    forall|i: int| 0 <= i < ev.len() - 1 ==> !bytes_lt(#[trigger] ev[i + 1].bundle_digest@, ev[i].bundle_digest@)
}

/// Two bundles of one campaign carry different digests.
pub open spec fn campaign_conflict(ev: Seq<EvidenceBundle>) -> bool {
    exists|i: int, j: int|
        0 <= i < j < ev.len() && (#[trigger] ev[i]).campaign_id@ == (#[trigger] ev[j]).campaign_id@
            && ev[i].bundle_digest@ != ev[j].bundle_digest@
}

/// The identity, window, size, order and digests of a candidate.
pub open spec fn candidate_shape_valid(s: ReleaseCandidateSubmission, p: GovernancePolicy, recorded_at_ns: i64) -> bool {
    &&& s.candidate_id@ != zero32()
    &&& s.created_at_ns >= 0
    &&& s.created_at_ns == recorded_at_ns
    &&& s.expires_at_ns > s.created_at_ns
    &&& s.expires_at_ns - s.created_at_ns <= p.maximum_candidate_age_ns
    &&& s.evidence@.len() > 0
    &&& s.evidence@.len() <= p.max_bundles
    &&& s.policy_digest@ == policy_digest_spec(p)
    &&& s.evidence_set_digest@ == evidence_set_digest_spec(s.evidence@)
    &&& s.candidate_digest@ == candidate_digest_spec(s)
    &&& evidence_ordered(s.evidence@)
}

/// Every bundle is valid and no campaign appears with two digests.
pub open spec fn evidence_valid(ev: Seq<EvidenceBundle>, created_at_ns: i64) -> bool {
    &&& forall|i: int| 0 <= i < ev.len() ==> bundle_valid(#[trigger] ev[i], created_at_ns)
    &&& !campaign_conflict(ev)
}

/// The verdict of candidate validation, checks in order.
pub open spec fn submission_check(s: ReleaseCandidateSubmission, p: GovernancePolicy, recorded_at_ns: i64) -> Result<(), Error> {
    if !candidate_shape_valid(s, p, recorded_at_ns) {
        Err(Error::Candidate)
    } else if !baseline_valid(s.baseline) {
        Err(Error::Baseline)
    } else if !artifacts_valid(s.artifacts) {
        Err(Error::Artifacts)
    } else if !rollback_valid(s.rollback) {
        Err(Error::Rollback)
    } else if !evidence_valid(s.evidence@, s.created_at_ns) {
        Err(Error::Evidence)
    } else {
        Ok(())
    }
}

fn evidence_in_order(ev: &Vec<EvidenceBundle>) -> (r: bool)
    ensures
        r == evidence_ordered(ev@),
{
    let mut i: usize = 1;
    if ev.len() == 0 {
        return true;
    }
    while i < ev.len()
        invariant
            1 <= i <= ev@.len(),
            forall|k: int| 0 <= k < i - 1 ==> !bytes_lt(#[trigger] ev@[k + 1].bundle_digest@, ev@[k].bundle_digest@),
        decreases ev@.len() - i,
    {
        if bytes_less(ev[i].bundle_digest.as_slice(), ev[i - 1].bundle_digest.as_slice()) {
            assert(bytes_lt(ev@[(i - 1) + 1].bundle_digest@, ev@[i - 1].bundle_digest@));
            return false;
        }
        i = i + 1;
    }
    true
}

fn check_evidence(ev: &Vec<EvidenceBundle>, created_at_ns: i64) -> (r: bool)
    ensures
        r == evidence_valid(ev@, created_at_ns),
{
    let mut i: usize = 0;
    while i < ev.len()
        invariant
            i <= ev@.len(),
            forall|k: int| 0 <= k < i ==> bundle_valid(#[trigger] ev@[k], created_at_ns),
            forall|a: int, b: int|
                0 <= a < b < i ==> ((#[trigger] ev@[a]).campaign_id@ == (#[trigger] ev@[b]).campaign_id@
                    ==> ev@[a].bundle_digest@ == ev@[b].bundle_digest@),
        decreases ev@.len() - i,
    {
        if validate_bundle(&ev[i], created_at_ns).is_err() {
            return false;
        }
        let mut j: usize = 0;
        while j < i
            invariant
                j <= i < ev@.len(),
                forall|a: int| 0 <= a < j ==> ((#[trigger] ev@[a]).campaign_id@ == ev@[i as int].campaign_id@
                    ==> ev@[a].bundle_digest@ == ev@[i as int].bundle_digest@),
            decreases i - j,
        {
            if digest_eq(&ev[j].campaign_id, &ev[i].campaign_id) && !digest_eq(&ev[j].bundle_digest, &ev[i].bundle_digest) {
                assert(campaign_conflict(ev@)) by {
                    assert(ev@[j as int].campaign_id@ == ev@[i as int].campaign_id@);
                }
                return false;
            }
            j = j + 1;
        }
        i = i + 1;
    }
    true
}

/// Validates a candidate against the policy at its registration time.
pub fn validate_submission(s: &ReleaseCandidateSubmission, p: &GovernancePolicy, recorded_at_ns: i64) -> (r: Result<(), Error>)
    ensures
        r == submission_check(*s, *p, recorded_at_ns),
{
    if is_zero32(&s.candidate_id) || s.created_at_ns < 0 || s.created_at_ns != recorded_at_ns
        || s.expires_at_ns <= s.created_at_ns || s.expires_at_ns - s.created_at_ns > p.maximum_candidate_age_ns
        || s.evidence.len() == 0 || s.evidence.len() > p.max_bundles || !s.verify_digest(p)
        || !evidence_in_order(&s.evidence) {
        return Err(Error::Candidate);
    }
    if validate_baseline(&s.baseline).is_err() {
        return Err(Error::Baseline);
    }
    if validate_artifacts(&s.artifacts).is_err() {
        return Err(Error::Artifacts);
    }
    if validate_rollback(&s.rollback).is_err() {
        return Err(Error::Rollback);
    }
    if !check_evidence(&s.evidence, s.created_at_ns) {
        return Err(Error::Evidence);
    }
    Ok(())
}

} // verus!
