//! Content digests of governance values and the sealing that sets them.

use vstd::prelude::*;
use vstd::string::StringSliceAdditionalSpecFns;
use crate::digest::{digest_domain, digest_eq, domain_digest, push_bytes, zero32, Canonical};
use super::types::{CanaryEligibilityRecord, EvidenceBundle, GovernanceOutcome, OperatorDecision, RegressionBaseline, ReleaseArtifacts, RollbackCriteria};
use super::types::{canary_eligibility_record_body, canary_eligibility_record_encode_body, evidence_bundle_body, evidence_bundle_encode_body, governance_outcome_body, governance_outcome_encode_body, operator_decision_body, operator_decision_encode_body};
use super::types::{regression_baseline_body, regression_baseline_encode_body, release_artifacts_body, release_artifacts_encode_body, rollback_criteria_body, rollback_criteria_encode_body};

verus! {

/// Domain of the digest of a regression baseline.
pub open spec fn regression_digest_domain() -> Seq<u8> {
    "promotion-regression-baseline-v1".spec_bytes()
}

/// The digest of a regression baseline: every field, with the digest itself zeroed.
pub open spec fn regression_digest_spec(v: RegressionBaseline) -> Seq<u8> {
    domain_digest(regression_digest_domain(), regression_baseline_body(&v) + zero32())
}

pub fn regression_digest(v: &RegressionBaseline) -> (r: [u8; 32])
    ensures
        r@ == regression_digest_spec(*v),
{
    let mut body: Vec<u8> = Vec::new();
    regression_baseline_encode_body(v, &mut body);
    let zero = [0u8; 32];
    push_bytes(&mut body, zero.as_slice());
    assert(zero@ =~= zero32());
    digest_domain("promotion-regression-baseline-v1".as_bytes(), body.as_slice())
}

impl RegressionBaseline {
    /// This value with its digest field set to its own digest.
    pub fn sealed(self) -> (r: Self)
        ensures
            r == (RegressionBaseline { baseline_digest: r.baseline_digest, ..self }),
            r.baseline_digest@ == regression_digest_spec(self),
            r.baseline_digest@ == regression_digest_spec(r),
    {
        let mut v = self;
        let d = regression_digest(&v);
        v.baseline_digest = d;
        assert(regression_baseline_body(&v) == regression_baseline_body(&self));
        v
    }

    /// Whether the digest field matches the content.
    pub fn verify_digest(&self) -> (r: bool)
        ensures
            r == (self.baseline_digest@ == regression_digest_spec(*self)),
    {
        let d = regression_digest(self);
        digest_eq(&self.baseline_digest, &d)
    }
}

/// Domain of the digest of release artifacts.
pub open spec fn artifacts_digest_domain() -> Seq<u8> {
    "promotion-release-artifacts-v1".spec_bytes()
}

/// The digest of release artifacts: every field, with the digest itself zeroed.
pub open spec fn artifacts_digest_spec(v: ReleaseArtifacts) -> Seq<u8> {
    domain_digest(artifacts_digest_domain(), release_artifacts_body(&v) + zero32())
}

pub fn artifacts_digest(v: &ReleaseArtifacts) -> (r: [u8; 32])
    ensures
        r@ == artifacts_digest_spec(*v),
{
    let mut body: Vec<u8> = Vec::new();
    release_artifacts_encode_body(v, &mut body);
    let zero = [0u8; 32];
    push_bytes(&mut body, zero.as_slice());
    assert(zero@ =~= zero32());
    digest_domain("promotion-release-artifacts-v1".as_bytes(), body.as_slice())
}

impl ReleaseArtifacts {
    /// This value with its digest field set to its own digest.
    pub fn sealed(self) -> (r: Self)
        ensures
            r == (ReleaseArtifacts { artifacts_digest: r.artifacts_digest, ..self }),
            r.artifacts_digest@ == artifacts_digest_spec(self),
            r.artifacts_digest@ == artifacts_digest_spec(r),
    {
        let mut v = self;
        let d = artifacts_digest(&v);
        v.artifacts_digest = d;
        assert(release_artifacts_body(&v) == release_artifacts_body(&self));
        v
    }

    /// Whether the digest field matches the content.
    pub fn verify_digest(&self) -> (r: bool)
        ensures
            r == (self.artifacts_digest@ == artifacts_digest_spec(*self)),
    {
        let d = artifacts_digest(self);
        digest_eq(&self.artifacts_digest, &d)
    }
}

/// Domain of the digest of rollback criteria.
pub open spec fn rollback_digest_domain() -> Seq<u8> {
    "promotion-rollback-criteria-v1".spec_bytes()
}

/// The digest of rollback criteria: every field, with the digest itself zeroed.
pub open spec fn rollback_digest_spec(v: RollbackCriteria) -> Seq<u8> {
    domain_digest(rollback_digest_domain(), rollback_criteria_body(&v) + zero32())
}

pub fn rollback_digest(v: &RollbackCriteria) -> (r: [u8; 32])
    ensures
        r@ == rollback_digest_spec(*v),
{
    let mut body: Vec<u8> = Vec::new();
    rollback_criteria_encode_body(v, &mut body);
    let zero = [0u8; 32];
    push_bytes(&mut body, zero.as_slice());
    assert(zero@ =~= zero32());
    digest_domain("promotion-rollback-criteria-v1".as_bytes(), body.as_slice())
}

impl RollbackCriteria {
    /// This value with its digest field set to its own digest.
    pub fn sealed(self) -> (r: Self)
        ensures
            r == (RollbackCriteria { criteria_digest: r.criteria_digest, ..self }),
            r.criteria_digest@ == rollback_digest_spec(self),
            r.criteria_digest@ == rollback_digest_spec(r),
    {
        let mut v = self;
        let d = rollback_digest(&v);
        v.criteria_digest = d;
        assert(rollback_criteria_body(&v) == rollback_criteria_body(&self));
        v
    }

    /// Whether the digest field matches the content.
    pub fn verify_digest(&self) -> (r: bool)
        ensures
            r == (self.criteria_digest@ == rollback_digest_spec(*self)),
    {
        let d = rollback_digest(self);
        digest_eq(&self.criteria_digest, &d)
    }
}

/// Domain of the digest of an operator decision.
pub open spec fn decision_digest_domain() -> Seq<u8> {
    "promotion-operator-decision-v1".spec_bytes()
}

/// The digest of an operator decision: every field, with the digest itself zeroed.
pub open spec fn decision_digest_spec(v: OperatorDecision) -> Seq<u8> {
    domain_digest(decision_digest_domain(), operator_decision_body(&v) + zero32())
}

pub fn decision_digest(v: &OperatorDecision) -> (r: [u8; 32])
    ensures
        r@ == decision_digest_spec(*v),
{
    let mut body: Vec<u8> = Vec::new();
    operator_decision_encode_body(v, &mut body);
    let zero = [0u8; 32];
    push_bytes(&mut body, zero.as_slice());
    assert(zero@ =~= zero32());
    digest_domain("promotion-operator-decision-v1".as_bytes(), body.as_slice())
}

impl OperatorDecision {
    /// This value with its digest field set to its own digest.
    pub fn sealed(self) -> (r: Self)
        ensures
            r == (OperatorDecision { decision_digest: r.decision_digest, ..self }),
            r.decision_digest@ == decision_digest_spec(self),
            r.decision_digest@ == decision_digest_spec(r),
    {
        let mut v = self;
        let d = decision_digest(&v);
        v.decision_digest = d;
        assert(operator_decision_body(&v) == operator_decision_body(&self));
        v
    }

    /// Whether the digest field matches the content.
    pub fn verify_digest(&self) -> (r: bool)
        ensures
            r == (self.decision_digest@ == decision_digest_spec(*self)),
    {
        let d = decision_digest(self);
        digest_eq(&self.decision_digest, &d)
    }
}

/// Domain of the digest of a canary-eligibility record.
pub open spec fn canary_record_digest_domain() -> Seq<u8> {
    "promotion-canary-record-v1".spec_bytes()
}

/// The digest of a canary-eligibility record: every field, with the digest itself zeroed.
pub open spec fn canary_record_digest_spec(v: CanaryEligibilityRecord) -> Seq<u8> {
    domain_digest(canary_record_digest_domain(), canary_eligibility_record_body(&v) + zero32())
}

pub fn canary_record_digest(v: &CanaryEligibilityRecord) -> (r: [u8; 32])
    ensures
        r@ == canary_record_digest_spec(*v),
{
    let mut body: Vec<u8> = Vec::new();
    canary_eligibility_record_encode_body(v, &mut body);
    let zero = [0u8; 32];
    push_bytes(&mut body, zero.as_slice());
    assert(zero@ =~= zero32());
    digest_domain("promotion-canary-record-v1".as_bytes(), body.as_slice())
}

impl CanaryEligibilityRecord {
    /// This value with its digest field set to its own digest.
    pub fn sealed(self) -> (r: Self)
        ensures
            r == (CanaryEligibilityRecord { record_digest: r.record_digest, ..self }),
            r.record_digest@ == canary_record_digest_spec(self),
            r.record_digest@ == canary_record_digest_spec(r),
    {
        let mut v = self;
        let d = canary_record_digest(&v);
        v.record_digest = d;
        assert(canary_eligibility_record_body(&v) == canary_eligibility_record_body(&self));
        v
    }

    /// Whether the digest field matches the content.
    pub fn verify_digest(&self) -> (r: bool)
        ensures
            r == (self.record_digest@ == canary_record_digest_spec(*self)),
    {
        let d = canary_record_digest(self);
        digest_eq(&self.record_digest, &d)
    }
}

/// Domain of the digest of a governance outcome.
pub open spec fn governance_outcome_digest_domain() -> Seq<u8> {
    "promotion-governance-outcome-v1".spec_bytes()
}

/// The digest of a governance outcome: every field, with the digest itself zeroed.
pub open spec fn governance_outcome_digest_spec(v: GovernanceOutcome) -> Seq<u8> {
    domain_digest(governance_outcome_digest_domain(), governance_outcome_body(&v) + zero32())
}

pub fn governance_outcome_digest(v: &GovernanceOutcome) -> (r: [u8; 32])
    ensures
        r@ == governance_outcome_digest_spec(*v),
{
    let mut body: Vec<u8> = Vec::new();
    governance_outcome_encode_body(v, &mut body);
    let zero = [0u8; 32];
    push_bytes(&mut body, zero.as_slice());
    assert(zero@ =~= zero32());
    digest_domain("promotion-governance-outcome-v1".as_bytes(), body.as_slice())
}

impl GovernanceOutcome {
    /// This value with its digest field set to its own digest.
    pub fn sealed(self) -> (r: Self)
        ensures
            r == (GovernanceOutcome { outcome_digest: r.outcome_digest, ..self }),
            r.outcome_digest@ == governance_outcome_digest_spec(self),
            r.outcome_digest@ == governance_outcome_digest_spec(r),
    {
        let mut v = self;
        let d = governance_outcome_digest(&v);
        v.outcome_digest = d;
        assert(governance_outcome_body(&v) == governance_outcome_body(&self));
        v
    }

    /// Whether the digest field matches the content.
    pub fn verify_digest(&self) -> (r: bool)
        ensures
            r == (self.outcome_digest@ == governance_outcome_digest_spec(*self)),
    {
        let d = governance_outcome_digest(self);
        digest_eq(&self.outcome_digest, &d)
    }
}

/// Domain of the digest of an evidence bundle.
pub open spec fn evidence_bundle_digest_domain() -> Seq<u8> {
    "shadow-session-evidence-v1".spec_bytes()
}

/// The digest of an evidence bundle: every field, with the digest itself zeroed.
pub open spec fn evidence_bundle_digest_spec(v: EvidenceBundle) -> Seq<u8> {
    domain_digest(evidence_bundle_digest_domain(), evidence_bundle_body(&v) + zero32())
}

pub fn evidence_bundle_digest(v: &EvidenceBundle) -> (r: [u8; 32])
    ensures
        r@ == evidence_bundle_digest_spec(*v),
{
    let mut body: Vec<u8> = Vec::new();
    evidence_bundle_encode_body(v, &mut body);
    let zero = [0u8; 32];
    push_bytes(&mut body, zero.as_slice());
    assert(zero@ =~= zero32());
    digest_domain("shadow-session-evidence-v1".as_bytes(), body.as_slice())
}

impl EvidenceBundle {
    /// This value with its digest field set to its own digest.
    pub fn sealed(self) -> (r: Self)
        ensures
            r == (EvidenceBundle { bundle_digest: r.bundle_digest, ..self }),
            r.bundle_digest@ == evidence_bundle_digest_spec(self),
            r.bundle_digest@ == evidence_bundle_digest_spec(r),
    {
        let mut v = self;
        let d = evidence_bundle_digest(&v);
        v.bundle_digest = d;
        assert(evidence_bundle_body(&v) == evidence_bundle_body(&self));
        v
    }

    /// Whether the digest field matches the content.
    pub fn verify_digest(&self) -> (r: bool)
        ensures
            r == (self.bundle_digest@ == evidence_bundle_digest_spec(*self)),
    {
        let d = evidence_bundle_digest(self);
        digest_eq(&self.bundle_digest, &d)
    }
}

} // verus!
