//! Content digests of readiness values and the sealing that sets them.

use vstd::prelude::*;
use vstd::string::StringSliceAdditionalSpecFns;
use crate::digest::{digest_domain, digest_eq, domain_digest, push_bytes, zero32, Canonical};
use crate::order::{sort_by_key, sorted_by_key, ByteKeyed};
use super::types::{ChangeCampaignEvidence, ProductionChangeSubject, ProductionReadinessCandidate, ProductionReadinessPolicy};
use super::types::{ProductionReadinessRecord, ReadinessBaseline, ReadinessDecision, ReadinessOutcome};
use super::types::{change_campaign_evidence_body, change_campaign_evidence_encode_body, production_change_subject_body};
use super::types::{production_change_subject_encode_body, production_readiness_candidate_body};
use super::types::{production_readiness_candidate_encode_body, production_readiness_record_body};
use super::types::{production_readiness_record_encode_body, readiness_baseline_body, readiness_baseline_encode_body};
use super::types::{readiness_decision_body, readiness_decision_encode_body, readiness_outcome_body, readiness_outcome_encode_body};

verus! {

/// Domain of the digest of a readiness baseline.
pub open spec fn baseline_digest_domain() -> Seq<u8> {
    "production-readiness-baseline-v1".spec_bytes()
}

/// The digest of a readiness baseline: every field, with the digest itself zeroed.
pub open spec fn baseline_digest_spec(v: ReadinessBaseline) -> Seq<u8> {
    domain_digest(baseline_digest_domain(), readiness_baseline_body(&v) + zero32())
}

pub fn baseline_digest(v: &ReadinessBaseline) -> (r: [u8; 32])
    ensures
        r@ == baseline_digest_spec(*v),
{
    let mut body: Vec<u8> = Vec::new();
    readiness_baseline_encode_body(v, &mut body);
    let zero = [0u8; 32];
    push_bytes(&mut body, zero.as_slice());
    assert(zero@ =~= zero32());
    digest_domain("production-readiness-baseline-v1".as_bytes(), body.as_slice())
}

impl ReadinessBaseline {
    /// This value with its digest field set to its own digest.
    pub fn sealed(self) -> (r: Self)
        ensures
            r == (ReadinessBaseline { baseline_digest: r.baseline_digest, ..self }),
            r.baseline_digest@ == baseline_digest_spec(self),
            r.baseline_digest@ == baseline_digest_spec(r),
    {
        let mut v = self;
        let d = baseline_digest(&v);
        v.baseline_digest = d;
        assert(readiness_baseline_body(&v) == readiness_baseline_body(&self));
        v
    }

    /// Whether the digest field matches the content.
    pub fn verify_digest(&self) -> (r: bool)
        ensures
            r == (self.baseline_digest@ == baseline_digest_spec(*self)),
    {
        let d = baseline_digest(self);
        digest_eq(&self.baseline_digest, &d)
    }
}

/// Domain of the digest of a readiness decision.
pub open spec fn decision_digest_domain() -> Seq<u8> {
    "production-readiness-decision-v1".spec_bytes()
}

/// The digest of a readiness decision: every field, with the digest itself zeroed.
pub open spec fn decision_digest_spec(v: ReadinessDecision) -> Seq<u8> {
    domain_digest(decision_digest_domain(), readiness_decision_body(&v) + zero32())
}

pub fn decision_digest(v: &ReadinessDecision) -> (r: [u8; 32])
    ensures
        r@ == decision_digest_spec(*v),
{
    let mut body: Vec<u8> = Vec::new();
    readiness_decision_encode_body(v, &mut body);
    let zero = [0u8; 32];
    push_bytes(&mut body, zero.as_slice());
    assert(zero@ =~= zero32());
    digest_domain("production-readiness-decision-v1".as_bytes(), body.as_slice())
}

impl ReadinessDecision {
    /// This value with its digest field set to its own digest.
    pub fn sealed(self) -> (r: Self)
        ensures
            r == (ReadinessDecision { decision_digest: r.decision_digest, ..self }),
            r.decision_digest@ == decision_digest_spec(self),
            r.decision_digest@ == decision_digest_spec(r),
    {
        let mut v = self;
        let d = decision_digest(&v);
        v.decision_digest = d;
        assert(readiness_decision_body(&v) == readiness_decision_body(&self));
        v
    }

    /// Whether the digest field matches the content.
    pub fn verify_digest(&self) -> (r: bool)
        ensures
            r == (self.decision_digest@ == decision_digest_spec(*self)),
    {
        let d = decision_digest(self);
        digest_eq(&self.decision_digest, &d)
    }
}

/// Domain of the digest of a readiness record.
pub open spec fn record_digest_domain() -> Seq<u8> {
    "production-readiness-record-v1".spec_bytes()
}

/// The digest of a readiness record: every field, with the digest itself zeroed.
pub open spec fn record_digest_spec(v: ProductionReadinessRecord) -> Seq<u8> {
    domain_digest(record_digest_domain(), production_readiness_record_body(&v) + zero32())
}

pub fn record_digest(v: &ProductionReadinessRecord) -> (r: [u8; 32])
    ensures
        r@ == record_digest_spec(*v),
{
    let mut body: Vec<u8> = Vec::new();
    production_readiness_record_encode_body(v, &mut body);
    let zero = [0u8; 32];
    push_bytes(&mut body, zero.as_slice());
    assert(zero@ =~= zero32());
    digest_domain("production-readiness-record-v1".as_bytes(), body.as_slice())
}

impl ProductionReadinessRecord {
    /// This value with its digest field set to its own digest.
    pub fn sealed(self) -> (r: Self)
        ensures
            r == (ProductionReadinessRecord { record_digest: r.record_digest, ..self }),
            r.record_digest@ == record_digest_spec(self),
            r.record_digest@ == record_digest_spec(r),
    {
        let mut v = self;
        let d = record_digest(&v);
        v.record_digest = d;
        assert(production_readiness_record_body(&v) == production_readiness_record_body(&self));
        v
    }

    /// Whether the digest field matches the content.
    pub fn verify_digest(&self) -> (r: bool)
        ensures
            r == (self.record_digest@ == record_digest_spec(*self)),
    {
        let d = record_digest(self);
        digest_eq(&self.record_digest, &d)
    }
}

/// Domain of the digest of a readiness outcome.
pub open spec fn outcome_digest_domain() -> Seq<u8> {
    "production-readiness-outcome-v1".spec_bytes()
}

/// The digest of a readiness outcome: every field, with the digest itself zeroed.
pub open spec fn outcome_digest_spec(v: ReadinessOutcome) -> Seq<u8> {
    domain_digest(outcome_digest_domain(), readiness_outcome_body(&v) + zero32())
}

pub fn outcome_digest(v: &ReadinessOutcome) -> (r: [u8; 32])
    ensures
        r@ == outcome_digest_spec(*v),
{
    let mut body: Vec<u8> = Vec::new();
    readiness_outcome_encode_body(v, &mut body);
    let zero = [0u8; 32];
    push_bytes(&mut body, zero.as_slice());
    assert(zero@ =~= zero32());
    digest_domain("production-readiness-outcome-v1".as_bytes(), body.as_slice())
}

impl ReadinessOutcome {
    /// This value with its digest field set to its own digest.
    pub fn sealed(self) -> (r: Self)
        ensures
            r == (ReadinessOutcome { outcome_digest: r.outcome_digest, ..self }),
            r.outcome_digest@ == outcome_digest_spec(self),
            r.outcome_digest@ == outcome_digest_spec(r),
    {
        let mut v = self;
        let d = outcome_digest(&v);
        v.outcome_digest = d;
        assert(readiness_outcome_body(&v) == readiness_outcome_body(&self));
        v
    }

    /// Whether the digest field matches the content.
    pub fn verify_digest(&self) -> (r: bool)
        ensures
            r == (self.outcome_digest@ == outcome_digest_spec(*self)),
    {
        let d = outcome_digest(self);
        digest_eq(&self.outcome_digest, &d)
    }
}

/// Domain of the digest of campaign evidence.
pub open spec fn campaign_evidence_digest_domain() -> Seq<u8> {
    "deployment-change-campaign-evidence-v2".spec_bytes()
}

/// The digest of campaign evidence: every field, with the digest itself zeroed.
pub open spec fn campaign_evidence_digest_spec(v: ChangeCampaignEvidence) -> Seq<u8> {
    domain_digest(campaign_evidence_digest_domain(), change_campaign_evidence_body(&v) + zero32())
}

pub fn campaign_evidence_digest(v: &ChangeCampaignEvidence) -> (r: [u8; 32])
    ensures
        r@ == campaign_evidence_digest_spec(*v),
{
    let mut body: Vec<u8> = Vec::new();
    change_campaign_evidence_encode_body(v, &mut body);
    let zero = [0u8; 32];
    push_bytes(&mut body, zero.as_slice());
    assert(zero@ =~= zero32());
    digest_domain("deployment-change-campaign-evidence-v2".as_bytes(), body.as_slice())
}

impl ChangeCampaignEvidence {
    /// This value with its digest field set to its own digest.
    pub fn sealed(self) -> (r: Self)
        ensures
            r == (ChangeCampaignEvidence { evidence_digest: r.evidence_digest, ..self }),
            r.evidence_digest@ == campaign_evidence_digest_spec(self),
            r.evidence_digest@ == campaign_evidence_digest_spec(r),
    {
        let mut v = self;
        let d = campaign_evidence_digest(&v);
        v.evidence_digest = d;
        assert(change_campaign_evidence_body(&v) == change_campaign_evidence_body(&self));
        v
    }

    /// Whether the digest field matches the content.
    pub fn verify_digest(&self) -> (r: bool)
        ensures
            r == (self.evidence_digest@ == campaign_evidence_digest_spec(*self)),
    {
        let d = campaign_evidence_digest(self);
        digest_eq(&self.evidence_digest, &d)
    }
}

/// Domain of the digest of a change subject.
pub open spec fn subject_digest_domain() -> Seq<u8> {
    "production-change-subject-v1".spec_bytes()
}

/// The digest of a change subject: every field, with the digest itself zeroed.
pub open spec fn subject_digest_spec(v: ProductionChangeSubject) -> Seq<u8> {
    domain_digest(subject_digest_domain(), production_change_subject_body(&v) + zero32())
}

pub fn subject_digest(v: &ProductionChangeSubject) -> (r: [u8; 32])
    ensures
        r@ == subject_digest_spec(*v),
{
    let mut body: Vec<u8> = Vec::new();
    production_change_subject_encode_body(v, &mut body);
    let zero = [0u8; 32];
    push_bytes(&mut body, zero.as_slice());
    assert(zero@ =~= zero32());
    digest_domain("production-change-subject-v1".as_bytes(), body.as_slice())
}

/// Domain of the digest of a readiness candidate.
pub open spec fn candidate_digest_domain() -> Seq<u8> {
    "production-readiness-candidate-v1".spec_bytes()
}

/// The digest of a readiness candidate: every field, with the digest itself zeroed.
pub open spec fn candidate_digest_spec(v: ProductionReadinessCandidate) -> Seq<u8> {
    domain_digest(candidate_digest_domain(), production_readiness_candidate_body(&v) + zero32())
}

pub fn candidate_digest(v: &ProductionReadinessCandidate) -> (r: [u8; 32])
    ensures
        r@ == candidate_digest_spec(*v),
{
    let mut body: Vec<u8> = Vec::new();
    production_readiness_candidate_encode_body(v, &mut body);
    let zero = [0u8; 32];
    push_bytes(&mut body, zero.as_slice());
    assert(zero@ =~= zero32());
    digest_domain("production-readiness-candidate-v1".as_bytes(), body.as_slice())
}

impl ProductionChangeSubject {
    /// This subject with its four digest sets sorted and its digest set.
    pub fn sealed(self) -> (r: Self)
        ensures
            r == (ProductionChangeSubject {
                plan_digests: r.plan_digests,
                certificate_digests: r.certificate_digests,
                preflight_report_digests: r.preflight_report_digests,
                rollback_package_digests: r.rollback_package_digests,
                subject_digest: r.subject_digest,
                ..self
            }),
            r.plan_digests@ == sorted_by_key(self.plan_digests@),
            r.certificate_digests@ == sorted_by_key(self.certificate_digests@),
            r.preflight_report_digests@ == sorted_by_key(self.preflight_report_digests@),
            r.rollback_package_digests@ == sorted_by_key(self.rollback_package_digests@),
            r.subject_digest@ == subject_digest_spec(r),
    {
        let mut v = self;
        v.plan_digests = sort_by_key(v.plan_digests);
        v.certificate_digests = sort_by_key(v.certificate_digests);
        v.preflight_report_digests = sort_by_key(v.preflight_report_digests);
        v.rollback_package_digests = sort_by_key(v.rollback_package_digests);
        let ghost before = v;
        v.subject_digest = subject_digest(&v);
        assert(production_change_subject_body(&v) == production_change_subject_body(&before));
        v
    }

    /// Whether the digest field matches the content.
    pub fn verify_digest(&self) -> (r: bool)
        ensures
            r == (self.subject_digest@ == subject_digest_spec(*self)),
    {
        let d = subject_digest(self);
        digest_eq(&self.subject_digest, &d)
    }
}

impl ByteKeyed for ChangeCampaignEvidence {
    open spec fn key(&self) -> Seq<u8> {
        self.evidence_digest@
    }

    fn key_bytes(&self) -> (r: &[u8]) {
        self.evidence_digest.as_slice()
    }
}

/// Domain of the policy digest.
pub open spec fn policy_domain() -> Seq<u8> {
    "production-readiness-policy-v1".spec_bytes()
}

pub open spec fn policy_digest_spec(p: ProductionReadinessPolicy) -> Seq<u8> {
    domain_digest(policy_domain(), p.canon())
}

pub fn policy_digest(p: &ProductionReadinessPolicy) -> (r: [u8; 32])
    ensures
        r@ == policy_digest_spec(*p),
{
    let mut body: Vec<u8> = Vec::new();
    p.encode_into(&mut body);
    digest_domain("production-readiness-policy-v1".as_bytes(), body.as_slice())
}

impl ProductionReadinessCandidate {
    /// This candidate with evidence ordered by digest and the policy and
    /// candidate digests set.
    pub fn sealed(self, policy: &ProductionReadinessPolicy) -> (r: Self)
        ensures
            r == (ProductionReadinessCandidate {
                evidence: r.evidence,
                policy_digest: r.policy_digest,
                candidate_digest: r.candidate_digest,
                ..self
            }),
            r.evidence@ == sorted_by_key(self.evidence@),
            r.policy_digest@ == policy_digest_spec(*policy),
            r.candidate_digest@ == candidate_digest_spec(r),
    {
        let mut v = self;
        v.evidence = sort_by_key(v.evidence);
        v.policy_digest = policy_digest(policy);
        let ghost before = v;
        v.candidate_digest = candidate_digest(&v);
        assert(production_readiness_candidate_body(&v) == production_readiness_candidate_body(&before));
        v
    }

    /// Whether the policy and candidate digests match.
    pub fn verify_digest(&self, policy: &ProductionReadinessPolicy) -> (r: bool)
        ensures
            r == (self.policy_digest@ == policy_digest_spec(*policy) && self.candidate_digest@ == candidate_digest_spec(*self)),
    {
        let p = policy_digest(policy);
        let c = candidate_digest(self);
        digest_eq(&self.policy_digest, &p) && digest_eq(&self.candidate_digest, &c)
    }
}

} // verus!
