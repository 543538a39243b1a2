//! Sealing of a release candidate: evidence order, policy, evidence-set and
//! candidate digests.

use vstd::prelude::*;
use vstd::string::StringSliceAdditionalSpecFns;
use crate::order::{sort_by_key, sorted_by_key, ByteKeyed};
use crate::digest::{digest_domain, digest_eq, domain_digest, le_bytes, push_bytes, push_le, zero32, Canonical};
use super::types::{release_candidate_submission_body, release_candidate_submission_encode_body};
use super::types::{EvidenceBundle, GovernancePolicy, ReleaseCandidateSubmission};

verus! {

/// Domain of the policy digest.
pub open spec fn policy_domain() -> Seq<u8> {
    "promotion-governance-policy-v1".spec_bytes()
}

/// Domain of the evidence-set digest.
pub open spec fn evidence_set_domain() -> Seq<u8> {
    "promotion-evidence-set-v1".spec_bytes()
}

/// Domain of the candidate digest.
pub open spec fn candidate_domain() -> Seq<u8> {
    "promotion-release-candidate-v1".spec_bytes()
}

pub open spec fn policy_digest_spec(p: GovernancePolicy) -> Seq<u8> {
    domain_digest(policy_domain(), p.canon())
}

/// The bundle digests of an evidence list, concatenated in order.
pub open spec fn bundle_digests(ev: Seq<EvidenceBundle>) -> Seq<u8>
    decreases ev.len(),
{
    if ev.len() == 0 {
        Seq::empty()
    } else {
        bundle_digests(ev.drop_last()) + ev.last().bundle_digest@
    }
}

/// The digest of the ordered list of bundle digests.
pub open spec fn evidence_set_digest_spec(ev: Seq<EvidenceBundle>) -> Seq<u8> {
    domain_digest(evidence_set_domain(), le_bytes(ev.len(), 8) + bundle_digests(ev))
}

/// The digest of a candidate: every field, with the candidate digest zeroed.
pub open spec fn candidate_digest_spec(s: ReleaseCandidateSubmission) -> Seq<u8> {
    domain_digest(candidate_domain(), release_candidate_submission_body(&s) + zero32())
}

pub fn policy_digest(p: &GovernancePolicy) -> (r: [u8; 32])
    ensures
        r@ == policy_digest_spec(*p),
{
    let mut body: Vec<u8> = Vec::new();
    p.encode_into(&mut body);
    digest_domain("promotion-governance-policy-v1".as_bytes(), body.as_slice())
}

pub fn evidence_set_digest(ev: &Vec<EvidenceBundle>) -> (r: [u8; 32])
    ensures
        r@ == evidence_set_digest_spec(ev@),
{
    let mut body: Vec<u8> = Vec::new();
    push_le(&mut body, ev.len() as u128, 8);
    let ghost start = body@;
    let mut i: usize = 0;
    while i < ev.len()
        invariant
            i <= ev@.len(),
            body@ == start + bundle_digests(ev@.take(i as int)),
        decreases ev@.len() - i,
    {
        push_bytes(&mut body, ev[i].bundle_digest.as_slice());
        assert(ev@.take(i + 1).drop_last() =~= ev@.take(i as int));
        i = i + 1;
    }
    assert(ev@.take(ev@.len() as int) =~= ev@);
    digest_domain("promotion-evidence-set-v1".as_bytes(), body.as_slice())
}

pub fn candidate_digest(s: &ReleaseCandidateSubmission) -> (r: [u8; 32])
    ensures
        r@ == candidate_digest_spec(*s),
{
    let mut body: Vec<u8> = Vec::new();
    release_candidate_submission_encode_body(s, &mut body);
    let zero = [0u8; 32];
    push_bytes(&mut body, zero.as_slice());
    assert(zero@ =~= zero32());
    digest_domain("promotion-release-candidate-v1".as_bytes(), body.as_slice())
}

impl ByteKeyed for EvidenceBundle {
    open spec fn key(&self) -> Seq<u8> {
        self.bundle_digest@
    }

    fn key_bytes(&self) -> (r: &[u8]) {
        self.bundle_digest.as_slice()
    }
}

impl ReleaseCandidateSubmission {
    /// This candidate with evidence ordered by bundle digest and the policy,
    /// evidence-set and candidate digests set.
    pub fn sealed(self, policy: &GovernancePolicy) -> (r: Self)
        ensures
            r == (ReleaseCandidateSubmission {
                evidence: r.evidence,
                policy_digest: r.policy_digest,
                evidence_set_digest: r.evidence_set_digest,
                candidate_digest: r.candidate_digest,
                ..self
            }),
            r.evidence@ == sorted_by_key(self.evidence@),
            r.policy_digest@ == policy_digest_spec(*policy),
            r.evidence_set_digest@ == evidence_set_digest_spec(r.evidence@),
            r.candidate_digest@ == candidate_digest_spec(r),
    {
        let mut v = self;
        let evidence = sort_by_key(v.evidence);
        v.evidence = evidence;
        v.policy_digest = policy_digest(policy);
        v.evidence_set_digest = evidence_set_digest(&v.evidence);
        let ghost before = v;
        v.candidate_digest = candidate_digest(&v);
        assert(release_candidate_submission_body(&v) == release_candidate_submission_body(&before));
        v
    }

    /// Whether the policy, evidence-set and candidate digests match.
    pub fn verify_digest(&self, policy: &GovernancePolicy) -> (r: bool)
        ensures
            r == (self.policy_digest@ == policy_digest_spec(*policy)
                && self.evidence_set_digest@ == evidence_set_digest_spec(self.evidence@)
                && self.candidate_digest@ == candidate_digest_spec(*self)),
    {
        let p = policy_digest(policy);
        let e = evidence_set_digest(&self.evidence);
        let c = candidate_digest(self);
        digest_eq(&self.policy_digest, &p) && digest_eq(&self.evidence_set_digest, &e) && digest_eq(&self.candidate_digest, &c)
    }
}

} // verus!
