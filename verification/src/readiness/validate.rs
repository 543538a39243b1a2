//! Admission rules of readiness inputs: policy, baseline, subject, campaign
//! evidence and a whole candidate.

use vstd::prelude::*;
use crate::digest::{bytes_less, bytes_lt, digest_eq, is_zero32, zero32};
use crate::order::{ids_sorted, view_set};
use super::seal::{campaign_evidence_digest_spec, candidate_digest_spec, policy_digest_spec, subject_digest_spec};
use super::seal::baseline_digest_spec;
use super::types::{CampaignEvidenceStatus, ChangeCampaignEvidence, Error, ProductionChangeSubject};
use super::types::{ProductionReadinessCandidate, ProductionReadinessPolicy, ReadinessBaseline};

verus! {

/// Most evidence records any policy may admit.
pub const MAX_EVIDENCE_HARD: usize = 256;

/// The largest of the manifest, schedule and result-chain diversity minimums.
pub open spec fn diversity_max(p: ProductionReadinessPolicy) -> int {
    let a = p.minimum_manifest_diversity as int;
    let b = p.minimum_schedule_diversity as int;
    let c = p.minimum_result_chain_diversity as int;
    let ab = if a >= b { a } else { b };
    if ab >= c { ab } else { c }
}

/// Bounds, minimums, retention and windows of a policy are coherent.
pub open spec fn policy_valid(p: ProductionReadinessPolicy) -> bool {
    &&& 0 < p.maximum_evidence_records <= MAX_EVIDENCE_HARD
    &&& 0 < p.minimum_eligible_campaigns <= p.maximum_evidence_records
    &&& diversity_max(p) <= p.maximum_evidence_records
    &&& p.minimum_plan_diversity > 0
    &&& p.minimum_case_count > 0
    &&& p.minimum_independent_plan_count > 0
    &&& p.minimum_restart_count > 0
    &&& p.minimum_approval_set_count > 0
    &&& 0 < p.retention_basis_points <= 10000
    &&& p.maximum_evidence_age_ns > 0
    &&& p.maximum_candidate_age_ns > 0
    &&& p.maximum_decision_age_ns > 0
}

pub fn validate_policy(p: &ProductionReadinessPolicy) -> (r: Result<(), Error>)
    ensures
        r is Ok <==> policy_valid(*p),
        r is Err ==> r == Err::<(), Error>(Error::Config),
{
    let a = p.minimum_manifest_diversity;
    let b = p.minimum_schedule_diversity;
    let c = p.minimum_result_chain_diversity;
    let ab = if a >= b { a } else { b };
    let dmax = if ab >= c { ab } else { c };
    if p.maximum_evidence_records == 0 || p.maximum_evidence_records > MAX_EVIDENCE_HARD || p.minimum_eligible_campaigns == 0
        || p.minimum_eligible_campaigns > p.maximum_evidence_records || dmax > p.maximum_evidence_records
        || p.minimum_plan_diversity == 0 || p.minimum_case_count == 0 || p.minimum_independent_plan_count == 0
        || p.minimum_restart_count == 0 || p.minimum_approval_set_count == 0 || p.retention_basis_points == 0
        || p.retention_basis_points > 10000 || p.maximum_evidence_age_ns <= 0 || p.maximum_candidate_age_ns <= 0
        || p.maximum_decision_age_ns <= 0 {
        Err(Error::Config)
    } else {
        Ok(())
    }
}

/// Every baseline count is positive.
pub open spec fn baseline_valid(b: ReadinessBaseline) -> bool {
    b.campaign_count > 0 && b.case_count > 0 && b.independent_plan_count > 0 && b.restart_count > 0 && b.approval_set_count > 0
}

pub fn valid_baseline(b: &ReadinessBaseline) -> (r: bool)
    ensures
        r == baseline_valid(*b),
{
    b.campaign_count > 0 && b.case_count > 0 && b.independent_plan_count > 0 && b.restart_count > 0 && b.approval_set_count > 0
}

/// A non-empty, strictly increasing set of present digests.
pub open spec fn subject_set_valid(s: Seq<[u8; 32]>) -> bool {
    &&& s.len() > 0
    &&& forall|i: int| 0 <= i < s.len() ==> (#[trigger] s[i])@ != zero32()
    &&& ids_sorted(s)
}

pub fn valid_subject_set(values: &Vec<[u8; 32]>) -> (r: bool)
    ensures
        r == subject_set_valid(values@),
{
    if values.len() == 0 {
        return false;
    }
    let mut i: usize = 0;
    while i < values.len()
        invariant
            i <= values@.len(),
            values@.len() > 0,
            forall|k: int| 0 <= k < i ==> (#[trigger] values@[k])@ != zero32(),
            forall|k: int| 0 < k < i ==> bytes_lt((#[trigger] values@[k - 1])@, values@[k]@),
        decreases values@.len() - i,
    {
        if is_zero32(&values[i]) {
            return false;
        }
        if i > 0 && !bytes_less(values[i - 1].as_slice(), values[i].as_slice()) {
            assert(!ids_sorted(values@)) by {
                assert(!bytes_lt(values@[i - 1]@, values@[i as int]@));
            }
            return false;
        }
        i = i + 1;
    }
    proof {
        let s = values@;
        assert forall|a: int, b: int| 0 <= a < b < s.len() implies bytes_lt((#[trigger] s[a])@, (#[trigger] s[b])@) by {
            lemma_chain(s, a, b);
        }
    }
    true
}

proof fn lemma_chain(s: Seq<[u8; 32]>, a: int, b: int)
    requires
        0 <= a < b < s.len(),
        forall|k: int| 0 < k < s.len() ==> bytes_lt((#[trigger] s[k - 1])@, s[k]@),
    ensures
        bytes_lt(s[a]@, s[b]@),
    decreases b - a,
{
    if b - a > 1 {
        lemma_chain(s, a, b - 1);
        assert(bytes_lt(s[b - 1]@, s[b]@));
        crate::digest::lemma_bytes_lt_transitive(s[a]@, s[b - 1]@, s[b]@);
    } else {
        assert(bytes_lt(s[b - 1]@, s[b]@));
    }
}

/// One of the four digest sets of a subject or of campaign evidence.
pub open spec fn subject_list(s: ProductionChangeSubject, which: int) -> Seq<[u8; 32]> {
    if which == 0 {
        s.plan_digests@
    } else if which == 1 {
        s.certificate_digests@
    } else if which == 2 {
        s.preflight_report_digests@
    } else {
        s.rollback_package_digests@
    }
}

pub open spec fn evidence_list(e: ChangeCampaignEvidence, which: int) -> Seq<[u8; 32]> {
    if which == 0 {
        e.plan_digests@
    } else if which == 1 {
        e.certificate_digests@
    } else if which == 2 {
        e.preflight_report_digests@
    } else {
        e.rollback_package_digests@
    }
}

fn evidence_list_of(e: &ChangeCampaignEvidence, which: u8) -> (r: &Vec<[u8; 32]>)
    ensures
        r@ == evidence_list(*e, which as int),
{
    if which == 0 {
        &e.plan_digests
    } else if which == 1 {
        &e.certificate_digests
    } else if which == 2 {
        &e.preflight_report_digests
    } else {
        &e.rollback_package_digests
    }
}

fn subject_list_of(s: &ProductionChangeSubject, which: u8) -> (r: &Vec<[u8; 32]>)
    ensures
        r@ == subject_list(*s, which as int),
{
    if which == 0 {
        &s.plan_digests
    } else if which == 1 {
        &s.certificate_digests
    } else if which == 2 {
        &s.preflight_report_digests
    } else {
        &s.rollback_package_digests
    }
}

/// The present release, binary, configuration, infrastructure and
/// observability digests, four valid sets, and a matching digest.
pub open spec fn subject_valid(s: ProductionChangeSubject) -> bool {
    &&& s.subject_digest@ == subject_digest_spec(s)
    &&& s.release_digest@ != zero32()
    &&& s.binary_digest@ != zero32()
    &&& s.configuration_digest@ != zero32()
    &&& s.infrastructure_digest@ != zero32()
    &&& s.observability_digest@ != zero32()
    &&& subject_set_valid(s.plan_digests@)
    &&& subject_set_valid(s.certificate_digests@)
    &&& subject_set_valid(s.preflight_report_digests@)
    &&& subject_set_valid(s.rollback_package_digests@)
}

pub fn valid_subject(s: &ProductionChangeSubject) -> (r: bool)
    ensures
        r == subject_valid(*s),
{
    s.verify_digest() && !is_zero32(&s.release_digest) && !is_zero32(&s.binary_digest) && !is_zero32(&s.configuration_digest)
        && !is_zero32(&s.infrastructure_digest) && !is_zero32(&s.observability_digest) && valid_subject_set(&s.plan_digests)
        && valid_subject_set(&s.certificate_digests) && valid_subject_set(&s.preflight_report_digests)
        && valid_subject_set(&s.rollback_package_digests)
}

/// Campaign evidence is sealed, identified, non-authorizing, internally
/// consistent and, where eligible, complete.
pub open spec fn evidence_valid(e: ChangeCampaignEvidence, created_at_ns: i64) -> bool {
    &&& e.evidence_digest@ == campaign_evidence_digest_spec(e)
    &&& e.evidence_id@ != zero32()
    &&& e.campaign_id@ != zero32()
    &&& e.evaluated_at_ns <= created_at_ns
    &&& e.operator_decision_required
    &&& !e.credential_material_created
    &&& !e.authentication_authority_granted
    &&& !e.deployment_authority_granted
    &&& !e.rollback_execution_authority_granted
    &&& !e.traffic_authority_granted
    &&& !e.cloud_control_authority_granted
    &&& !e.live_trading_authority_granted
    &&& e.completed_case_count <= e.case_count
    &&& e.restart_reconstruction_count <= e.completed_case_count
    &&& e.independent_plan_count == e.plan_digests@.len()
    &&& e.approval_set_count <= e.independent_plan_count
    &&& subject_set_valid(e.plan_digests@)
    &&& subject_set_valid(e.certificate_digests@)
    &&& subject_set_valid(e.preflight_report_digests@)
    &&& subject_set_valid(e.rollback_package_digests@)
    &&& (e.status == CampaignEvidenceStatus::OperatorReviewEligible ==> e.reasons@.len() == 0
        && e.completed_case_count == e.case_count && e.required_scenarios_complete && e.covered_scenarios_complete)
}

pub fn valid_evidence(e: &ChangeCampaignEvidence, created_at_ns: i64) -> (r: bool)
    ensures
        r == evidence_valid(*e, created_at_ns),
{
    let eligible = match e.status {
        CampaignEvidenceStatus::OperatorReviewEligible => true,
        CampaignEvidenceStatus::NotEligible => false,
    };
    e.verify_digest() && !is_zero32(&e.evidence_id) && !is_zero32(&e.campaign_id) && e.evaluated_at_ns <= created_at_ns
        && e.operator_decision_required && !e.credential_material_created && !e.authentication_authority_granted
        && !e.deployment_authority_granted && !e.rollback_execution_authority_granted && !e.traffic_authority_granted
        && !e.cloud_control_authority_granted && !e.live_trading_authority_granted && e.completed_case_count <= e.case_count
        && e.restart_reconstruction_count <= e.completed_case_count && e.independent_plan_count == e.plan_digests.len()
        && e.approval_set_count <= e.independent_plan_count && valid_subject_set(&e.plan_digests)
        && valid_subject_set(&e.certificate_digests) && valid_subject_set(&e.preflight_report_digests)
        && valid_subject_set(&e.rollback_package_digests) && (!eligible || (e.reasons.len() == 0
        && e.completed_case_count == e.case_count && e.required_scenarios_complete && e.covered_scenarios_complete))
}

/// Evidence is in non-decreasing digest order.
pub open spec fn evidence_ordered(ev: Seq<ChangeCampaignEvidence>) -> bool {
    forall|i: int| 0 <= i < ev.len() - 1 ==> !bytes_lt(#[trigger] ev[i + 1].evidence_digest@, ev[i].evidence_digest@)
}

/// Two records share an evidence id or a campaign id but not their digest.
pub open spec fn evidence_conflict(ev: Seq<ChangeCampaignEvidence>) -> bool {
    exists|i: int, j: int|
        0 <= i < j < ev.len() && ((#[trigger] ev[i]).evidence_id@ == (#[trigger] ev[j]).evidence_id@
            || ev[i].campaign_id@ == ev[j].campaign_id@) && ev[i].evidence_digest@ != ev[j].evidence_digest@
}

/// Every digest in one of the evidence sets, across all evidence.
pub open spec fn union_views(ev: Seq<ChangeCampaignEvidence>, which: int) -> Set<Seq<u8>> {
    Set::new(|d: Seq<u8>| exists|i: int, j: int| 0 <= i < ev.len() && 0 <= j < evidence_list(ev[i], which).len()
        && (#[trigger] evidence_list(ev[i], which)[j])@ == d)
}

/// The identity, window, size, order, digests, baseline and subject of a candidate.
pub open spec fn candidate_shape_valid(c: ProductionReadinessCandidate, p: ProductionReadinessPolicy) -> bool {
    &&& c.candidate_id@ != zero32()
    &&& c.created_at_ns >= 0
    &&& c.expires_at_ns > c.created_at_ns
    &&& c.expires_at_ns - c.created_at_ns <= p.maximum_candidate_age_ns
    &&& c.evidence@.len() > 0
    &&& c.evidence@.len() <= p.maximum_evidence_records
    &&& evidence_ordered(c.evidence@)
    &&& c.policy_digest@ == policy_digest_spec(p)
    &&& c.candidate_digest@ == candidate_digest_spec(c)
    &&& c.baseline.baseline_digest@ == baseline_digest_spec(c.baseline)
    &&& baseline_valid(c.baseline)
    &&& subject_valid(c.subject)
}

/// Every record is valid and no id or campaign appears with two digests.
pub open spec fn evidence_set_valid(ev: Seq<ChangeCampaignEvidence>, created_at_ns: i64) -> bool {
    &&& forall|i: int| 0 <= i < ev.len() ==> evidence_valid(#[trigger] ev[i], created_at_ns)
    &&& !evidence_conflict(ev)
}

/// The subject names exactly the union of the evidence's digest sets.
pub open spec fn subject_matches(c: ProductionReadinessCandidate) -> bool {
    forall|w: int| 0 <= w < 4 ==> view_set(#[trigger] subject_list(c.subject, w)) == union_views(c.evidence@, w)
}

/// The verdict of candidate validation, checks in order.
pub open spec fn candidate_check(c: ProductionReadinessCandidate, p: ProductionReadinessPolicy) -> Result<(), Error> {
    if !candidate_shape_valid(c, p) {
        Err(Error::Candidate)
    } else if !evidence_set_valid(c.evidence@, c.created_at_ns) {
        Err(Error::Evidence)
    } else if !subject_matches(c) {
        Err(Error::Candidate)
    } else {
        Ok(())
    }
}

fn evidence_in_order(ev: &Vec<ChangeCampaignEvidence>) -> (r: bool)
    ensures
        r == evidence_ordered(ev@),
{
    if ev.len() == 0 {
        return true;
    }
    let mut i: usize = 1;
    while i < ev.len()
        invariant
            1 <= i <= ev@.len(),
            forall|k: int| 0 <= k < i - 1 ==> !bytes_lt(#[trigger] ev@[k + 1].evidence_digest@, ev@[k].evidence_digest@),
        decreases ev@.len() - i,
    {
        if bytes_less(ev[i].evidence_digest.as_slice(), ev[i - 1].evidence_digest.as_slice()) {
            assert(bytes_lt(ev@[(i - 1) + 1].evidence_digest@, ev@[i - 1].evidence_digest@));
            return false;
        }
        i = i + 1;
    }
    true
}

fn check_evidence_set(ev: &Vec<ChangeCampaignEvidence>, created_at_ns: i64) -> (r: bool)
    ensures
        r == evidence_set_valid(ev@, created_at_ns),
{
    let mut i: usize = 0;
    while i < ev.len()
        invariant
            i <= ev@.len(),
            forall|k: int| 0 <= k < i ==> evidence_valid(#[trigger] ev@[k], created_at_ns),
            forall|a: int, b: int|
                0 <= a < b < i ==> (((#[trigger] ev@[a]).evidence_id@ == (#[trigger] ev@[b]).evidence_id@
                    || ev@[a].campaign_id@ == ev@[b].campaign_id@) ==> ev@[a].evidence_digest@ == ev@[b].evidence_digest@),
        decreases ev@.len() - i,
    {
        if !valid_evidence(&ev[i], created_at_ns) {
            return false;
        }
        let mut j: usize = 0;
        while j < i
            invariant
                j <= i < ev@.len(),
                forall|a: int| 0 <= a < j ==> (((#[trigger] ev@[a]).evidence_id@ == ev@[i as int].evidence_id@
                    || ev@[a].campaign_id@ == ev@[i as int].campaign_id@) ==> ev@[a].evidence_digest@ == ev@[i as int].evidence_digest@),
            decreases i - j,
        {
            if (digest_eq(&ev[j].evidence_id, &ev[i].evidence_id) || digest_eq(&ev[j].campaign_id, &ev[i].campaign_id))
                && !digest_eq(&ev[j].evidence_digest, &ev[i].evidence_digest) {
                assert(evidence_conflict(ev@)) by {
                    assert(ev@[j as int].evidence_digest@ != ev@[i as int].evidence_digest@);
                }
                return false;
            }
            j = j + 1;
        }
        i = i + 1;
    }
    true
}

fn digest_in(v: &Vec<[u8; 32]>, d: &[u8; 32]) -> (r: bool)
    ensures
        r == exists|k: int| 0 <= k < v@.len() && (#[trigger] v@[k])@ == d@,
{
    let mut k: usize = 0;
    while k < v.len()
        invariant
            k <= v@.len(),
            forall|j: int| 0 <= j < k ==> (#[trigger] v@[j])@ != d@,
        decreases v@.len() - k,
    {
        if digest_eq(&v[k], d) {
            return true;
        }
        k = k + 1;
    }
    false
}

fn in_some_evidence(ev: &Vec<ChangeCampaignEvidence>, which: u8, d: &[u8; 32]) -> (r: bool)
    ensures
        r == union_views(ev@, which as int).contains(d@),
{
    let mut i: usize = 0;
    while i < ev.len()
        invariant
            i <= ev@.len(),
            forall|a: int, b: int| 0 <= a < i && 0 <= b < evidence_list(ev@[a], which as int).len()
                ==> (#[trigger] evidence_list(ev@[a], which as int)[b])@ != d@,
        decreases ev@.len() - i,
    {
        let list = evidence_list_of(&ev[i], which);
        if digest_in(list, d) {
            return true;
        }
        i = i + 1;
    }
    false
}

fn subject_list_matches(c: &ProductionReadinessCandidate, which: u8) -> (r: bool)
    ensures
        r == (view_set(subject_list(c.subject, which as int)) == union_views(c.evidence@, which as int)),
{
    let s = subject_list_of(&c.subject, which);
    let ghost u = union_views(c.evidence@, which as int);
    let mut k: usize = 0;
    while k < s.len()
        invariant
            k <= s@.len(),
            s@ == subject_list(c.subject, which as int),
            u == union_views(c.evidence@, which as int),
            forall|j: int| 0 <= j < k ==> u.contains((#[trigger] s@[j])@),
        decreases s@.len() - k,
    {
        if !in_some_evidence(&c.evidence, which, &s[k]) {
            assert(view_set(s@).contains(s@[k as int]@));
            return false;
        }
        k = k + 1;
    }
    let mut i: usize = 0;
    while i < c.evidence.len()
        invariant
            i <= c.evidence@.len(),
            s@ == subject_list(c.subject, which as int),
            u == union_views(c.evidence@, which as int),
            forall|j: int| 0 <= j < s@.len() ==> u.contains((#[trigger] s@[j])@),
            forall|a: int, b: int| 0 <= a < i && 0 <= b < evidence_list(c.evidence@[a], which as int).len()
                ==> view_set(s@).contains((#[trigger] evidence_list(c.evidence@[a], which as int)[b])@),
        decreases c.evidence@.len() - i,
    {
        let list = evidence_list_of(&c.evidence[i], which);
        let mut j: usize = 0;
        while j < list.len()
            invariant
                j <= list@.len(),
                i < c.evidence@.len(),
                s@ == subject_list(c.subject, which as int),
                u == union_views(c.evidence@, which as int),
                list@ == evidence_list(c.evidence@[i as int], which as int),
                forall|b: int| 0 <= b < j ==> view_set(s@).contains((#[trigger] list@[b])@),
            decreases list@.len() - j,
        {
            if !digest_in(s, &list[j]) {
                assert(evidence_list(c.evidence@[i as int], which as int)[j as int] == list@[j as int]);
                assert(u.contains(list@[j as int]@));
                assert(!view_set(s@).contains(list@[j as int]@));
                return false;
            }
            j = j + 1;
        }
        i = i + 1;
    }
    assert(view_set(s@) =~= u) by {
        assert forall|d: Seq<u8>| view_set(s@).contains(d) implies u.contains(d) by {
            let k = choose|k: int| 0 <= k < s@.len() && (#[trigger] s@[k])@ == d;
        }
        assert forall|d: Seq<u8>| u.contains(d) implies view_set(s@).contains(d) by {
            let (a, b) = choose|a: int, b: int| 0 <= a < c.evidence@.len() && 0 <= b < evidence_list(c.evidence@[a], which as int).len()
                && (#[trigger] evidence_list(c.evidence@[a], which as int)[b])@ == d;
        }
    }
    true
}

/// Validates a candidate against the policy.
pub fn validate_candidate(c: &ProductionReadinessCandidate, p: &ProductionReadinessPolicy) -> (r: Result<(), Error>)
    ensures
        r == candidate_check(*c, *p),
{
    if is_zero32(&c.candidate_id) || c.created_at_ns < 0 || c.expires_at_ns <= c.created_at_ns
        || c.expires_at_ns - c.created_at_ns > p.maximum_candidate_age_ns || c.evidence.len() == 0
        || c.evidence.len() > p.maximum_evidence_records || !evidence_in_order(&c.evidence) || !c.verify_digest(p)
        || !c.baseline.verify_digest() || !valid_baseline(&c.baseline) || !valid_subject(&c.subject) {
        return Err(Error::Candidate);
    }
    if !check_evidence_set(&c.evidence, c.created_at_ns) {
        return Err(Error::Evidence);
    }
    let m0 = subject_list_matches(c, 0);
    let m1 = subject_list_matches(c, 1);
    let m2 = subject_list_matches(c, 2);
    let m3 = subject_list_matches(c, 3);
    if !(m0 && m1 && m2 && m3) {
        return Err(Error::Candidate);
    }
    assert forall|w: int| 0 <= w < 4 implies view_set(#[trigger] subject_list(c.subject, w)) == union_views(c.evidence@, w) by {
        if w == 0 {
        } else if w == 1 {
        } else if w == 2 {
        } else {
        }
    }
    Ok(())
}

} // verus!
