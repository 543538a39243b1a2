//! Aggregation of independent campaign evidence and the reasons it yields.

use vstd::prelude::*;
use crate::digest::digest_eq;
use crate::order::{lemma_reason_if_contains, push_when, reason_if, add_distinct, enumerates, ids_sorted, insert_id, lemma_view_set_len, view_set, views_unique};
use super::types::{CampaignStatus, CandidateAggregate, EligibilityReason, Error, EvidenceBundle, GovernancePolicy};
use super::types::{RegressionBaseline, ReleaseCandidateSubmission};

verus! {

/// No earlier bundle carries the same digest.
pub open spec fn first_digest(ev: Seq<EvidenceBundle>, i: int) -> bool {
    forall|j: int| 0 <= j < i ==> (#[trigger] ev[j]).bundle_digest@ != ev[i].bundle_digest@
}

/// The bundle that stands for its campaign: the first of its digest, and no
/// earlier such bundle belongs to the same campaign.
pub open spec fn selected(ev: Seq<EvidenceBundle>, i: int) -> bool {
    &&& first_digest(ev, i)
    &&& forall|j: int| 0 <= j < i && first_digest(ev, j) ==> (#[trigger] ev[j]).campaign_id@ != ev[i].campaign_id@
}

pub open spec fn eligible(b: EvidenceBundle) -> bool {
    b.status == CampaignStatus::PromotionEligible
}

/// Evaluated longer before the candidate than the policy allows.
pub open spec fn stale(b: EvidenceBundle, created_at_ns: i64, p: GovernancePolicy) -> bool {
    created_at_ns - b.evaluated_at_ns > p.maximum_bundle_age_ns
}

/// A bundle whose campaign counts toward the aggregate.
pub open spec fn counted(ev: Seq<EvidenceBundle>, created_at_ns: i64, p: GovernancePolicy, i: int) -> bool {
    selected(ev, i) && eligible(ev[i]) && !stale(ev[i], created_at_ns, p)
}

/// Fault cycles of one bundle.
pub open spec fn faults(b: EvidenceBundle) -> int {
    b.dead_man_count + b.restart_count + b.unknown_recovery_count
}

/// Which total a prefix sum adds up.
pub open spec fn measure(b: EvidenceBundle, which: int) -> int {
    if which == 0 {
        1
    } else if which == 1 {
        b.completed_session_count as int
    } else if which == 2 {
        b.applied_step_count as int
    } else {
        faults(b)
    }
}

/// Sum of a measure over the counted bundles among the first `n`.
pub open spec fn total(ev: Seq<EvidenceBundle>, created_at_ns: i64, p: GovernancePolicy, which: int, n: int) -> int
    decreases n,
{
    if n <= 0 {
        0
    } else {
        total(ev, created_at_ns, p, which, n - 1) + if counted(ev, created_at_ns, p, n - 1) {
            measure(ev[n - 1], which)
        } else {
            0
        }
    }
}

/// The values of one digest field over the counted bundles.
pub open spec fn digest_field(b: EvidenceBundle, which: int) -> Seq<u8> {
    if which == 0 {
        b.manifest_digest@
    } else if which == 1 {
        b.schedule_digest@
    } else {
        b.final_gateway_digest@
    }
}

pub open spec fn distinct_values(ev: Seq<EvidenceBundle>, created_at_ns: i64, p: GovernancePolicy, which: int, n: int) -> Set<Seq<u8>> {
    Set::new(|d: Seq<u8>| exists|i: int| 0 <= i < n && counted(ev, created_at_ns, p, i) && digest_field(#[trigger] ev[i], which) == d)
}

/// Aggregation overflows a 64-bit counter.
pub open spec fn aggregate_overflows(ev: Seq<EvidenceBundle>, created_at_ns: i64, p: GovernancePolicy) -> bool {
    ||| exists|i: int| 0 <= i < ev.len() && counted(ev, created_at_ns, p, i) && faults(#[trigger] ev[i]) > u64::MAX
    ||| total(ev, created_at_ns, p, 1, ev.len() as int) > u64::MAX
    ||| total(ev, created_at_ns, p, 2, ev.len() as int) > u64::MAX
    ||| total(ev, created_at_ns, p, 3, ev.len() as int) > u64::MAX
}

/// The aggregate of a candidate's evidence.
pub open spec fn aggregate_spec(ev: Seq<EvidenceBundle>, created_at_ns: i64, p: GovernancePolicy) -> CandidateAggregate {
    let n = ev.len() as int;
    CandidateAggregate {
        unique_campaigns: total(ev, created_at_ns, p, 0, n) as u64,
        distinct_manifests: distinct_values(ev, created_at_ns, p, 0, n).len() as u64,
        distinct_schedules: distinct_values(ev, created_at_ns, p, 1, n).len() as u64,
        distinct_final_states: distinct_values(ev, created_at_ns, p, 2, n).len() as u64,
        total_sessions: total(ev, created_at_ns, p, 1, n) as u64,
        total_steps: total(ev, created_at_ns, p, 2, n) as u64,
        total_fault_cycles: total(ev, created_at_ns, p, 3, n) as u64,
    }
}

proof fn lemma_total_monotone(ev: Seq<EvidenceBundle>, created_at_ns: i64, p: GovernancePolicy, which: int, m: int, n: int)
    requires
        0 <= m <= n,
    ensures
        total(ev, created_at_ns, p, which, m) <= total(ev, created_at_ns, p, which, n),
    decreases n - m,
{
    if m < n {
        lemma_total_monotone(ev, created_at_ns, p, which, m, n - 1);
    }
}

proof fn lemma_total_bound(ev: Seq<EvidenceBundle>, created_at_ns: i64, p: GovernancePolicy, n: int)
    requires
        0 <= n,
    ensures
        0 <= total(ev, created_at_ns, p, 0, n) <= n,
    decreases n,
{
    if n > 0 {
        lemma_total_bound(ev, created_at_ns, p, n - 1);
    }
}

/// The bundle ids behind one kind of campaign reason among the first `n`
/// bundles: stale eligible campaigns, or ineligible ones.
pub open spec fn reason_ids(ev: Seq<EvidenceBundle>, created_at_ns: i64, p: GovernancePolicy, stale_kind: bool, n: int) -> Set<Seq<u8>> {
    Set::new(|d: Seq<u8>| exists|i: int| 0 <= i < n && selected(ev, i)
        && (if stale_kind { eligible(ev[i]) && stale(ev[i], created_at_ns, p) } else { !eligible(ev[i]) })
        && (#[trigger] ev[i]).bundle_id@ == d)
}

/// Some bundle does not stand for its campaign: a repeated digest or a
/// campaign seen twice.
pub open spec fn duplicate_evidence(ev: Seq<EvidenceBundle>) -> bool {
    exists|i: int| 0 <= i < ev.len() && !#[trigger] selected(ev, i)
}

/// Required minimum after retaining `retention_bps` basis points of `baseline`, rounded up.
pub open spec fn retained_floor_spec(baseline: u64, retention_bps: u64) -> int {
    (baseline * retention_bps + 9999) / 10000
}

/// Stricter retention never lowers the required floor.
pub proof fn law_stricter_retention_never_lowers_floor(baseline: u64, lower: u64, higher: u64)
    requires
        lower <= higher,
    ensures
        retained_floor_spec(baseline, lower) <= retained_floor_spec(baseline, higher),
{
    assert(baseline * lower <= baseline * higher) by (nonlinear_arith)
        requires
            lower <= higher,
    ;
    assert((baseline * lower + 9999) / 10000 <= (baseline * higher + 9999) / 10000) by (nonlinear_arith)
        requires
            baseline * lower <= baseline * higher,
    ;
}

/// The retained floor of a baseline count, or `Overflow` where it exceeds 64 bits.
pub fn retained_floor(baseline: u64, retention_bps: u64) -> (r: Result<u64, Error>)
    ensures
        match r {
            Ok(v) => v == retained_floor_spec(baseline, retention_bps),
            Err(e) => e == Error::Overflow && retained_floor_spec(baseline, retention_bps) > u64::MAX,
        },
{
    let b = baseline as u128;
    let q = retention_bps as u128;
    assert(b * q <= 0xffff_ffff_ffff_fffe_0000_0000_0000_0001) by (nonlinear_arith)
        requires
            b <= 0xffff_ffff_ffff_ffff,
            q <= 0xffff_ffff_ffff_ffff,
    ;
    let product = b * q;
    let rounded = (product + 9999) / 10000;
    if rounded > u64::MAX as u128 {
        return Err(Error::Overflow);
    }
    Ok(rounded as u64)
}

/// `left + right`, or `Overflow`.
pub fn checked_add(left: u64, right: u64) -> (r: Result<u64, Error>)
    ensures
        match r {
            Ok(v) => v == left + right,
            Err(e) => e == Error::Overflow && left + right > u64::MAX,
        },
{
    match left.checked_add(right) {
        Some(v) => Ok(v),
        None => Err(Error::Overflow),
    }
}

/// A count as a 64-bit value; every `usize` fits.
pub fn usize_to_u64(value: usize) -> (r: Result<u64, Error>)
    ensures
        r == Ok::<u64, Error>(value as u64),
{
    Ok(value as u64)
}

/// Shortfalls of the aggregate against the absolute minimums, in order.
pub open spec fn absolute_reasons(a: CandidateAggregate, p: GovernancePolicy) -> Seq<EligibilityReason> {
    reason_if(a.unique_campaigns < p.minimum_campaigns, EligibilityReason::InsufficientCampaigns)
        + reason_if(a.distinct_manifests < p.minimum_distinct_manifests, EligibilityReason::InsufficientManifestDiversity)
        + reason_if(a.distinct_schedules < p.minimum_distinct_schedules, EligibilityReason::InsufficientScheduleDiversity)
        + reason_if(a.distinct_final_states < p.minimum_distinct_final_states, EligibilityReason::InsufficientFinalStateDiversity)
        + reason_if(a.total_sessions < p.minimum_total_sessions, EligibilityReason::InsufficientSessions)
        + reason_if(a.total_steps < p.minimum_total_steps, EligibilityReason::InsufficientSteps)
        + reason_if(a.total_fault_cycles < p.minimum_total_fault_cycles, EligibilityReason::InsufficientFaultCycles)
}

/// Regressions of the aggregate against the retained baseline, in order.
pub open spec fn regression_reasons(a: CandidateAggregate, b: RegressionBaseline, p: GovernancePolicy) -> Seq<EligibilityReason> {
    let q = p.minimum_regression_retention_bps as u64;
    reason_if(a.unique_campaigns < retained_floor_spec(b.campaign_count, q), EligibilityReason::RegressionCampaignCount)
        + reason_if(a.total_sessions < retained_floor_spec(b.total_sessions, q), EligibilityReason::RegressionSessionCount)
        + reason_if(a.total_steps < retained_floor_spec(b.total_steps, q), EligibilityReason::RegressionStepCount)
        + reason_if(a.total_fault_cycles < retained_floor_spec(b.total_fault_cycles, q), EligibilityReason::RegressionFaultCycles)
}

/// Appends the absolute shortfalls of an aggregate.
pub fn apply_absolute_reasons(a: &CandidateAggregate, p: &GovernancePolicy, reasons: &mut Vec<EligibilityReason>)
    ensures
        final(reasons)@ == old(reasons)@ + absolute_reasons(*a, *p),
{
    let ghost start = reasons@;
    push_when(reasons, a.unique_campaigns < p.minimum_campaigns as u64, EligibilityReason::InsufficientCampaigns);
    let ghost w0 = reason_if(a.unique_campaigns < p.minimum_campaigns, EligibilityReason::InsufficientCampaigns);
    let ghost s0 = w0;
    assert(reasons@ == start + s0);
    push_when(reasons, a.distinct_manifests < p.minimum_distinct_manifests as u64, EligibilityReason::InsufficientManifestDiversity);
    let ghost w1 = reason_if(a.distinct_manifests < p.minimum_distinct_manifests, EligibilityReason::InsufficientManifestDiversity);
    let ghost s1 = s0 + w1;
    assert(reasons@ =~= start + s1);
    push_when(reasons, a.distinct_schedules < p.minimum_distinct_schedules as u64, EligibilityReason::InsufficientScheduleDiversity);
    let ghost w2 = reason_if(a.distinct_schedules < p.minimum_distinct_schedules, EligibilityReason::InsufficientScheduleDiversity);
    let ghost s2 = s1 + w2;
    assert(reasons@ =~= start + s2);
    push_when(reasons, a.distinct_final_states < p.minimum_distinct_final_states as u64, EligibilityReason::InsufficientFinalStateDiversity);
    let ghost w3 = reason_if(a.distinct_final_states < p.minimum_distinct_final_states, EligibilityReason::InsufficientFinalStateDiversity);
    let ghost s3 = s2 + w3;
    assert(reasons@ =~= start + s3);
    push_when(reasons, a.total_sessions < p.minimum_total_sessions, EligibilityReason::InsufficientSessions);
    let ghost w4 = reason_if(a.total_sessions < p.minimum_total_sessions, EligibilityReason::InsufficientSessions);
    let ghost s4 = s3 + w4;
    assert(reasons@ =~= start + s4);
    push_when(reasons, a.total_steps < p.minimum_total_steps, EligibilityReason::InsufficientSteps);
    let ghost w5 = reason_if(a.total_steps < p.minimum_total_steps, EligibilityReason::InsufficientSteps);
    let ghost s5 = s4 + w5;
    assert(reasons@ =~= start + s5);
    push_when(reasons, a.total_fault_cycles < p.minimum_total_fault_cycles, EligibilityReason::InsufficientFaultCycles);
    let ghost w6 = reason_if(a.total_fault_cycles < p.minimum_total_fault_cycles, EligibilityReason::InsufficientFaultCycles);
    let ghost s6 = s5 + w6;
    assert(reasons@ =~= start + s6);
    assert(reasons@ =~= start + absolute_reasons(*a, *p));
}

/// Appends the regressions of an aggregate against its baseline, or fails
/// with `Overflow` where a floor exceeds 64 bits (reasons then untouched).
pub fn apply_regression_reasons(
    a: &CandidateAggregate,
    b: &RegressionBaseline,
    p: &GovernancePolicy,
    reasons: &mut Vec<EligibilityReason>,
) -> (r: Result<(), Error>)
    ensures
        match r {
            Ok(_) => final(reasons)@ == old(reasons)@ + regression_reasons(*a, *b, *p) && !floors_overflow(*b, *p),
            Err(e) => {
                let q = p.minimum_regression_retention_bps as u64;
                &&& e == Error::Overflow
                &&& final(reasons)@ == old(reasons)@
                &&& (retained_floor_spec(b.campaign_count, q) > u64::MAX || retained_floor_spec(b.total_sessions, q) > u64::MAX
                    || retained_floor_spec(b.total_steps, q) > u64::MAX || retained_floor_spec(b.total_fault_cycles, q) > u64::MAX)
            },
        },
{
    let q = p.minimum_regression_retention_bps as u64;
    let campaigns = match retained_floor(b.campaign_count, q) { Ok(v) => v, Err(e) => { return Err(e); } };
    let sessions = match retained_floor(b.total_sessions, q) { Ok(v) => v, Err(e) => { return Err(e); } };
    let steps = match retained_floor(b.total_steps, q) { Ok(v) => v, Err(e) => { return Err(e); } };
    let fault_cycles = match retained_floor(b.total_fault_cycles, q) { Ok(v) => v, Err(e) => { return Err(e); } };
    let ghost start = reasons@;
    push_when(reasons, a.unique_campaigns < campaigns, EligibilityReason::RegressionCampaignCount);
    push_when(reasons, a.total_sessions < sessions, EligibilityReason::RegressionSessionCount);
    push_when(reasons, a.total_steps < steps, EligibilityReason::RegressionStepCount);
    push_when(reasons, a.total_fault_cycles < fault_cycles, EligibilityReason::RegressionFaultCycles);
    assert(reasons@ =~= start + regression_reasons(*a, *b, *p));
    Ok(())
}

fn selection(ev: &Vec<EvidenceBundle>) -> (sel: Vec<bool>)
    ensures
        sel@.len() == ev@.len(),
        forall|i: int| 0 <= i < ev@.len() ==> sel@[i] == selected(ev@, i),
{
    let mut first: Vec<bool> = Vec::new();
    let mut sel: Vec<bool> = Vec::new();
    let mut i: usize = 0;
    while i < ev.len()
        invariant
            i <= ev@.len(),
            first@.len() == i,
            sel@.len() == i,
            forall|k: int| 0 <= k < i ==> first@[k] == first_digest(ev@, k),
            forall|k: int| 0 <= k < i ==> sel@[k] == selected(ev@, k),
        decreases ev@.len() - i,
    {
        let mut f = true;
        let mut j: usize = 0;
        while j < i
            invariant
                j <= i < ev@.len(),
                f == forall|k: int| 0 <= k < j ==> (#[trigger] ev@[k]).bundle_digest@ != ev@[i as int].bundle_digest@,
            decreases i - j,
        {
            if digest_eq(&ev[j].bundle_digest, &ev[i].bundle_digest) {
                f = false;
            }
            j = j + 1;
        }
        let mut c = f;
        let mut j: usize = 0;
        while j < i
            invariant
                j <= i < ev@.len(),
                first@.len() == i,
                forall|k: int| 0 <= k < i ==> first@[k] == first_digest(ev@, k),
                c == (f && forall|k: int| 0 <= k < j && first_digest(ev@, k) ==> (#[trigger] ev@[k]).campaign_id@ != ev@[i as int].campaign_id@),
            decreases i - j,
        {
            if first[j] && digest_eq(&ev[j].campaign_id, &ev[i].campaign_id) {
                c = false;
            }
            j = j + 1;
        }
        first.push(f);
        sel.push(c);
        i = i + 1;
    }
    sel
}

proof fn lemma_distinct_step(ev: Seq<EvidenceBundle>, created_at_ns: i64, p: GovernancePolicy, which: int, i: int)
    requires
        0 <= i < ev.len(),
    ensures
        distinct_values(ev, created_at_ns, p, which, i + 1) == if counted(ev, created_at_ns, p, i) {
            distinct_values(ev, created_at_ns, p, which, i).insert(digest_field(ev[i], which))
        } else {
            distinct_values(ev, created_at_ns, p, which, i)
        },
{
    let a = distinct_values(ev, created_at_ns, p, which, i + 1);
    let b = distinct_values(ev, created_at_ns, p, which, i);
    if counted(ev, created_at_ns, p, i) {
        assert(a =~= b.insert(digest_field(ev[i], which))) by {
            assert forall|d: Seq<u8>| a.contains(d) implies b.insert(digest_field(ev[i], which)).contains(d) by {
                let k = choose|k: int| 0 <= k < i + 1 && counted(ev, created_at_ns, p, k) && digest_field(#[trigger] ev[k], which) == d;
                if k < i {
                    assert(b.contains(d));
                }
            }
        }
    } else {
        assert(a =~= b) by {
            assert forall|d: Seq<u8>| a.contains(d) implies b.contains(d) by {
                let k = choose|k: int| 0 <= k < i + 1 && counted(ev, created_at_ns, p, k) && digest_field(#[trigger] ev[k], which) == d;
                assert(k < i);
            }
        }
    }
}

proof fn lemma_reason_ids_step(ev: Seq<EvidenceBundle>, created_at_ns: i64, p: GovernancePolicy, stale_kind: bool, i: int)
    requires
        0 <= i < ev.len(),
    ensures
        reason_ids(ev, created_at_ns, p, stale_kind, i + 1) == if selected(ev, i)
            && (if stale_kind { eligible(ev[i]) && stale(ev[i], created_at_ns, p) } else { !eligible(ev[i]) }) {
            reason_ids(ev, created_at_ns, p, stale_kind, i).insert(ev[i].bundle_id@)
        } else {
            reason_ids(ev, created_at_ns, p, stale_kind, i)
        },
{
    let a = reason_ids(ev, created_at_ns, p, stale_kind, i + 1);
    let b = reason_ids(ev, created_at_ns, p, stale_kind, i);
    let hit = selected(ev, i) && (if stale_kind { eligible(ev[i]) && stale(ev[i], created_at_ns, p) } else { !eligible(ev[i]) });
    if hit {
        assert(a =~= b.insert(ev[i].bundle_id@)) by {
            assert forall|d: Seq<u8>| a.contains(d) implies b.insert(ev[i].bundle_id@).contains(d) by {
                let k = choose|k: int| 0 <= k < i + 1 && selected(ev, k)
                    && (if stale_kind { eligible(ev[k]) && stale(ev[k], created_at_ns, p) } else { !eligible(ev[k]) })
                    && (#[trigger] ev[k]).bundle_id@ == d;
                if k < i {
                    assert(b.contains(d));
                }
            }
        }
    } else {
        assert(a =~= b) by {
            assert forall|d: Seq<u8>| a.contains(d) implies b.contains(d) by {
                let k = choose|k: int| 0 <= k < i + 1 && selected(ev, k)
                    && (if stale_kind { eligible(ev[k]) && stale(ev[k], created_at_ns, p) } else { !eligible(ev[k]) })
                    && (#[trigger] ev[k]).bundle_id@ == d;
                assert(k < i);
            }
        }
    }
}

/// Running state of aggregation over a prefix of the evidence.
pub struct Tally {
    pub count: u64,
    pub sessions: u64,
    pub steps: u64,
    pub fault_cycles: u64,
    pub manifests: Vec<[u8; 32]>,
    pub schedules: Vec<[u8; 32]>,
    pub final_states: Vec<[u8; 32]>,
    pub not_eligible: Vec<[u8; 32]>,
    pub stale: Vec<[u8; 32]>,
}

/// The tally is exact for the first `n` bundles.
pub open spec fn tally_inv(t: Tally, ev: Seq<EvidenceBundle>, created_at_ns: i64, p: GovernancePolicy, n: int) -> bool {
    &&& t.count == total(ev, created_at_ns, p, 0, n)
    &&& t.sessions == total(ev, created_at_ns, p, 1, n)
    &&& t.steps == total(ev, created_at_ns, p, 2, n)
    &&& t.fault_cycles == total(ev, created_at_ns, p, 3, n)
    &&& forall|i: int| 0 <= i < n && counted(ev, created_at_ns, p, i) ==> faults(#[trigger] ev[i]) <= u64::MAX
    &&& views_unique(t.manifests@) && view_set(t.manifests@) == distinct_values(ev, created_at_ns, p, 0, n)
    &&& views_unique(t.schedules@) && view_set(t.schedules@) == distinct_values(ev, created_at_ns, p, 1, n)
    &&& views_unique(t.final_states@) && view_set(t.final_states@) == distinct_values(ev, created_at_ns, p, 2, n)
    &&& t.manifests@.len() <= n && t.schedules@.len() <= n && t.final_states@.len() <= n
    &&& enumerates(t.not_eligible@, reason_ids(ev, created_at_ns, p, false, n))
    &&& enumerates(t.stale@, reason_ids(ev, created_at_ns, p, true, n))
}

proof fn lemma_overflow_at(ev: Seq<EvidenceBundle>, created_at_ns: i64, p: GovernancePolicy, which: int, i: int)
    requires
        0 <= i < ev.len(),
        total(ev, created_at_ns, p, which, i + 1) > u64::MAX,
    ensures
        total(ev, created_at_ns, p, which, ev.len() as int) > u64::MAX,
{
    lemma_total_monotone(ev, created_at_ns, p, which, i + 1, ev.len() as int);
}

#[verifier::rlimit(40)]
fn tally(ev: &Vec<EvidenceBundle>, sel: &Vec<bool>, created_at_ns: i64, p: &GovernancePolicy) -> (r: Result<Tally, Error>)
    requires
        sel@.len() == ev@.len(),
        forall|i: int| 0 <= i < ev@.len() ==> sel@[i] == selected(ev@, i),
    ensures
        match r {
            Ok(t) => !aggregate_overflows(ev@, created_at_ns, *p) && tally_inv(t, ev@, created_at_ns, *p, ev@.len() as int),
            Err(e) => e == Error::Overflow && aggregate_overflows(ev@, created_at_ns, *p),
        },
{
    let ghost s = ev@;
    let mut t = Tally {
        count: 0,
        sessions: 0,
        steps: 0,
        fault_cycles: 0,
        manifests: Vec::new(),
        schedules: Vec::new(),
        final_states: Vec::new(),
        not_eligible: Vec::new(),
        stale: Vec::new(),
    };
    proof {
        assert(distinct_values(s, created_at_ns, *p, 0, 0) =~= Set::empty());
        assert(distinct_values(s, created_at_ns, *p, 1, 0) =~= Set::empty());
        assert(distinct_values(s, created_at_ns, *p, 2, 0) =~= Set::empty());
        assert(view_set(t.manifests@) =~= Set::empty());
        assert(reason_ids(s, created_at_ns, *p, false, 0) =~= Set::empty());
        assert(reason_ids(s, created_at_ns, *p, true, 0) =~= Set::empty());
    }
    let mut i: usize = 0;
    while i < ev.len()
        invariant
            i <= s.len(),
            s == ev@,
            sel@.len() == s.len(),
            forall|k: int| 0 <= k < s.len() ==> sel@[k] == selected(s, k),
            tally_inv(t, s, created_at_ns, *p, i as int),
        decreases s.len() - i,
    {
        let b = &ev[i];
        let ghost ii = i as int;
        proof {
            lemma_distinct_step(s, created_at_ns, *p, 0, ii);
            lemma_distinct_step(s, created_at_ns, *p, 1, ii);
            lemma_distinct_step(s, created_at_ns, *p, 2, ii);
            lemma_reason_ids_step(s, created_at_ns, *p, false, ii);
            lemma_reason_ids_step(s, created_at_ns, *p, true, ii);
            lemma_total_bound(s, created_at_ns, *p, ii);
        }
        if sel[i] {
            let is_eligible = match b.status {
                CampaignStatus::PromotionEligible => true,
                CampaignStatus::NotEligible => false,
            };
            if !is_eligible {
                insert_id(&mut t.not_eligible, b.bundle_id);
            } else if created_at_ns as i128 - b.evaluated_at_ns as i128 > p.maximum_bundle_age_ns as i128 {
                insert_id(&mut t.stale, b.bundle_id);
            } else {
                t.count = t.count + 1;
                t.sessions = match checked_add(t.sessions, b.completed_session_count as u64) {
                    Ok(v) => v,
                    Err(e) => {
                        proof { lemma_overflow_at(s, created_at_ns, *p, 1, ii); }
                        return Err(e);
                    },
                };
                t.steps = match checked_add(t.steps, b.applied_step_count) {
                    Ok(v) => v,
                    Err(e) => {
                        proof { lemma_overflow_at(s, created_at_ns, *p, 2, ii); }
                        return Err(e);
                    },
                };
                let f = match b.dead_man_count.checked_add(b.restart_count) {
                    Some(x) => x.checked_add(b.unknown_recovery_count),
                    None => None,
                };
                let f = match f {
                    Some(v) => v,
                    None => {
                        assert(counted(s, created_at_ns, *p, ii) && faults(s[ii]) > u64::MAX);
                        return Err(Error::Overflow);
                    },
                };
                t.fault_cycles = match checked_add(t.fault_cycles, f) {
                    Ok(v) => v,
                    Err(e) => {
                        proof { lemma_overflow_at(s, created_at_ns, *p, 3, ii); }
                        return Err(e);
                    },
                };
                add_distinct(&mut t.manifests, b.manifest_digest);
                add_distinct(&mut t.schedules, b.schedule_digest);
                add_distinct(&mut t.final_states, b.final_gateway_digest);
            }
        }
        i = i + 1;
    }
    proof {
        assert forall|k: int| 0 <= k < s.len() && counted(s, created_at_ns, *p, k) implies faults(#[trigger] s[k]) <= u64::MAX by {}
    }
    Ok(t)
}

/// Campaign reasons for a sorted list of bundle ids.
pub open spec fn tagged(ids: Seq<[u8; 32]>, stale_kind: bool) -> Seq<EligibilityReason> {
    ids.map_values(|d: [u8; 32]| if stale_kind { EligibilityReason::CampaignStale(d) } else { EligibilityReason::CampaignNotEligible(d) })
}

/// A retained floor of the baseline exceeds 64 bits.
pub open spec fn floors_overflow(b: RegressionBaseline, p: GovernancePolicy) -> bool {
    let q = p.minimum_regression_retention_bps as u64;
    retained_floor_spec(b.campaign_count, q) > u64::MAX || retained_floor_spec(b.total_sessions, q) > u64::MAX
        || retained_floor_spec(b.total_steps, q) > u64::MAX || retained_floor_spec(b.total_fault_cycles, q) > u64::MAX
}

/// `r` lists the registration reasons of a candidate, in order: duplicate
/// evidence, ineligible and stale campaigns by bundle id, absolute shortfalls,
/// then regressions.
pub open spec fn base_reasons(r: Seq<EligibilityReason>, s: ReleaseCandidateSubmission, p: GovernancePolicy) -> bool {
    let ev = s.evidence@;
    let c = s.created_at_ns;
    let n = ev.len() as int;
    let a = aggregate_spec(ev, c, p);
    exists|ne: Seq<[u8; 32]>, st: Seq<[u8; 32]>|
        #![trigger enumerates(ne, reason_ids(ev, c, p, false, n)), enumerates(st, reason_ids(ev, c, p, true, n))]
        enumerates(ne, reason_ids(ev, c, p, false, n)) && enumerates(st, reason_ids(ev, c, p, true, n)) && r
            == reason_if(duplicate_evidence(ev), EligibilityReason::DuplicateEvidence) + tagged(ne, false) + tagged(st, true)
            + absolute_reasons(a, p) + regression_reasons(a, s.baseline, p)
}

fn push_tagged(reasons: &mut Vec<EligibilityReason>, ids: &Vec<[u8; 32]>, stale_kind: bool)
    ensures
        final(reasons)@ == old(reasons)@ + tagged(ids@, stale_kind),
{
    let ghost start = reasons@;
    let mut i: usize = 0;
    while i < ids.len()
        invariant
            i <= ids@.len(),
            reasons@ == start + tagged(ids@.take(i as int), stale_kind),
        decreases ids@.len() - i,
    {
        let r = if stale_kind { EligibilityReason::CampaignStale(ids[i]) } else { EligibilityReason::CampaignNotEligible(ids[i]) };
        reasons.push(r);
        assert(tagged(ids@.take(i + 1), stale_kind) =~= tagged(ids@.take(i as int), stale_kind).push(r));
        i = i + 1;
    }
    assert(ids@.take(ids@.len() as int) =~= ids@);
}

/// Aggregates the independent, eligible and fresh campaigns of a candidate
/// and lists why it falls short.
#[verifier::rlimit(40)]
pub fn aggregate_candidate(s: &ReleaseCandidateSubmission, p: &GovernancePolicy) -> (r: Result<(CandidateAggregate, Vec<EligibilityReason>), Error>)
    ensures
        match r {
            Ok((a, reasons)) => {
                &&& !aggregate_overflows(s.evidence@, s.created_at_ns, *p)
                &&& !floors_overflow(s.baseline, *p)
                &&& a == aggregate_spec(s.evidence@, s.created_at_ns, *p)
                &&& base_reasons(reasons@, *s, *p)
            },
            Err(e) => e == Error::Overflow && (aggregate_overflows(s.evidence@, s.created_at_ns, *p)
                || floors_overflow(s.baseline, *p)),
        },
{
    let ev = &s.evidence;
    let sel = selection(ev);
    let mut dup = false;
    let mut i: usize = 0;
    while i < sel.len()
        invariant
            i <= sel@.len(),
            sel@.len() == ev@.len(),
            forall|k: int| 0 <= k < ev@.len() ==> sel@[k] == selected(ev@, k),
            dup == exists|k: int| 0 <= k < i && !#[trigger] selected(ev@, k),
        decreases sel@.len() - i,
    {
        if !sel[i] {
            dup = true;
        }
        i = i + 1;
    }
    let t = match tally(ev, &sel, s.created_at_ns, p) {
        Ok(t) => t,
        Err(e) => {
            return Err(e);
        },
    };
    proof {
        lemma_view_set_len(t.manifests@);
        lemma_view_set_len(t.schedules@);
        lemma_view_set_len(t.final_states@);
    }
    let a = CandidateAggregate {
        unique_campaigns: t.count,
        distinct_manifests: t.manifests.len() as u64,
        distinct_schedules: t.schedules.len() as u64,
        distinct_final_states: t.final_states.len() as u64,
        total_sessions: t.sessions,
        total_steps: t.steps,
        total_fault_cycles: t.fault_cycles,
    };
    let mut reasons: Vec<EligibilityReason> = Vec::new();
    push_when(&mut reasons, dup, EligibilityReason::DuplicateEvidence);
    push_tagged(&mut reasons, &t.not_eligible, false);
    push_tagged(&mut reasons, &t.stale, true);
    apply_absolute_reasons(&a, p, &mut reasons);
    let ghost before = reasons@;
    match apply_regression_reasons(&a, &s.baseline, p, &mut reasons) {
        Ok(_) => {},
        Err(e) => {
            return Err(e);
        },
    }
    proof {
        let ev_s = s.evidence@;
        let n = ev_s.len() as int;
        assert(a == aggregate_spec(ev_s, s.created_at_ns, *p));
        assert(reasons@ =~= reason_if(duplicate_evidence(ev_s), EligibilityReason::DuplicateEvidence) + tagged(t.not_eligible@, false)
            + tagged(t.stale@, true) + absolute_reasons(a, *p) + regression_reasons(a, s.baseline, *p));
        assert(enumerates(t.not_eligible@, reason_ids(ev_s, s.created_at_ns, *p, false, n)));
        assert(enumerates(t.stale@, reason_ids(ev_s, s.created_at_ns, *p, true, n)));
    }
    Ok((a, reasons))
}

/// Each absolute minimum of the policy that the aggregate misses is reported
/// with its own reason, and a reason is reported only for a missed minimum.
pub proof fn law_each_missed_minimum_is_reported(a: CandidateAggregate, p: GovernancePolicy)
    ensures
        absolute_reasons(a, p).contains(EligibilityReason::InsufficientCampaigns) <==> a.unique_campaigns < p.minimum_campaigns,
        absolute_reasons(a, p).contains(EligibilityReason::InsufficientManifestDiversity) <==> a.distinct_manifests
            < p.minimum_distinct_manifests,
        absolute_reasons(a, p).contains(EligibilityReason::InsufficientScheduleDiversity) <==> a.distinct_schedules
            < p.minimum_distinct_schedules,
        absolute_reasons(a, p).contains(EligibilityReason::InsufficientFinalStateDiversity) <==> a.distinct_final_states
            < p.minimum_distinct_final_states,
        absolute_reasons(a, p).contains(EligibilityReason::InsufficientSessions) <==> a.total_sessions < p.minimum_total_sessions,
        absolute_reasons(a, p).contains(EligibilityReason::InsufficientSteps) <==> a.total_steps < p.minimum_total_steps,
        absolute_reasons(a, p).contains(EligibilityReason::InsufficientFaultCycles) <==> a.total_fault_cycles
            < p.minimum_total_fault_cycles,
{
    broadcast use vstd::seq_lib::lemma_seq_concat_contains_all_elements, lemma_reason_if_contains;
}

/// The reasons a registration records hold every absolute minimum the
/// candidate's aggregate misses, each under its own reason.
pub proof fn law_registration_reports_every_missed_minimum(r: Seq<EligibilityReason>, s: ReleaseCandidateSubmission, p: GovernancePolicy)
    requires
        base_reasons(r, s, p),
    ensures
        ({
            let a = aggregate_spec(s.evidence@, s.created_at_ns, p);
            &&& a.unique_campaigns < p.minimum_campaigns ==> r.contains(EligibilityReason::InsufficientCampaigns)
            &&& a.distinct_manifests < p.minimum_distinct_manifests ==> r.contains(EligibilityReason::InsufficientManifestDiversity)
            &&& a.distinct_schedules < p.minimum_distinct_schedules ==> r.contains(EligibilityReason::InsufficientScheduleDiversity)
            &&& a.distinct_final_states < p.minimum_distinct_final_states ==> r.contains(
                EligibilityReason::InsufficientFinalStateDiversity,
            )
            &&& a.total_sessions < p.minimum_total_sessions ==> r.contains(EligibilityReason::InsufficientSessions)
            &&& a.total_steps < p.minimum_total_steps ==> r.contains(EligibilityReason::InsufficientSteps)
            &&& a.total_fault_cycles < p.minimum_total_fault_cycles ==> r.contains(EligibilityReason::InsufficientFaultCycles)
        }),
{
    broadcast use vstd::seq_lib::lemma_seq_concat_contains_all_elements;
    let ev = s.evidence@;
    let c = s.created_at_ns;
    let n = ev.len() as int;
    let a = aggregate_spec(ev, c, p);
    let (ne, st) = choose|ne: Seq<[u8; 32]>, st: Seq<[u8; 32]>|
        #![trigger enumerates(ne, reason_ids(ev, c, p, false, n)), enumerates(st, reason_ids(ev, c, p, true, n))]
        enumerates(ne, reason_ids(ev, c, p, false, n)) && enumerates(st, reason_ids(ev, c, p, true, n)) && r
            == reason_if(duplicate_evidence(ev), EligibilityReason::DuplicateEvidence) + tagged(ne, false) + tagged(st, true)
            + absolute_reasons(a, p) + regression_reasons(a, s.baseline, p);
    law_each_missed_minimum_is_reported(a, p);
}

proof fn lemma_below_retained_floor(count: int, baseline: int, bps: int)
    requires
        count * 10000 < baseline * bps,
    ensures
        count < (baseline * bps + 9999) / 10000,
{
    let y = baseline * bps + 9999;
    vstd::arithmetic::div_mod::lemma_fundamental_div_mod(y, 10000);
    vstd::arithmetic::div_mod::lemma_mod_bound(y, 10000);
}

/// An aggregate that retains fewer of a baseline count than the policy's
/// retention share (`count * 10_000 < baseline * retention_bps`) is reported
/// as that count's regression.
pub proof fn law_regression_below_the_retained_baseline_is_reported(a: CandidateAggregate, b: RegressionBaseline, p: GovernancePolicy)
    ensures
        ({
            let q = p.minimum_regression_retention_bps as int;
            let rs = regression_reasons(a, b, p);
            &&& a.unique_campaigns * 10000 < b.campaign_count * q ==> rs.contains(EligibilityReason::RegressionCampaignCount)
            &&& a.total_sessions * 10000 < b.total_sessions * q ==> rs.contains(EligibilityReason::RegressionSessionCount)
            &&& a.total_steps * 10000 < b.total_steps * q ==> rs.contains(EligibilityReason::RegressionStepCount)
            &&& a.total_fault_cycles * 10000 < b.total_fault_cycles * q ==> rs.contains(EligibilityReason::RegressionFaultCycles)
        }),
{
    broadcast use vstd::seq_lib::lemma_seq_concat_contains_all_elements, lemma_reason_if_contains;
    let q = p.minimum_regression_retention_bps as int;
    if a.unique_campaigns * 10000 < b.campaign_count * q {
        lemma_below_retained_floor(a.unique_campaigns as int, b.campaign_count as int, q);
    }
    if a.total_sessions * 10000 < b.total_sessions * q {
        lemma_below_retained_floor(a.total_sessions as int, b.total_sessions as int, q);
    }
    if a.total_steps * 10000 < b.total_steps * q {
        lemma_below_retained_floor(a.total_steps as int, b.total_steps as int, q);
    }
    if a.total_fault_cycles * 10000 < b.total_fault_cycles * q {
        lemma_below_retained_floor(a.total_fault_cycles as int, b.total_fault_cycles as int, q);
    }
}

} // verus!
