//! Evaluation of a registered candidate at finalization: campaign
//! representatives, freshness, diversity, regression floors and decisions.

use vstd::prelude::*;
use crate::digest::digest_eq;
use crate::order::{lemma_reason_if_contains, push_when, reason_if, add_distinct, lemma_view_set_len, view_set, views_unique};
use super::types::{CampaignEvidenceStatus, ChangeCampaignEvidence, DecisionRole, DecisionValue, Error};
use super::types::{ProductionReadinessPolicy, ReadinessBaseline, ReadinessDecision, ReadinessReason};

verus! {

/// What evaluation reads of one campaign evidence record.
#[derive(Debug)]
pub struct EvidenceSummary {
    pub evidence_id: [u8; 32],
    pub campaign_id: [u8; 32],
    pub evaluated_at_ns: i64,
    pub reviewable: bool,
    pub completed_case_count: usize,
    pub restart_reconstruction_count: usize,
    pub approval_set_count: usize,
    pub manifest_digest: [u8; 32],
    pub case_schedule_digest: [u8; 32],
    pub case_result_chain_digest: [u8; 32],
    pub plan_digests: Vec<[u8; 32]>,
}

/// `s` holds what evaluation reads of `e`.
pub open spec fn summarizes(s: EvidenceSummary, e: ChangeCampaignEvidence) -> bool {
    &&& s.evidence_id == e.evidence_id
    &&& s.campaign_id == e.campaign_id
    &&& s.evaluated_at_ns == e.evaluated_at_ns
    &&& s.reviewable == (e.status == CampaignEvidenceStatus::OperatorReviewEligible && e.reasons@.len() == 0)
    &&& s.completed_case_count == e.completed_case_count
    &&& s.restart_reconstruction_count == e.restart_reconstruction_count
    &&& s.approval_set_count == e.approval_set_count
    &&& s.manifest_digest == e.manifest_digest
    &&& s.case_schedule_digest == e.case_schedule_digest
    &&& s.case_result_chain_digest == e.case_result_chain_digest
    &&& s.plan_digests@ == e.plan_digests@
}

fn copy_digests(v: &Vec<[u8; 32]>) -> (r: Vec<[u8; 32]>)
    ensures
        r@ == v@,
{
    let mut r: Vec<[u8; 32]> = Vec::new();
    let mut i: usize = 0;
    while i < v.len()
        invariant
            i <= v@.len(),
            r@ == v@.take(i as int),
        decreases v@.len() - i,
    {
        r.push(v[i]);
        assert(v@.take(i + 1) =~= v@.take(i as int).push(v@[i as int]));
        i = i + 1;
    }
    assert(v@.take(v@.len() as int) =~= v@);
    r
}

/// The summaries of a list of evidence, in order.
pub fn summarize_evidence(ev: &Vec<ChangeCampaignEvidence>) -> (r: Vec<EvidenceSummary>)
    ensures
        r@.len() == ev@.len(),
        forall|i: int| 0 <= i < ev@.len() ==> summarizes(#[trigger] r@[i], ev@[i]),
{
    let mut r: Vec<EvidenceSummary> = Vec::new();
    let mut i: usize = 0;
    while i < ev.len()
        invariant
            i <= ev@.len(),
            r@.len() == i,
            forall|k: int| 0 <= k < i ==> summarizes(#[trigger] r@[k], ev@[k]),
        decreases ev@.len() - i,
    {
        let e = &ev[i];
        let eligible = match e.status {
            CampaignEvidenceStatus::OperatorReviewEligible => true,
            CampaignEvidenceStatus::NotEligible => false,
        };
        r.push(EvidenceSummary {
            evidence_id: e.evidence_id,
            campaign_id: e.campaign_id,
            evaluated_at_ns: e.evaluated_at_ns,
            reviewable: eligible && e.reasons.len() == 0,
            completed_case_count: e.completed_case_count,
            restart_reconstruction_count: e.restart_reconstruction_count,
            approval_set_count: e.approval_set_count,
            manifest_digest: e.manifest_digest,
            case_schedule_digest: e.case_schedule_digest,
            case_result_chain_digest: e.case_result_chain_digest,
            plan_digests: copy_digests(&e.plan_digests),
        });
        i = i + 1;
    }
    r
}

/// No later record belongs to the same campaign: the record that stands for it.
pub open spec fn representative(es: Seq<EvidenceSummary>, i: int) -> bool {
    forall|j: int| i < j < es.len() ==> (#[trigger] es[j]).campaign_id@ != es[i].campaign_id@
}

/// Evaluated no later than `at` and within the evidence age limit.
pub open spec fn fresh(e: EvidenceSummary, at: i64, p: ProductionReadinessPolicy) -> bool {
    e.evaluated_at_ns <= at && at - e.evaluated_at_ns <= p.maximum_evidence_age_ns
}

/// A representative that is fresh and reviewable counts toward readiness.
pub open spec fn contributes(es: Seq<EvidenceSummary>, at: i64, p: ProductionReadinessPolicy, i: int) -> bool {
    representative(es, i) && fresh(es[i], at, p) && es[i].reviewable
}

pub open spec fn duplicate_ids(es: Seq<EvidenceSummary>) -> bool {
    exists|i: int, j: int| 0 <= i < j < es.len() && (#[trigger] es[i]).evidence_id@ == (#[trigger] es[j]).evidence_id@
}

pub open spec fn duplicate_campaigns(es: Seq<EvidenceSummary>) -> bool {
    exists|i: int, j: int| 0 <= i < j < es.len() && (#[trigger] es[i]).campaign_id@ == (#[trigger] es[j]).campaign_id@
}

pub open spec fn some_stale(es: Seq<EvidenceSummary>, at: i64, p: ProductionReadinessPolicy) -> bool {
    exists|i: int| 0 <= i < es.len() && representative(es, i) && !fresh(#[trigger] es[i], at, p)
}

pub open spec fn some_ineligible(es: Seq<EvidenceSummary>) -> bool {
    exists|i: int| 0 <= i < es.len() && representative(es, i) && !(#[trigger] es[i]).reviewable
}

pub open spec fn count_measure(e: EvidenceSummary, which: int) -> int {
    if which == 0 {
        1
    } else if which == 1 {
        e.completed_case_count as int
    } else if which == 2 {
        e.restart_reconstruction_count as int
    } else {
        e.approval_set_count as int
    }
}

/// Sum of a measure over the contributing records among the first `n`.
pub open spec fn sum_of(es: Seq<EvidenceSummary>, at: i64, p: ProductionReadinessPolicy, which: int, n: int) -> int
    decreases n,
{
    if n <= 0 {
        0
    } else {
        sum_of(es, at, p, which, n - 1) + if contributes(es, at, p, n - 1) { count_measure(es[n - 1], which) } else { 0 }
    }
}

pub open spec fn digest_of(e: EvidenceSummary, which: int) -> Seq<u8> {
    if which == 0 {
        e.manifest_digest@
    } else if which == 1 {
        e.case_schedule_digest@
    } else {
        e.case_result_chain_digest@
    }
}

/// Distinct values of one digest over the contributing records among the first `n`.
pub open spec fn distinct_of(es: Seq<EvidenceSummary>, at: i64, p: ProductionReadinessPolicy, which: int, n: int) -> Set<Seq<u8>> {
    Set::new(|d: Seq<u8>| exists|i: int| 0 <= i < n && contributes(es, at, p, i) && digest_of(#[trigger] es[i], which) == d)
}

/// Distinct plan digests over the contributing records among the first `n`.
pub open spec fn plans_of(es: Seq<EvidenceSummary>, at: i64, p: ProductionReadinessPolicy, n: int) -> Set<Seq<u8>> {
    Set::new(|d: Seq<u8>| exists|i: int, j: int| 0 <= i < n && contributes(es, at, p, i) && 0 <= j < es[i].plan_digests@.len()
        && (#[trigger] es[i].plan_digests@[j])@ == d)
}

/// Required minimum after retaining `bps` basis points of `baseline`, rounded up.
pub open spec fn floor_spec(baseline: usize, bps: u16) -> int {
    (baseline * bps + 9999) / 10000
}

/// A stricter retention never lowers the required floor.
pub proof fn law_retained_floor_is_monotonic(baseline: usize, low: u16, high: u16)
    requires
        low <= high,
    ensures
        floor_spec(baseline, low) <= floor_spec(baseline, high),
{
    assert(baseline * low <= baseline * high) by (nonlinear_arith)
        requires
            low <= high,
    ;
    assert((baseline * low + 9999) / 10000 <= (baseline * high + 9999) / 10000) by (nonlinear_arith)
        requires
            baseline * low <= baseline * high,
    ;
}

/// The retained floor of a baseline count, or `Overflow` where it exceeds `usize`.
pub fn retained_floor(baseline: usize, bps: u16) -> (r: Result<usize, Error>)
    ensures
        match r {
            Ok(v) => v == floor_spec(baseline, bps),
            Err(e) => e == Error::Overflow && floor_spec(baseline, bps) > usize::MAX,
        },
{
    let b = baseline as u128;
    let q = bps as u128;
    assert(b * q <= 0xffff_ffff_ffff_ffff * 0xffff) by (nonlinear_arith)
        requires
            b <= 0xffff_ffff_ffff_ffff,
            q <= 0xffff,
    ;
    let rounded = (b * q + 9999) / 10000;
    if rounded > usize::MAX as u128 {
        return Err(Error::Overflow);
    }
    Ok(rounded as usize)
}

/// Sum of a list of counts, or `Overflow`.
pub open spec fn total_of(values: Seq<usize>) -> int
    decreases values.len(),
{
    if values.len() == 0 {
        0
    } else {
        total_of(values.drop_last()) + values.last()
    }
}

proof fn lemma_total_of_prefix(values: Seq<usize>, i: int, j: int)
    requires
        0 <= i <= j <= values.len(),
    ensures
        total_of(values.take(i)) <= total_of(values.take(j)),
    decreases j - i,
{
    if i < j {
        lemma_total_of_prefix(values, i, j - 1);
        assert(values.take(j).drop_last() =~= values.take(j - 1));
    }
}

pub fn checked_sum(values: &Vec<usize>) -> (r: Result<usize, Error>)
    ensures
        match r {
            Ok(v) => v == total_of(values@),
            Err(e) => e == Error::Overflow && total_of(values@) > usize::MAX,
        },
{
    let mut total: usize = 0;
    let mut i: usize = 0;
    while i < values.len()
        invariant
            i <= values@.len(),
            total == total_of(values@.take(i as int)),
        decreases values@.len() - i,
    {
        assert(values@.take(i + 1).drop_last() =~= values@.take(i as int));
        match total.checked_add(values[i]) {
            Some(v) => {
                total = v;
            },
            None => {
                proof {
                    lemma_total_of_prefix(values@, i + 1, values@.len() as int);
                    assert(values@.take(values@.len() as int) =~= values@);
                }
                return Err(Error::Overflow);
            },
        }
        i = i + 1;
    }
    assert(values@.take(values@.len() as int) =~= values@);
    Ok(total)
}

/// The counts of an evaluation.
#[derive(Clone, Copy, Debug, PartialEq, Eq, Structural)]
pub struct ReadinessTotals {
    pub eligible_campaign_count: usize,
    pub case_count: usize,
    pub independent_plan_count: usize,
    pub restart_count: usize,
    pub approval_set_count: usize,
    pub manifest_diversity: usize,
    pub schedule_diversity: usize,
    pub result_chain_diversity: usize,
    pub plan_diversity: usize,
    pub regression_campaign_floor: usize,
    pub regression_case_floor: usize,
    pub regression_independent_plan_floor: usize,
    pub regression_restart_floor: usize,
    pub regression_approval_set_floor: usize,
}

/// The counts of evaluating `es` at `at` against `b`.
pub open spec fn totals_spec(es: Seq<EvidenceSummary>, at: i64, p: ProductionReadinessPolicy, b: ReadinessBaseline) -> ReadinessTotals {
    let n = es.len() as int;
    let plans = plans_of(es, at, p, n).len() as int;
    let approvals = sum_of(es, at, p, 3, n);
    ReadinessTotals {
        eligible_campaign_count: sum_of(es, at, p, 0, n) as usize,
        case_count: sum_of(es, at, p, 1, n) as usize,
        independent_plan_count: plans as usize,
        restart_count: sum_of(es, at, p, 2, n) as usize,
        approval_set_count: (if approvals <= plans { approvals } else { plans }) as usize,
        manifest_diversity: distinct_of(es, at, p, 0, n).len() as usize,
        schedule_diversity: distinct_of(es, at, p, 1, n).len() as usize,
        result_chain_diversity: distinct_of(es, at, p, 2, n).len() as usize,
        plan_diversity: plans as usize,
        regression_campaign_floor: floor_spec(b.campaign_count, p.retention_basis_points) as usize,
        regression_case_floor: floor_spec(b.case_count, p.retention_basis_points) as usize,
        regression_independent_plan_floor: floor_spec(b.independent_plan_count, p.retention_basis_points) as usize,
        regression_restart_floor: floor_spec(b.restart_count, p.retention_basis_points) as usize,
        regression_approval_set_floor: floor_spec(b.approval_set_count, p.retention_basis_points) as usize,
    }
}

/// Evaluation overflows a count.
pub open spec fn evaluation_overflows(es: Seq<EvidenceSummary>, at: i64, p: ProductionReadinessPolicy, b: ReadinessBaseline) -> bool {
    let n = es.len() as int;
    let q = p.retention_basis_points;
    ||| sum_of(es, at, p, 1, n) > usize::MAX
    ||| sum_of(es, at, p, 2, n) > usize::MAX
    ||| sum_of(es, at, p, 3, n) > usize::MAX
    ||| floor_spec(b.campaign_count, q) > usize::MAX
    ||| floor_spec(b.case_count, q) > usize::MAX
    ||| floor_spec(b.independent_plan_count, q) > usize::MAX
    ||| floor_spec(b.restart_count, q) > usize::MAX
    ||| floor_spec(b.approval_set_count, q) > usize::MAX
}

proof fn lemma_sum_bound(es: Seq<EvidenceSummary>, at: i64, p: ProductionReadinessPolicy, n: int)
    requires
        0 <= n,
    ensures
        0 <= sum_of(es, at, p, 0, n) <= n,
    decreases n,
{
    if n > 0 {
        lemma_sum_bound(es, at, p, n - 1);
    }
}

proof fn lemma_distinct_step(es: Seq<EvidenceSummary>, at: i64, p: ProductionReadinessPolicy, which: int, i: int)
    requires
        0 <= i < es.len(),
    ensures
        distinct_of(es, at, p, which, i + 1) == if contributes(es, at, p, i) {
            distinct_of(es, at, p, which, i).insert(digest_of(es[i], which))
        } else {
            distinct_of(es, at, p, which, i)
        },
{
    let a = distinct_of(es, at, p, which, i + 1);
    let b = distinct_of(es, at, p, which, i);
    if contributes(es, at, p, i) {
        assert(a =~= b.insert(digest_of(es[i], which))) by {
            assert forall|d: Seq<u8>| a.contains(d) implies b.insert(digest_of(es[i], which)).contains(d) by {
                let k = choose|k: int| 0 <= k < i + 1 && contributes(es, at, p, k) && digest_of(#[trigger] es[k], which) == d;
                if k < i {
                    assert(b.contains(d));
                }
            }
        }
    } else {
        assert(a =~= b) by {
            assert forall|d: Seq<u8>| a.contains(d) implies b.contains(d) by {
                let k = choose|k: int| 0 <= k < i + 1 && contributes(es, at, p, k) && digest_of(#[trigger] es[k], which) == d;
                assert(k < i);
            }
        }
    }
}

/// Plans of the first `i` records and the first `j` plans of record `i`.
pub open spec fn plans_partial(es: Seq<EvidenceSummary>, at: i64, p: ProductionReadinessPolicy, i: int, j: int) -> Set<Seq<u8>> {
    plans_of(es, at, p, i).union(Set::new(|d: Seq<u8>| exists|k: int| 0 <= k < j && (#[trigger] es[i].plan_digests@[k])@ == d))
}

/// Running state of the evaluation over a prefix of the records.
pub struct Scan {
    pub stale: bool,
    pub ineligible: bool,
    pub count: usize,
    pub cases: Vec<usize>,
    pub restarts: Vec<usize>,
    pub approvals: Vec<usize>,
    pub manifests: Vec<[u8; 32]>,
    pub schedules: Vec<[u8; 32]>,
    pub result_chains: Vec<[u8; 32]>,
    pub plans: Vec<[u8; 32]>,
}

pub open spec fn scan_inv(t: Scan, es: Seq<EvidenceSummary>, at: i64, p: ProductionReadinessPolicy, n: int) -> bool {
    &&& t.stale == exists|i: int| 0 <= i < n && representative(es, i) && !fresh(#[trigger] es[i], at, p)
    &&& t.ineligible == exists|i: int| 0 <= i < n && representative(es, i) && !(#[trigger] es[i]).reviewable
    &&& t.count == sum_of(es, at, p, 0, n)
    &&& total_of(t.cases@) == sum_of(es, at, p, 1, n)
    &&& total_of(t.restarts@) == sum_of(es, at, p, 2, n)
    &&& total_of(t.approvals@) == sum_of(es, at, p, 3, n)
    &&& views_unique(t.manifests@) && view_set(t.manifests@) == distinct_of(es, at, p, 0, n)
    &&& views_unique(t.schedules@) && view_set(t.schedules@) == distinct_of(es, at, p, 1, n)
    &&& views_unique(t.result_chains@) && view_set(t.result_chains@) == distinct_of(es, at, p, 2, n)
    &&& views_unique(t.plans@) && view_set(t.plans@) == plans_of(es, at, p, n)
}

fn representatives(es: &Vec<EvidenceSummary>) -> (r: Vec<bool>)
    ensures
        r@.len() == es@.len(),
        forall|i: int| 0 <= i < es@.len() ==> r@[i] == representative(es@, i),
{
    let mut r: Vec<bool> = Vec::new();
    let mut i: usize = 0;
    while i < es.len()
        invariant
            i <= es@.len(),
            r@.len() == i,
            forall|k: int| 0 <= k < i ==> r@[k] == representative(es@, k),
        decreases es@.len() - i,
    {
        let mut rep = true;
        let mut j: usize = i + 1;
        while j < es.len()
            invariant
                i < j <= es@.len(),
                rep == forall|k: int| i < k < j ==> (#[trigger] es@[k]).campaign_id@ != es@[i as int].campaign_id@,
            decreases es@.len() - j,
        {
            if digest_eq(&es[j].campaign_id, &es[i].campaign_id) {
                rep = false;
            }
            j = j + 1;
        }
        r.push(rep);
        i = i + 1;
    }
    r
}

fn add_plans(plans: &mut Vec<[u8; 32]>, es: &Vec<EvidenceSummary>, i: usize, at: i64, p: &ProductionReadinessPolicy)
    requires
        i < es@.len(),
        contributes(es@, at, *p, i as int),
        views_unique(old(plans)@),
        view_set(old(plans)@) == plans_of(es@, at, *p, i as int),
    ensures
        views_unique(final(plans)@),
        view_set(final(plans)@) == plans_of(es@, at, *p, i + 1),
{
    let list = &es[i].plan_digests;
    let mut j: usize = 0;
    proof {
        assert(plans_partial(es@, at, *p, i as int, 0) =~= plans_of(es@, at, *p, i as int));
    }
    while j < list.len()
        invariant
            i < es@.len(),
            j <= list@.len(),
            list@ == es@[i as int].plan_digests@,
            views_unique(plans@),
            view_set(plans@) == plans_partial(es@, at, *p, i as int, j as int),
        decreases list@.len() - j,
    {
        let ghost before = view_set(plans@);
        add_distinct(plans, list[j]);
        assert(plans_partial(es@, at, *p, i as int, j + 1) =~= before.insert(list@[j as int]@)) by {
            let a = plans_partial(es@, at, *p, i as int, j + 1);
            assert forall|d: Seq<u8>| a.contains(d) implies before.insert(list@[j as int]@).contains(d) by {
                if !plans_of(es@, at, *p, i as int).contains(d) {
                    let k = choose|k: int| 0 <= k < j + 1 && (#[trigger] es@[i as int].plan_digests@[k])@ == d;
                    if k < j {
                        assert(plans_partial(es@, at, *p, i as int, j as int).contains(d));
                    }
                }
            }
            assert forall|d: Seq<u8>| before.insert(list@[j as int]@).contains(d) implies a.contains(d) by {
                if d != list@[j as int]@ && !plans_of(es@, at, *p, i as int).contains(d) {
                    let k = choose|k: int| 0 <= k < j && (#[trigger] es@[i as int].plan_digests@[k])@ == d;
                }
            }
        }
        j = j + 1;
    }
    assert(plans_partial(es@, at, *p, i as int, list@.len() as int) =~= plans_of(es@, at, *p, i + 1)) by {
        let a = plans_partial(es@, at, *p, i as int, list@.len() as int);
        let b = plans_of(es@, at, *p, i + 1);
        assert forall|d: Seq<u8>| a.contains(d) implies b.contains(d) by {
            if plans_of(es@, at, *p, i as int).contains(d) {
                let (x, y) = choose|x: int, y: int| 0 <= x < i && contributes(es@, at, *p, x) && 0 <= y < es@[x].plan_digests@.len()
                    && (#[trigger] es@[x].plan_digests@[y])@ == d;
            } else {
                let k = choose|k: int| 0 <= k < list@.len() && (#[trigger] es@[i as int].plan_digests@[k])@ == d;
            }
        }
        assert forall|d: Seq<u8>| b.contains(d) implies a.contains(d) by {
            let (x, y) = choose|x: int, y: int| 0 <= x < i + 1 && contributes(es@, at, *p, x) && 0 <= y < es@[x].plan_digests@.len()
                && (#[trigger] es@[x].plan_digests@[y])@ == d;
            if x < i {
                assert(plans_of(es@, at, *p, i as int).contains(d));
            }
        }
    }
}

proof fn lemma_plans_skip(es: Seq<EvidenceSummary>, at: i64, p: ProductionReadinessPolicy, i: int)
    requires
        0 <= i < es.len(),
        !contributes(es, at, p, i),
    ensures
        plans_of(es, at, p, i + 1) == plans_of(es, at, p, i),
{
    assert(plans_of(es, at, p, i + 1) =~= plans_of(es, at, p, i)) by {
        assert forall|d: Seq<u8>| plans_of(es, at, p, i + 1).contains(d) implies plans_of(es, at, p, i).contains(d) by {
            let (x, y) = choose|x: int, y: int| 0 <= x < i + 1 && contributes(es, at, p, x) && 0 <= y < es[x].plan_digests@.len()
                && (#[trigger] es[x].plan_digests@[y])@ == d;
        }
    }
}

#[verifier::rlimit(40)]
fn scan(es: &Vec<EvidenceSummary>, at: i64, p: &ProductionReadinessPolicy) -> (t: Scan)
    ensures
        scan_inv(t, es@, at, *p, es@.len() as int),
{
    let reps = representatives(es);
    let mut t = Scan {
        stale: false,
        ineligible: false,
        count: 0,
        cases: Vec::new(),
        restarts: Vec::new(),
        approvals: Vec::new(),
        manifests: Vec::new(),
        schedules: Vec::new(),
        result_chains: Vec::new(),
        plans: Vec::new(),
    };
    proof {
        assert(distinct_of(es@, at, *p, 0, 0) =~= Set::empty());
        assert(distinct_of(es@, at, *p, 1, 0) =~= Set::empty());
        assert(distinct_of(es@, at, *p, 2, 0) =~= Set::empty());
        assert(plans_of(es@, at, *p, 0) =~= Set::empty());
        assert(view_set(t.plans@) =~= Set::empty());
        assert(t.cases@ =~= Seq::<usize>::empty());
    }
    let mut i: usize = 0;
    while i < es.len()
        invariant
            i <= es@.len(),
            reps@.len() == es@.len(),
            forall|k: int| 0 <= k < es@.len() ==> reps@[k] == representative(es@, k),
            scan_inv(t, es@, at, *p, i as int),
        decreases es@.len() - i,
    {
        let e = &es[i];
        let ghost ii = i as int;
        proof {
            lemma_distinct_step(es@, at, *p, 0, ii);
            lemma_distinct_step(es@, at, *p, 1, ii);
            lemma_distinct_step(es@, at, *p, 2, ii);
            lemma_sum_bound(es@, at, *p, ii);
        }
        if reps[i] {
            let is_fresh = e.evaluated_at_ns <= at && at as i128 - e.evaluated_at_ns as i128 <= p.maximum_evidence_age_ns as i128;
            if !is_fresh {
                t.stale = true;
            }
            if !e.reviewable {
                t.ineligible = true;
            }
            if is_fresh && e.reviewable {
                t.count = t.count + 1;
                proof {
                    assert(t.cases@.push(e.completed_case_count).drop_last() =~= t.cases@);
                    assert(t.restarts@.push(e.restart_reconstruction_count).drop_last() =~= t.restarts@);
                    assert(t.approvals@.push(e.approval_set_count).drop_last() =~= t.approvals@);
                }
                t.cases.push(e.completed_case_count);
                t.restarts.push(e.restart_reconstruction_count);
                t.approvals.push(e.approval_set_count);
                add_distinct(&mut t.manifests, e.manifest_digest);
                add_distinct(&mut t.schedules, e.case_schedule_digest);
                add_distinct(&mut t.result_chains, e.case_result_chain_digest);
                add_plans(&mut t.plans, es, i, at, p);
            } else {
                proof { lemma_plans_skip(es@, at, *p, ii); }
            }
        } else {
            proof { lemma_plans_skip(es@, at, *p, ii); }
        }
        i = i + 1;
    }
    t
}

/// The recorded decision of each role.
#[derive(Clone, Copy, Debug)]
pub struct DecisionSlots {
    pub release: Option<ReadinessDecision>,
    pub risk: Option<ReadinessDecision>,
    pub operations: Option<ReadinessDecision>,
}

pub open spec fn slot(d: DecisionSlots, role: DecisionRole) -> Option<ReadinessDecision> {
    match role {
        DecisionRole::Release => d.release,
        DecisionRole::Risk => d.risk,
        DecisionRole::Operations => d.operations,
    }
}

pub open spec fn missing(d: DecisionSlots, role: DecisionRole) -> bool {
    slot(d, role) is None
}

pub open spec fn rejected(d: DecisionSlots, role: DecisionRole) -> bool {
    slot(d, role) matches Some(x) && x.value == DecisionValue::Reject
}

/// An approval that is not in force at `at`.
pub open spec fn expired(d: DecisionSlots, role: DecisionRole, at: i64, p: ProductionReadinessPolicy) -> bool {
    slot(d, role) matches Some(x) && x.value == DecisionValue::Approve && (at < x.decided_at_ns || at > x.valid_until_ns
        || at - x.decided_at_ns > p.maximum_decision_age_ns)
}

/// All three roles are recorded by three different operators.
pub open spec fn operators_distinct(d: DecisionSlots) -> bool {
    d.release matches Some(a) && d.risk matches Some(b) && d.operations matches Some(c) && a.operator_id@ != b.operator_id@
        && a.operator_id@ != c.operator_id@ && b.operator_id@ != c.operator_id@
}

/// The evidence and count reasons, in order.
pub open spec fn evidence_reasons(es: Seq<EvidenceSummary>, at: i64, expires_at_ns: i64, p: ProductionReadinessPolicy, t: ReadinessTotals) -> Seq<ReadinessReason> {
    reason_if(at > expires_at_ns, ReadinessReason::CandidateExpired)
        + reason_if(duplicate_ids(es), ReadinessReason::DuplicateEvidence)
        + reason_if(duplicate_campaigns(es), ReadinessReason::DuplicateCampaign)
        + reason_if(some_ineligible(es), ReadinessReason::EvidenceIneligible)
        + reason_if(some_stale(es, at, p), ReadinessReason::EvidenceStale)
        + reason_if(t.eligible_campaign_count < p.minimum_eligible_campaigns, ReadinessReason::EligibleCampaignFloor)
        + reason_if(t.manifest_diversity < p.minimum_manifest_diversity, ReadinessReason::ManifestDiversity)
        + reason_if(t.schedule_diversity < p.minimum_schedule_diversity, ReadinessReason::ScheduleDiversity)
        + reason_if(t.result_chain_diversity < p.minimum_result_chain_diversity, ReadinessReason::ResultChainDiversity)
        + reason_if(t.plan_diversity < p.minimum_plan_diversity, ReadinessReason::PlanDiversity)
}

/// The regression reasons, in order: below the policy minimum or the retained floor.
pub open spec fn regression_reasons(p: ProductionReadinessPolicy, t: ReadinessTotals) -> Seq<ReadinessReason> {
    reason_if(t.eligible_campaign_count < p.minimum_eligible_campaigns || t.eligible_campaign_count < t.regression_campaign_floor,
        ReadinessReason::CampaignRegression)
        + reason_if(t.case_count < p.minimum_case_count || t.case_count < t.regression_case_floor, ReadinessReason::CaseRegression)
        + reason_if(t.independent_plan_count < p.minimum_independent_plan_count
            || t.independent_plan_count < t.regression_independent_plan_floor, ReadinessReason::IndependentPlanRegression)
        + reason_if(t.restart_count < p.minimum_restart_count || t.restart_count < t.regression_restart_floor,
            ReadinessReason::RestartRegression)
        + reason_if(t.approval_set_count < p.minimum_approval_set_count || t.approval_set_count < t.regression_approval_set_floor,
            ReadinessReason::ApprovalSetRegression)
}

/// The decision reasons, in order.
pub open spec fn decision_reasons(d: DecisionSlots, at: i64, p: ProductionReadinessPolicy) -> Seq<ReadinessReason> {
    reason_if(missing(d, DecisionRole::Release), ReadinessReason::DecisionMissing(DecisionRole::Release))
        + reason_if(missing(d, DecisionRole::Risk), ReadinessReason::DecisionMissing(DecisionRole::Risk))
        + reason_if(missing(d, DecisionRole::Operations), ReadinessReason::DecisionMissing(DecisionRole::Operations))
        + reason_if(rejected(d, DecisionRole::Release), ReadinessReason::DecisionRejected(DecisionRole::Release))
        + reason_if(rejected(d, DecisionRole::Risk), ReadinessReason::DecisionRejected(DecisionRole::Risk))
        + reason_if(rejected(d, DecisionRole::Operations), ReadinessReason::DecisionRejected(DecisionRole::Operations))
        + reason_if(expired(d, DecisionRole::Release, at, p), ReadinessReason::DecisionExpired(DecisionRole::Release))
        + reason_if(expired(d, DecisionRole::Risk, at, p), ReadinessReason::DecisionExpired(DecisionRole::Risk))
        + reason_if(expired(d, DecisionRole::Operations, at, p), ReadinessReason::DecisionExpired(DecisionRole::Operations))
        + reason_if(!operators_distinct(d), ReadinessReason::OperatorsNotDistinct)
}

/// Every reason of an evaluation, in order.
pub open spec fn readiness_reasons(es: Seq<EvidenceSummary>, at: i64, expires_at_ns: i64, p: ProductionReadinessPolicy, t: ReadinessTotals, d: DecisionSlots) -> Seq<ReadinessReason> {
    evidence_reasons(es, at, expires_at_ns, p, t) + regression_reasons(p, t) + decision_reasons(d, at, p)
}

fn role_reasons(reasons: &mut Vec<ReadinessReason>, d: &DecisionSlots, at: i64, p: &ProductionReadinessPolicy)
    ensures
        final(reasons)@ == old(reasons)@ + decision_reasons(*d, at, *p),
{
    let ghost start = reasons@;
    let rej = |x: &Option<ReadinessDecision>| -> (b: bool)
        ensures
            b == (*x matches Some(y) && y.value == DecisionValue::Reject),
        {
            match x {
                Some(y) => match y.value {
                    DecisionValue::Reject => true,
                    DecisionValue::Approve => false,
                },
                None => false,
            }
        };
    let exp = |x: &Option<ReadinessDecision>| -> (b: bool)
        ensures
            b == (*x matches Some(y) && y.value == DecisionValue::Approve && (at < y.decided_at_ns || at > y.valid_until_ns
                || at - y.decided_at_ns > p.maximum_decision_age_ns)),
        {
            match x {
                Some(y) => match y.value {
                    DecisionValue::Approve => at < y.decided_at_ns || at > y.valid_until_ns
                        || at as i128 - y.decided_at_ns as i128 > p.maximum_decision_age_ns as i128,
                    DecisionValue::Reject => false,
                },
                None => false,
            }
        };
    push_when(reasons, d.release.is_none(), ReadinessReason::DecisionMissing(DecisionRole::Release));
    push_when(reasons, d.risk.is_none(), ReadinessReason::DecisionMissing(DecisionRole::Risk));
    push_when(reasons, d.operations.is_none(), ReadinessReason::DecisionMissing(DecisionRole::Operations));
    let ghost a1 = start + reason_if(missing(*d, DecisionRole::Release), ReadinessReason::DecisionMissing(DecisionRole::Release))
        + reason_if(missing(*d, DecisionRole::Risk), ReadinessReason::DecisionMissing(DecisionRole::Risk))
        + reason_if(missing(*d, DecisionRole::Operations), ReadinessReason::DecisionMissing(DecisionRole::Operations));
    assert(reasons@ =~= a1);
    push_when(reasons, rej(&d.release), ReadinessReason::DecisionRejected(DecisionRole::Release));
    push_when(reasons, rej(&d.risk), ReadinessReason::DecisionRejected(DecisionRole::Risk));
    push_when(reasons, rej(&d.operations), ReadinessReason::DecisionRejected(DecisionRole::Operations));
    let ghost a2 = a1 + reason_if(rejected(*d, DecisionRole::Release), ReadinessReason::DecisionRejected(DecisionRole::Release))
        + reason_if(rejected(*d, DecisionRole::Risk), ReadinessReason::DecisionRejected(DecisionRole::Risk))
        + reason_if(rejected(*d, DecisionRole::Operations), ReadinessReason::DecisionRejected(DecisionRole::Operations));
    assert(reasons@ =~= a2);
    push_when(reasons, exp(&d.release), ReadinessReason::DecisionExpired(DecisionRole::Release));
    push_when(reasons, exp(&d.risk), ReadinessReason::DecisionExpired(DecisionRole::Risk));
    push_when(reasons, exp(&d.operations), ReadinessReason::DecisionExpired(DecisionRole::Operations));
    let ghost a3 = a2 + reason_if(expired(*d, DecisionRole::Release, at, *p), ReadinessReason::DecisionExpired(DecisionRole::Release))
        + reason_if(expired(*d, DecisionRole::Risk, at, *p), ReadinessReason::DecisionExpired(DecisionRole::Risk))
        + reason_if(expired(*d, DecisionRole::Operations, at, *p), ReadinessReason::DecisionExpired(DecisionRole::Operations));
    assert(reasons@ =~= a3);
    let distinct = match (&d.release, &d.risk, &d.operations) {
        (Some(a), Some(b), Some(c)) => !digest_eq(&a.operator_id, &b.operator_id) && !digest_eq(&a.operator_id, &c.operator_id)
            && !digest_eq(&b.operator_id, &c.operator_id),
        _ => false,
    };
    push_when(reasons, !distinct, ReadinessReason::OperatorsNotDistinct);
    assert(reasons@ =~= start + decision_reasons(*d, at, *p));
}

fn has_duplicate(es: &Vec<EvidenceSummary>, campaigns: bool) -> (r: bool)
    ensures
        r == if campaigns { duplicate_campaigns(es@) } else { duplicate_ids(es@) },
{
    let mut i: usize = 0;
    while i < es.len()
        invariant
            i <= es@.len(),
            forall|a: int, b: int| 0 <= a < b < i ==> if campaigns {
                (#[trigger] es@[a]).campaign_id@ != (#[trigger] es@[b]).campaign_id@
            } else {
                es@[a].evidence_id@ != es@[b].evidence_id@
            },
        decreases es@.len() - i,
    {
        let mut j: usize = 0;
        while j < i
            invariant
                j <= i < es@.len(),
                forall|a: int| 0 <= a < j ==> if campaigns {
                    (#[trigger] es@[a]).campaign_id@ != es@[i as int].campaign_id@
                } else {
                    es@[a].evidence_id@ != es@[i as int].evidence_id@
                },
            decreases i - j,
        {
            let same = if campaigns {
                digest_eq(&es[j].campaign_id, &es[i].campaign_id)
            } else {
                digest_eq(&es[j].evidence_id, &es[i].evidence_id)
            };
            if same {
                return true;
            }
            j = j + 1;
        }
        i = i + 1;
    }
    false
}

/// Evaluates a registered candidate at `at` against its baseline and the
/// recorded decisions: the counts of the record and every reason, in order.
#[verifier::rlimit(40)]
pub fn evaluate_candidate(
    es: &Vec<EvidenceSummary>,
    expires_at_ns: i64,
    b: &ReadinessBaseline,
    p: &ProductionReadinessPolicy,
    d: &DecisionSlots,
    at: i64,
) -> (r: Result<(ReadinessTotals, Vec<ReadinessReason>), Error>)
    ensures
        match r {
            Ok((t, reasons)) => {
                &&& !evaluation_overflows(es@, at, *p, *b)
                &&& t == totals_spec(es@, at, *p, *b)
                &&& reasons@ == readiness_reasons(es@, at, expires_at_ns, *p, t, *d)
            },
            Err(e) => e == Error::Overflow && evaluation_overflows(es@, at, *p, *b),
        },
{
    let dup_ids = has_duplicate(es, false);
    let dup_campaigns = has_duplicate(es, true);
    let sc = scan(es, at, p);
    let cases = match checked_sum(&sc.cases) {
        Ok(v) => v,
        Err(e) => {
            return Err(e);
        },
    };
    let restarts = match checked_sum(&sc.restarts) {
        Ok(v) => v,
        Err(e) => {
            return Err(e);
        },
    };
    let approvals = match checked_sum(&sc.approvals) {
        Ok(v) => v,
        Err(e) => {
            return Err(e);
        },
    };
    let q = p.retention_basis_points;
    let f_campaign = match retained_floor(b.campaign_count, q) {
        Ok(v) => v,
        Err(e) => {
            return Err(e);
        },
    };
    let f_case = match retained_floor(b.case_count, q) {
        Ok(v) => v,
        Err(e) => {
            return Err(e);
        },
    };
    let f_plan = match retained_floor(b.independent_plan_count, q) {
        Ok(v) => v,
        Err(e) => {
            return Err(e);
        },
    };
    let f_restart = match retained_floor(b.restart_count, q) {
        Ok(v) => v,
        Err(e) => {
            return Err(e);
        },
    };
    let f_approval = match retained_floor(b.approval_set_count, q) {
        Ok(v) => v,
        Err(e) => {
            return Err(e);
        },
    };
    proof {
        lemma_view_set_len(sc.manifests@);
        lemma_view_set_len(sc.schedules@);
        lemma_view_set_len(sc.result_chains@);
        lemma_view_set_len(sc.plans@);
    }
    let plan_diversity = sc.plans.len();
    let t = ReadinessTotals {
        eligible_campaign_count: sc.count,
        case_count: cases,
        independent_plan_count: plan_diversity,
        restart_count: restarts,
        approval_set_count: if approvals <= plan_diversity { approvals } else { plan_diversity },
        manifest_diversity: sc.manifests.len(),
        schedule_diversity: sc.schedules.len(),
        result_chain_diversity: sc.result_chains.len(),
        plan_diversity,
        regression_campaign_floor: f_campaign,
        regression_case_floor: f_case,
        regression_independent_plan_floor: f_plan,
        regression_restart_floor: f_restart,
        regression_approval_set_floor: f_approval,
    };
    assert(t == totals_spec(es@, at, *p, *b));
    let mut reasons: Vec<ReadinessReason> = Vec::new();
    push_when(&mut reasons, at > expires_at_ns, ReadinessReason::CandidateExpired);
    push_when(&mut reasons, dup_ids, ReadinessReason::DuplicateEvidence);
    push_when(&mut reasons, dup_campaigns, ReadinessReason::DuplicateCampaign);
    push_when(&mut reasons, sc.ineligible, ReadinessReason::EvidenceIneligible);
    push_when(&mut reasons, sc.stale, ReadinessReason::EvidenceStale);
    let ghost a1 = reason_if(at > expires_at_ns, ReadinessReason::CandidateExpired)
        + reason_if(duplicate_ids(es@), ReadinessReason::DuplicateEvidence)
        + reason_if(duplicate_campaigns(es@), ReadinessReason::DuplicateCampaign)
        + reason_if(some_ineligible(es@), ReadinessReason::EvidenceIneligible)
        + reason_if(some_stale(es@, at, *p), ReadinessReason::EvidenceStale);
    assert(reasons@ =~= a1);
    push_when(&mut reasons, t.eligible_campaign_count < p.minimum_eligible_campaigns, ReadinessReason::EligibleCampaignFloor);
    push_when(&mut reasons, t.manifest_diversity < p.minimum_manifest_diversity, ReadinessReason::ManifestDiversity);
    push_when(&mut reasons, t.schedule_diversity < p.minimum_schedule_diversity, ReadinessReason::ScheduleDiversity);
    push_when(&mut reasons, t.result_chain_diversity < p.minimum_result_chain_diversity, ReadinessReason::ResultChainDiversity);
    push_when(&mut reasons, t.plan_diversity < p.minimum_plan_diversity, ReadinessReason::PlanDiversity);
    assert(reasons@ =~= evidence_reasons(es@, at, expires_at_ns, *p, t));
    let ghost a2 = reasons@;
    push_when(&mut reasons, t.eligible_campaign_count < p.minimum_eligible_campaigns
        || t.eligible_campaign_count < t.regression_campaign_floor, ReadinessReason::CampaignRegression);
    push_when(&mut reasons, t.case_count < p.minimum_case_count || t.case_count < t.regression_case_floor, ReadinessReason::CaseRegression);
    push_when(&mut reasons, t.independent_plan_count < p.minimum_independent_plan_count
        || t.independent_plan_count < t.regression_independent_plan_floor, ReadinessReason::IndependentPlanRegression);
    push_when(&mut reasons, t.restart_count < p.minimum_restart_count || t.restart_count < t.regression_restart_floor,
        ReadinessReason::RestartRegression);
    push_when(&mut reasons, t.approval_set_count < p.minimum_approval_set_count
        || t.approval_set_count < t.regression_approval_set_floor, ReadinessReason::ApprovalSetRegression);
    assert(reasons@ =~= a2 + regression_reasons(*p, t));
    role_reasons(&mut reasons, d, at, p);
    assert(reasons@ =~= readiness_reasons(es@, at, expires_at_ns, *p, t, *d));
    Ok((t, reasons))
}

/// Each regression count that misses its policy minimum or the floor retained
/// from the baseline is reported with its own reason, and a regression reason
/// is reported only for such a miss; every reported regression stands in the
/// full reasons of the evaluation.
pub proof fn law_each_regression_is_reported(
    es: Seq<EvidenceSummary>,
    at: i64,
    expires_at_ns: i64,
    p: ProductionReadinessPolicy,
    t: ReadinessTotals,
    d: DecisionSlots,
)
    ensures
        regression_reasons(p, t).contains(ReadinessReason::CampaignRegression) <==> (t.eligible_campaign_count
            < p.minimum_eligible_campaigns || t.eligible_campaign_count < t.regression_campaign_floor),
        regression_reasons(p, t).contains(ReadinessReason::CaseRegression) <==> (t.case_count < p.minimum_case_count
            || t.case_count < t.regression_case_floor),
        regression_reasons(p, t).contains(ReadinessReason::IndependentPlanRegression) <==> (t.independent_plan_count
            < p.minimum_independent_plan_count || t.independent_plan_count < t.regression_independent_plan_floor),
        regression_reasons(p, t).contains(ReadinessReason::RestartRegression) <==> (t.restart_count < p.minimum_restart_count
            || t.restart_count < t.regression_restart_floor),
        regression_reasons(p, t).contains(ReadinessReason::ApprovalSetRegression) <==> (t.approval_set_count
            < p.minimum_approval_set_count || t.approval_set_count < t.regression_approval_set_floor),
        forall|x: ReadinessReason| #[trigger] regression_reasons(p, t).contains(x) ==> readiness_reasons(es, at,
            expires_at_ns, p, t, d).contains(x),
{
    broadcast use vstd::seq_lib::lemma_seq_concat_contains_all_elements, lemma_reason_if_contains;
}

/// Each evidence minimum the totals miss, and an expired candidate, is
/// reported in the full reasons of the evaluation under its own reason.
pub proof fn law_each_missed_evidence_minimum_is_reported(
    es: Seq<EvidenceSummary>,
    at: i64,
    expires_at_ns: i64,
    p: ProductionReadinessPolicy,
    t: ReadinessTotals,
    d: DecisionSlots,
)
    ensures
        ({
            let reasons = readiness_reasons(es, at, expires_at_ns, p, t, d);
            &&& at > expires_at_ns ==> reasons.contains(ReadinessReason::CandidateExpired)
            &&& t.eligible_campaign_count < p.minimum_eligible_campaigns ==> reasons.contains(ReadinessReason::EligibleCampaignFloor)
            &&& t.manifest_diversity < p.minimum_manifest_diversity ==> reasons.contains(ReadinessReason::ManifestDiversity)
            &&& t.schedule_diversity < p.minimum_schedule_diversity ==> reasons.contains(ReadinessReason::ScheduleDiversity)
            &&& t.result_chain_diversity < p.minimum_result_chain_diversity ==> reasons.contains(
                ReadinessReason::ResultChainDiversity,
            )
            &&& t.plan_diversity < p.minimum_plan_diversity ==> reasons.contains(ReadinessReason::PlanDiversity)
        }),
{
    broadcast use vstd::seq_lib::lemma_seq_concat_contains_all_elements, lemma_reason_if_contains;
}

proof fn lemma_below_floor(count: int, baseline: int, bps: int)
    requires
        count * 10000 < baseline * bps,
    ensures
        count < (baseline * bps + 9999) / 10000,
{
    let y = baseline * bps + 9999;
    vstd::arithmetic::div_mod::lemma_fundamental_div_mod(y, 10000);
    vstd::arithmetic::div_mod::lemma_mod_bound(y, 10000);
}

/// An evaluation that retains fewer of a baseline count than the policy's
/// retention share (`count * 10_000 < baseline * retention_basis_points`)
/// reports that count's regression.
pub proof fn law_regression_below_the_retained_baseline_is_reported(
    es: Seq<EvidenceSummary>,
    at: i64,
    expires_at_ns: i64,
    p: ProductionReadinessPolicy,
    b: ReadinessBaseline,
    t: ReadinessTotals,
    d: DecisionSlots,
)
    requires
        !evaluation_overflows(es, at, p, b),
        t == totals_spec(es, at, p, b),
    ensures
        ({
            let q = p.retention_basis_points as int;
            let reasons = readiness_reasons(es, at, expires_at_ns, p, t, d);
            &&& t.eligible_campaign_count * 10000 < b.campaign_count * q ==> reasons.contains(ReadinessReason::CampaignRegression)
            &&& t.case_count * 10000 < b.case_count * q ==> reasons.contains(ReadinessReason::CaseRegression)
            &&& t.independent_plan_count * 10000 < b.independent_plan_count * q ==> reasons.contains(
                ReadinessReason::IndependentPlanRegression,
            )
            &&& t.restart_count * 10000 < b.restart_count * q ==> reasons.contains(ReadinessReason::RestartRegression)
            &&& t.approval_set_count * 10000 < b.approval_set_count * q ==> reasons.contains(
                ReadinessReason::ApprovalSetRegression,
            )
        }),
{
    let q = p.retention_basis_points as int;
    law_each_regression_is_reported(es, at, expires_at_ns, p, t, d);
    if t.eligible_campaign_count * 10000 < b.campaign_count * q {
        lemma_below_floor(t.eligible_campaign_count as int, b.campaign_count as int, q);
    }
    if t.case_count * 10000 < b.case_count * q {
        lemma_below_floor(t.case_count as int, b.case_count as int, q);
    }
    if t.independent_plan_count * 10000 < b.independent_plan_count * q {
        lemma_below_floor(t.independent_plan_count as int, b.independent_plan_count as int, q);
    }
    if t.restart_count * 10000 < b.restart_count * q {
        lemma_below_floor(t.restart_count as int, b.restart_count as int, q);
    }
    if t.approval_set_count * 10000 < b.approval_set_count * q {
        lemma_below_floor(t.approval_set_count as int, b.approval_set_count as int, q);
    }
}

} // verus!
