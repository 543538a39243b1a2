//! Enumeration of every scenario and the resulting risk decision.

use vstd::prelude::*;
use vstd::string::StringSliceAdditionalSpecFns;
use crate::digest::{digest_domain, domain_digest, zero32, Canonical};
use super::frame::{ints, HARD_MAX_MARKETS, HARD_MAX_ORDERS};
use super::prepare::{fill_combos, limits_valid, pow2, prepare, prepare_spec, valid_limits, prepared_for, scenario_orders, Holdings, HoldingsView, PrepOutcome, Prepared};
use super::scenario::{apply_fill_spec, fills_apply, holdings_shape, lemma_apply_fill_keeps_nonneg, lemma_initial_holdings, slot_list, decode_fills, decode_fills_spec, exposure, exposure_spec, holdings_after, holdings_for, holdings_nonneg, option_lists, outcome_bits, outcome_bits_spec, terminal_wealth, terminal_wealth_spec};
use super::types::{DecisionReason, DecisionStatus, Error, OrderExposure, RiskCommandId, RiskDecision, RiskRequest, ScenarioWitness};

verus! {

pub open spec fn n_fills(req: RiskRequest) -> int {
    fill_combos(scenario_orders(req), scenario_orders(req).len()) as int
}

pub open spec fn n_outcomes(req: RiskRequest) -> int {
    pow2(req.markets@.len()) as int
}

pub open spec fn n_shocks(req: RiskRequest) -> int {
    req.shocks@.len() as int
}

/// A scenario: fill combination, market outcome and shock, each within its count.
pub open spec fn in_range(req: RiskRequest, x: (int, int, int)) -> bool {
    &&& 0 <= x.0 < n_fills(req)
    &&& 0 <= x.1 < n_outcomes(req)
    &&& 0 <= x.2 < n_shocks(req)
}

/// Enumeration order: by fill combination, then outcome, then shock.
pub open spec fn lex_lt(a: (int, int, int), b: (int, int, int)) -> bool {
    a.0 < b.0 || (a.0 == b.0 && (a.1 < b.1 || (a.1 == b.1 && a.2 < b.2)))
}

pub open spec fn fills_at(req: RiskRequest, f: int) -> Seq<i128> {
    decode_fills_spec(f as nat, option_lists(req))
}

pub open spec fn hold_at(req: RiskRequest, f: int) -> Option<HoldingsView> {
    holdings_for(req, fills_at(req, f))
}

pub open spec fn expo_at(req: RiskRequest, f: int) -> Option<(int, int, int)> {
    match hold_at(req, f) {
        None => None,
        Some(h) => exposure_spec(h, req.markets@),
    }
}

pub open spec fn bits_at(req: RiskRequest, o: int) -> Seq<u8> {
    outcome_bits_spec(o as nat, req.markets@.len())
}

pub open spec fn wealth_at(req: RiskRequest, x: (int, int, int)) -> Option<int> {
    match hold_at(req, x.0) {
        None => None,
        Some(h) => terminal_wealth_spec(h, req, bits_at(req, x.1), req.shocks@[x.2]),
    }
}

/// Every scenario's holdings, exposure and terminal wealth are computable without overflow.
pub open spec fn scenarios_ok(req: RiskRequest) -> bool {
    forall|x: (int, int, int)| #[trigger] in_range(req, x) ==> expo_at(req, x.0) is Some && wealth_at(req, x) is Some
}

/// What each tracker compares: terminal wealth, gross, condition or group exposure.
pub open spec fn metric(req: RiskRequest, which: int, x: (int, int, int)) -> int {
    if which == 0 {
        wealth_at(req, x)->0
    } else if which == 1 {
        (expo_at(req, x.0)->0).0
    } else if which == 2 {
        (expo_at(req, x.0)->0).1
    } else {
        (expo_at(req, x.0)->0).2
    }
}

/// Tracker 0 looks for the smallest value, the others for the largest.
pub open spec fn better(which: int, a: int, b: int) -> bool {
    if which == 0 {
        a < b
    } else {
        a > b
    }
}

/// `b` is the first scenario, in enumeration order, with the best metric.
pub open spec fn first_best(req: RiskRequest, which: int, b: (int, int, int)) -> bool {
    &&& in_range(req, b)
    &&& forall|x: (int, int, int)| #[trigger] in_range(req, x) ==> !better(which, metric(req, which, x), metric(req, which, b))
    &&& forall|x: (int, int, int)| #[trigger] in_range(req, x) && lex_lt(x, b) ==> better(which, metric(req, which, b), metric(req, which, x))
}

/// The witness describes scenario `x`.
pub open spec fn witness_of(w: ScenarioWitness, req: RiskRequest, x: (int, int, int)) -> bool {
    &&& w.fill_quantities_micros@ == fills_at(req, x.0)
    &&& w.outcome_bits@ == bits_at(req, x.1)
    &&& w.shock_id@ == req.shocks@[x.2].shock_id@
    &&& w.terminal_wealth_micros as int == metric(req, 0, x)
    &&& w.gross_exposure_micros as int == metric(req, 1, x)
    &&& w.max_condition_exposure_micros as int == metric(req, 2, x)
    &&& w.max_group_exposure_micros as int == metric(req, 3, x)
}

/// A tracker: the best scenario so far and its metric.
pub type Best = Option<(u64, u64, usize, i128)>;

pub open spec fn best_pos(b: (u64, u64, usize, i128)) -> (int, int, int) {
    (b.0 as int, b.1 as int, b.2 as int)
}

/// Scenario `x` precedes position `pos` and so has been considered.
pub open spec fn processed(req: RiskRequest, x: (int, int, int), pos: (int, int, int)) -> bool {
    in_range(req, x) && lex_lt(x, pos)
}

/// The tracker holds the first best scenario among those processed.
pub open spec fn best_inv(req: RiskRequest, which: int, best: Best, pos: (int, int, int)) -> bool {
    match best {
        None => forall|x: (int, int, int)| !(#[trigger] processed(req, x, pos)),
        Some(b) => {
            &&& processed(req, best_pos(b), pos)
            &&& b.3 as int == metric(req, which, best_pos(b))
            &&& forall|x: (int, int, int)| #[trigger] processed(req, x, pos) ==> !better(which, metric(req, which, x), b.3 as int)
            &&& forall|x: (int, int, int)|
                #[trigger] processed(req, x, pos) && lex_lt(x, best_pos(b)) ==> better(which, b.3 as int, metric(req, which, x))
        },
    }
}

/// Offers scenario `(f, o, s)` with metric `v` to a tracker.
fn offer(best: &mut Best, minimize: bool, f: u64, o: u64, s: usize, v: i128)
    ensures
        match *old(best) {
            None => *final(best) == Some((f, o, s, v)),
            Some(b) => if (minimize && v < b.3) || (!minimize && v > b.3) {
                *final(best) == Some((f, o, s, v))
            } else {
                *final(best) == *old(best)
            },
        },
{
    match *best {
        None => {
            *best = Some((f, o, s, v));
        },
        Some(b) => {
            if (minimize && v < b.3) || (!minimize && v > b.3) {
                *best = Some((f, o, s, v));
            }
        },
    }
}

proof fn lemma_offer(req: RiskRequest, which: int, old_best: Best, new_best: Best, pos: (int, int, int), next: (int, int, int), v: int)
    requires
        best_inv(req, which, old_best, pos),
        in_range(req, pos),
        v == metric(req, which, pos),
        forall|x: (int, int, int)| #[trigger] processed(req, x, next) <==> (processed(req, x, pos) || x == pos),
        lex_lt(pos, next),
        match old_best {
            None => new_best == Some((pos.0 as u64, pos.1 as u64, pos.2 as usize, v as i128)),
            Some(b) => if better(which, v, b.3 as int) {
                new_best == Some((pos.0 as u64, pos.1 as u64, pos.2 as usize, v as i128))
            } else {
                new_best == old_best
            },
        },
        0 <= pos.0 <= u64::MAX,
        0 <= pos.1 <= u64::MAX,
        0 <= pos.2 <= usize::MAX,
        i128::MIN <= v <= i128::MAX,
    ensures
        best_inv(req, which, new_best, next),
{
    assert(processed(req, pos, next));
    match old_best {
        None => {
            assert forall|x: (int, int, int)| #[trigger] processed(req, x, next) implies !better(which, metric(req, which, x), v) by {
                assert(!processed(req, x, pos));
            }
        },
        Some(b) => {
            if better(which, v, b.3 as int) {
                assert forall|x: (int, int, int)| #[trigger] processed(req, x, next) implies !better(which, metric(req, which, x), v) by {
                    if x != pos {
                        assert(processed(req, x, pos));
                    }
                }
                assert forall|x: (int, int, int)| #[trigger] processed(req, x, next) && lex_lt(x, pos) implies better(which, v, metric(req, which, x)) by {
                    assert(processed(req, x, pos));
                }
            } else {
                assert forall|x: (int, int, int)| #[trigger] processed(req, x, next) && lex_lt(x, best_pos(b)) implies better(which, b.3 as int, metric(req, which, x)) by {
                    assert(processed(req, x, pos));
                }
            }
        },
    }
}

proof fn lemma_decode_nonneg(index: nat, opts: Seq<Seq<i128>>)
    requires
        forall|k: int| 0 <= k < opts.len() ==> (#[trigger] opts[k]).len() > 0,
        forall|k: int, j: int| 0 <= k < opts.len() && 0 <= j < opts[k].len() ==> #[trigger] opts[k][j] >= 0,
    ensures
        decode_fills_spec(index, opts).len() == opts.len(),
        forall|k: int| 0 <= k < opts.len() ==> #[trigger] decode_fills_spec(index, opts)[k] >= 0,
    decreases opts.len(),
{
    if opts.len() > 0 {
        let rest = opts.drop_first();
        assert forall|k: int, j: int| 0 <= k < rest.len() && 0 <= j < rest[k].len() implies #[trigger] rest[k][j] >= 0 by {
            assert(rest[k] == opts[k + 1]);
        }
        assert forall|k: int| 0 <= k < rest.len() implies (#[trigger] rest[k]).len() > 0 by {
            assert(rest[k] == opts[k + 1]);
        }
        lemma_decode_nonneg(index / opts[0].len(), rest);
        let r = decode_fills_spec(index, opts);
        assert forall|k: int| 0 <= k < opts.len() implies #[trigger] r[k] >= 0 by {
            if k > 0 {
                assert(r[k] == decode_fills_spec(index / opts[0].len(), rest)[k - 1]);
            }
        }
    }
}

proof fn lemma_fills_nonneg(req: RiskRequest, h0: HoldingsView, fills: Seq<i128>, k: nat)
    requires
        holdings_nonneg(h0),
        holdings_shape(h0, 2 * req.markets@.len()),
        k <= fills.len() == scenario_orders(req).len(),
        forall|j: int| 0 <= j < fills.len() ==> #[trigger] fills[j] >= 0,
        forall|j: int| 0 <= j < scenario_orders(req).len() ==> 0 <= #[trigger] slot_list(req)[j] < 2 * req.markets@.len(),
    ensures
        fills_apply(req, h0, fills, k) matches Some(h) ==> holdings_nonneg(h) && holdings_shape(h, 2 * req.markets@.len()),
    decreases k,
{
    if k > 0 {
        lemma_fills_nonneg(req, h0, fills, (k - 1) as nat);
        if let Some(h) = fills_apply(req, h0, fills, (k - 1) as nat) {
            let j = k - 1;
            assert(0 <= slot_list(req)[j] < 2 * req.markets@.len());
            lemma_apply_fill_keeps_nonneg(h, scenario_orders(req)[j], slot_list(req)[j], fills[j] as int, j < req.open_orders@.len(), 2 * req.markets@.len());
        }
    }
}

/// The holdings of fill combination `f`, when computable, are non-negative and well shaped.
pub open spec fn hold_nonneg_at(req: RiskRequest, f: int) -> bool {
    match hold_at(req, f) {
        Some(h) => holdings_nonneg(h) && holdings_shape(h, 2 * req.markets@.len()),
        None => true,
    }
}

/// Facts that hold of every ready, prepared request.
pub open spec fn ready(req: RiskRequest, p: Prepared) -> bool {
    &&& prepare_spec(req) == PrepOutcome::Ready
    &&& prepared_for(p, req)
}

proof fn lemma_ready_facts(req: RiskRequest, p: Prepared)
    requires
        ready(req, p),
    ensures
        req.markets@.len() <= HARD_MAX_MARKETS,
        req.markets@.len() >= 1,
        scenario_orders(req).len() <= HARD_MAX_ORDERS,
        req.shocks@.len() >= 1,
        p.fill_options@.map_values(|v: Vec<i128>| v@) == option_lists(req),
        forall|k: int| 0 <= k < p.fill_options@.len() ==> (#[trigger] p.fill_options@[k])@.len() > 0,
        forall|f: int| #[trigger] hold_nonneg_at(req, f),
        p.fill_combinations as int == n_fills(req),
        p.outcome_combinations as int == n_outcomes(req),
        n_fills(req) >= 1,
        n_outcomes(req) >= 1,
{
    let orders = scenario_orders(req);
    let ms = req.markets@;
    assert(p.fill_options@.map_values(|v: Vec<i128>| v@) =~= option_lists(req));
    lemma_initial_holdings(req, p);
    let opts = option_lists(req);
    assert forall|k: int, j: int| 0 <= k < opts.len() && 0 <= j < opts[k].len() implies #[trigger] opts[k][j] >= 0 by {
        assert(super::frame::order_valid(ms, orders[k]));
    }
    assert forall|k: int| 0 <= k < opts.len() implies (#[trigger] opts[k]).len() > 0 by {}
    assert forall|j: int| 0 <= j < orders.len() implies 0 <= #[trigger] slot_list(req)[j] < 2 * ms.len() by {
        super::frame::lemma_slot_range(ms, orders[j].token, 0);
    }
    assert forall|f: int| #[trigger] hold_nonneg_at(req, f) by {
        lemma_decode_nonneg(f as nat, opts);
        lemma_fills_nonneg(req, super::prepare::initial_holdings(ms, req.ledger), fills_at(req, f), orders.len());
    }
    lemma_fill_combos_pos(orders, orders.len());
    lemma_pow2_pos(ms.len());
}

proof fn lemma_fill_combos_pos(orders: Seq<OrderExposure>, k: nat)
    requires
        k <= orders.len(),
    ensures
        fill_combos(orders, k) >= 1,
    decreases k,
{
    if k > 0 {
        lemma_fill_combos_pos(orders, (k - 1) as nat);
        let a = fill_combos(orders, (k - 1) as nat);
        let b = super::frame::options_spec(orders[k - 1]).len();
        assert(a * b >= 1) by (nonlinear_arith)
            requires
                a >= 1,
                b >= 1,
        ;
    }
}

proof fn lemma_pow2_pos(n: nat)
    ensures
        pow2(n) >= 1,
    decreases n,
{
    if n > 0 {
        lemma_pow2_pos((n - 1) as nat);
    }
}

/// The four trackers after every scenario.
pub struct Trackers {
    pub minimum: Best,
    pub gross: Best,
    pub condition: Best,
    pub group: Best,
}

pub open spec fn trackers_inv(req: RiskRequest, t: Trackers, pos: (int, int, int)) -> bool {
    &&& best_inv(req, 0, t.minimum, pos)
    &&& best_inv(req, 1, t.gross, pos)
    &&& best_inv(req, 2, t.condition, pos)
    &&& best_inv(req, 3, t.group, pos)
    &&& forall|x: (int, int, int)| #[trigger] processed(req, x, pos) ==> expo_at(req, x.0) is Some && wealth_at(req, x) is Some
}

/// Runs every scenario, tracking the first minimum-wealth and maximum-exposure scenarios.
#[verifier::rlimit(40)]
fn scan_scenarios(req: &RiskRequest, p: &Prepared) -> (r: Result<Trackers, Error>)
    requires
        ready(*req, *p),
    ensures
        match r {
            Err(e) => !scenarios_ok(*req) && e == Error::Overflow,
            Ok(t) => scenarios_ok(*req) && trackers_inv(*req, t, (n_fills(*req), 0, 0)),
        },
{
    proof { lemma_ready_facts(*req, *p); }
    let ghost nf = n_fills(*req);
    let ghost no = n_outcomes(*req);
    let ghost ns = n_shocks(*req);
    let mut t = Trackers { minimum: None, gross: None, condition: None, group: None };
    let m = req.markets.len();
    let n_s = req.shocks.len();
    let mut fi: u64 = 0;
    while fi < p.fill_combinations
        invariant
            ready(*req, *p),
            nf == n_fills(*req) == p.fill_combinations as int,
            no == n_outcomes(*req) == p.outcome_combinations as int,
            ns == n_shocks(*req) == n_s as int,
            m == req.markets@.len(),
            m <= HARD_MAX_MARKETS,
            p.fill_options@.map_values(|v: Vec<i128>| v@) == option_lists(*req),
            forall|k: int| 0 <= k < p.fill_options@.len() ==> (#[trigger] p.fill_options@[k])@.len() > 0,
            forall|f: int| #[trigger] hold_nonneg_at(*req, f),
            0 <= fi <= nf,
            no >= 1,
            ns >= 1,
            trackers_inv(*req, t, (fi as int, 0, 0)),
        decreases nf - fi,
    {
        let fills = decode_fills(fi, &p.fill_options);
        assert(fills@ == fills_at(*req, fi as int));
        let h = match holdings_after(req, p, &fills) {
            Ok(h) => h,
            Err(e) => {
                assert(in_range(*req, (fi as int, 0, 0)));
                return Err(e);
            },
        };
        assert(hold_at(*req, fi as int) == Some(h@));
        assert(hold_nonneg_at(*req, fi as int));
        let (gross, condition, group) = match exposure(&h, req) {
            Ok(v) => v,
            Err(e) => {
                assert(in_range(*req, (fi as int, 0, 0)));
                return Err(e);
            },
        };
        let mut oi: u64 = 0;
        while oi < p.outcome_combinations
            invariant
                ready(*req, *p),
                nf == n_fills(*req) == p.fill_combinations as int,
                no == n_outcomes(*req) == p.outcome_combinations as int,
                ns == n_shocks(*req) == n_s as int,
                m == req.markets@.len(),
                m <= HARD_MAX_MARKETS,
                0 <= fi < nf,
                0 <= oi <= no,
                hold_at(*req, fi as int) == Some(h@),
                h.available@.len() == 2 * m,
                h.reserved@.len() == 2 * m,
                h.locked@.len() == 2 * m,
                expo_at(*req, fi as int) == Some((gross as int, condition as int, group as int)),
                trackers_inv(*req, t, (fi as int, oi as int, 0)),
            decreases no - oi,
        {
            let bits = outcome_bits(oi, m);
            let mut si: usize = 0;
            while si < n_s
                invariant
                    ready(*req, *p),
                    nf == n_fills(*req),
                    no == n_outcomes(*req),
                    ns == n_shocks(*req) == n_s as int,
                    m == req.markets@.len(),
                    m <= HARD_MAX_MARKETS,
                    0 <= fi < nf,
                    0 <= oi < no,
                    0 <= si <= ns,
                    bits@ == bits_at(*req, oi as int),
                    bits@.len() == m,
                    hold_at(*req, fi as int) == Some(h@),
                    h.available@.len() == 2 * m,
                    h.reserved@.len() == 2 * m,
                    h.locked@.len() == 2 * m,
                    expo_at(*req, fi as int) == Some((gross as int, condition as int, group as int)),
                    trackers_inv(*req, t, (fi as int, oi as int, si as int)),
                decreases ns - si,
            {
                let ghost pos = (fi as int, oi as int, si as int);
                let wealth = match terminal_wealth(&h, req, &bits, &req.shocks[si]) {
                    Ok(v) => v,
                    Err(e) => {
                        assert(in_range(*req, pos));
                        assert(wealth_at(*req, pos) is None);
                        return Err(e);
                    },
                };
                let ghost next = (fi as int, oi as int, si + 1);
                let ghost t0 = t;
                assert(in_range(*req, pos));
                assert forall|x: (int, int, int)| #[trigger] processed(*req, x, next) <==> (processed(*req, x, pos) || x == pos) by {}
                offer(&mut t.minimum, true, fi, oi, si, wealth);
                offer(&mut t.gross, false, fi, oi, si, gross);
                offer(&mut t.condition, false, fi, oi, si, condition);
                offer(&mut t.group, false, fi, oi, si, group);
                proof {
                    lemma_offer(*req, 0, t0.minimum, t.minimum, pos, next, wealth as int);
                    lemma_offer(*req, 1, t0.gross, t.gross, pos, next, gross as int);
                    lemma_offer(*req, 2, t0.condition, t.condition, pos, next, condition as int);
                    lemma_offer(*req, 3, t0.group, t.group, pos, next, group as int);
                }
                si = si + 1;
            }
            proof {
                let a = (fi as int, oi as int, ns);
                let b = (fi as int, oi + 1, 0int);
                assert forall|x: (int, int, int)| #[trigger] processed(*req, x, a) <==> processed(*req, x, b) by {}
                lemma_best_inv_same(*req, t, a, b);
            }
            oi = oi + 1;
        }
        proof {
            let a = (fi as int, no, 0int);
            let b = (fi + 1, 0int, 0int);
            assert forall|x: (int, int, int)| #[trigger] processed(*req, x, a) <==> processed(*req, x, b) by {}
            lemma_best_inv_same(*req, t, a, b);
        }
        fi = fi + 1;
    }
    proof {
        assert forall|x: (int, int, int)| #[trigger] in_range(*req, x) implies expo_at(*req, x.0) is Some && wealth_at(*req, x) is Some by {
            assert(processed(*req, x, (nf, 0, 0)));
        }
    }
    Ok(t)
}

proof fn lemma_best_inv_same(req: RiskRequest, t: Trackers, a: (int, int, int), b: (int, int, int))
    requires
        trackers_inv(req, t, a),
        forall|x: (int, int, int)| #[trigger] processed(req, x, a) <==> processed(req, x, b),
    ensures
        trackers_inv(req, t, b),
{
    lemma_one_best_same(req, 0, t.minimum, a, b);
    lemma_one_best_same(req, 1, t.gross, a, b);
    lemma_one_best_same(req, 2, t.condition, a, b);
    lemma_one_best_same(req, 3, t.group, a, b);
    assert forall|x: (int, int, int)| #[trigger] processed(req, x, b) implies expo_at(req, x.0) is Some && wealth_at(req, x) is Some by {
        assert(processed(req, x, a));
    }
}

proof fn lemma_one_best_same(req: RiskRequest, which: int, best: Best, a: (int, int, int), b: (int, int, int))
    requires
        best_inv(req, which, best, a),
        forall|x: (int, int, int)| #[trigger] processed(req, x, a) <==> processed(req, x, b),
    ensures
        best_inv(req, which, best, b),
{
    match best {
        None => {
            assert forall|x: (int, int, int)| !(#[trigger] processed(req, x, b)) by {
                assert(!processed(req, x, a));
            }
        },
        Some(bb) => {
            assert(processed(req, best_pos(bb), a));
            assert forall|x: (int, int, int)| #[trigger] processed(req, x, b) implies !better(which, metric(req, which, x), bb.3 as int) by {
                assert(processed(req, x, a));
            }
            assert forall|x: (int, int, int)| #[trigger] processed(req, x, b) && lex_lt(x, best_pos(bb)) implies better(which, bb.3 as int, metric(req, which, x)) by {
                assert(processed(req, x, a));
            }
        },
    }
}

/// Rebuilds the witness of one scenario.
fn build_witness(req: &RiskRequest, p: &Prepared, f: u64, o: u64, s: usize) -> (r: Result<ScenarioWitness, Error>)
    requires
        ready(*req, *p),
        scenarios_ok(*req),
        in_range(*req, (f as int, o as int, s as int)),
    ensures
        r matches Ok(w) && witness_of(w, *req, (f as int, o as int, s as int)),
{
    proof { lemma_ready_facts(*req, *p); }
    let ghost x = (f as int, o as int, s as int);
    assert(expo_at(*req, x.0) is Some && wealth_at(*req, x) is Some);
    let fills = decode_fills(f, &p.fill_options);
    let h = holdings_after(req, p, &fills)?;
    assert(hold_nonneg_at(*req, f as int));
    let (gross, condition, group) = exposure(&h, req)?;
    let bits = outcome_bits(o, req.markets.len());
    let wealth = terminal_wealth(&h, req, &bits, &req.shocks[s])?;
    Ok(ScenarioWitness {
        fill_quantities_micros: fills,
        outcome_bits: bits,
        shock_id: req.shocks[s].shock_id.clone(),
        terminal_wealth_micros: wealth,
        gross_exposure_micros: gross,
        max_condition_exposure_micros: condition,
        max_group_exposure_micros: group,
    })
}

/// Domain of the digest of one exact candidate order.
pub open spec fn order_domain() -> Seq<u8> {
    "portfolio-risk-order-exposure-v1".spec_bytes()
}

/// Domain of the digest of a multi-order candidate set.
pub open spec fn candidate_set_domain() -> Seq<u8> {
    "portfolio-risk-candidate-set-v1".spec_bytes()
}

/// Domain of the digest of a risk decision.
pub open spec fn decision_domain() -> Seq<u8> {
    "portfolio-risk-decision-v1".spec_bytes()
}

pub open spec fn order_exposure_digest_spec(o: OrderExposure) -> Seq<u8> {
    domain_digest(order_domain(), o.canon())
}

/// A one-order set keeps the single-order digest; a larger set uses its own domain.
pub open spec fn candidate_set_digest_spec(req: RiskRequest) -> Seq<u8> {
    if req.additional_candidates@.len() == 0 {
        order_exposure_digest_spec(req.candidate)
    } else {
        domain_digest(candidate_set_domain(), req.candidate.canon() + req.additional_candidates.canon())
    }
}

/// The stable fingerprint of an exact candidate order.
pub fn order_exposure_digest(o: &OrderExposure) -> (r: [u8; 32])
    ensures
        r@ == order_exposure_digest_spec(*o),
{
    let mut body: Vec<u8> = Vec::new();
    o.encode_into(&mut body);
    digest_domain("portfolio-risk-order-exposure-v1".as_bytes(), body.as_slice())
}

/// The stable fingerprint of the complete candidate set of a request.
pub fn candidate_set_digest(req: &RiskRequest) -> (r: [u8; 32])
    ensures
        r@ == candidate_set_digest_spec(*req),
{
    if req.additional_candidates.len() == 0 {
        return order_exposure_digest(&req.candidate);
    }
    let mut body: Vec<u8> = Vec::new();
    req.candidate.encode_into(&mut body);
    req.additional_candidates.encode_into(&mut body);
    digest_domain("portfolio-risk-candidate-set-v1".as_bytes(), body.as_slice())
}

impl RiskDecision {
    /// The encoding of this decision with its own digest zeroed.
    pub open spec fn body_canon(&self) -> Seq<u8> {
        self.command_id.canon() + self.evaluated_at_ns.canon() + self.status.canon() + self.reason.canon()
            + self.minimum_terminal_wealth_micros.canon() + self.scenario_count.canon() + self.witness.canon()
            + self.reconciliation_digest.canon() + self.ledger_digest.canon() + self.candidate_order_digest.canon()
            + zero32()
    }

    pub open spec fn digest_spec(&self) -> Seq<u8> {
        domain_digest(decision_domain(), self.body_canon())
    }

    /// Whether this immutable decision still matches its digest.
    pub fn verify_digest(&self) -> (r: bool)
        ensures
            r == (self.decision_digest@ == self.digest_spec()),
    {
        let d = decision_digest(self);
        crate::digest::digest_eq(&self.decision_digest, &d)
    }
}

/// The digest of a decision over every field but the digest itself.
pub fn decision_digest(d: &RiskDecision) -> (r: [u8; 32])
    ensures
        r@ == d.digest_spec(),
{
    let mut body: Vec<u8> = Vec::new();
    let ghost start = body@;
    d.command_id.encode_into(&mut body);
    d.evaluated_at_ns.encode_into(&mut body);
    d.status.encode_into(&mut body);
    d.reason.encode_into(&mut body);
    d.minimum_terminal_wealth_micros.encode_into(&mut body);
    d.scenario_count.encode_into(&mut body);
    d.witness.encode_into(&mut body);
    d.reconciliation_digest.encode_into(&mut body);
    d.ledger_digest.encode_into(&mut body);
    d.candidate_order_digest.encode_into(&mut body);
    let zero = [0u8; 32];
    crate::digest::push_bytes(&mut body, zero.as_slice());
    assert(zero@ =~= zero32());
    assert(body@ =~= d.body_canon());
    digest_domain("portfolio-risk-decision-v1".as_bytes(), body.as_slice())
}

/// `d` is the sealed `NO_TRADE` decision for `reason` with no scenario evidence.
pub open spec fn no_trade_decision(d: RiskDecision, id: RiskCommandId, req: RiskRequest, reason: DecisionReason) -> bool {
    &&& d.command_id == id
    &&& d.evaluated_at_ns == req.evaluated_at_ns
    &&& d.status == DecisionStatus::NoTrade
    &&& d.reason == reason
    &&& d.minimum_terminal_wealth_micros is None
    &&& d.scenario_count == 0
    &&& d.witness is None
    &&& d.reconciliation_digest == req.reconciliation.reconciliation_digest
    &&& d.ledger_digest == req.ledger.ledger_digest
    &&& d.candidate_order_digest@ == candidate_set_digest_spec(req)
    &&& d.decision_digest@ == d.digest_spec()
}

/// A sealed `NO_TRADE` decision for a request refused before enumeration.
pub fn no_trade(id: RiskCommandId, req: &RiskRequest, reason: DecisionReason) -> (d: RiskDecision)
    ensures
        no_trade_decision(d, id, *req, reason),
{
    let mut d = RiskDecision {
        command_id: id,
        evaluated_at_ns: req.evaluated_at_ns,
        status: DecisionStatus::NoTrade,
        reason,
        minimum_terminal_wealth_micros: None,
        scenario_count: 0,
        witness: None,
        reconciliation_digest: req.reconciliation.reconciliation_digest,
        ledger_digest: req.ledger.ledger_digest,
        candidate_order_digest: candidate_set_digest(req),
        decision_digest: [0u8; 32],
    };
    d.decision_digest = decision_digest(&d);
    d
}

/// The status, reason and deciding scenario given the four first-best scenarios:
/// the capital floor first, then gross, condition and group exposure.
pub open spec fn verdict(req: RiskRequest, bm: (int, int, int), bg: (int, int, int), bc: (int, int, int), bgr: (int, int, int)) -> (DecisionStatus, DecisionReason, (int, int, int)) {
    let l = req.limits;
    if metric(req, 0, bm) < l.capital_floor_micros {
        (DecisionStatus::NoTrade, DecisionReason::CapitalFloor, bm)
    } else if metric(req, 1, bg) > l.max_gross_exposure_micros {
        (DecisionStatus::NoTrade, DecisionReason::GrossExposure, bg)
    } else if metric(req, 2, bc) > l.max_condition_exposure_micros {
        (DecisionStatus::NoTrade, DecisionReason::ConditionExposure, bc)
    } else if metric(req, 3, bgr) > l.max_group_exposure_micros {
        (DecisionStatus::NoTrade, DecisionReason::GroupExposure, bgr)
    } else {
        (DecisionStatus::Approve, DecisionReason::AllLimitsSatisfied, bm)
    }
}

/// `d` is the sealed decision over every scenario of a ready request.
pub open spec fn enumerated_decision(d: RiskDecision, id: RiskCommandId, req: RiskRequest) -> bool {
    &&& scenarios_ok(req)
    &&& exists|bm: (int, int, int), bg: (int, int, int), bc: (int, int, int), bgr: (int, int, int)| {
        &&& #[trigger] first_best(req, 0, bm)
        &&& #[trigger] first_best(req, 1, bg)
        &&& #[trigger] first_best(req, 2, bc)
        &&& #[trigger] first_best(req, 3, bgr)
        &&& d.status == verdict(req, bm, bg, bc, bgr).0
        &&& d.reason == verdict(req, bm, bg, bc, bgr).1
        &&& d.minimum_terminal_wealth_micros == Some(metric(req, 0, bm) as i128)
        &&& d.witness matches Some(w) && witness_of(w, req, verdict(req, bm, bg, bc, bgr).2)
    }
    &&& d.command_id == id
    &&& d.evaluated_at_ns == req.evaluated_at_ns
    &&& d.scenario_count as int == n_fills(req) * n_outcomes(req) * n_shocks(req)
    &&& d.reconciliation_digest == req.reconciliation.reconciliation_digest
    &&& d.ledger_digest == req.ledger.ledger_digest
    &&& d.candidate_order_digest@ == candidate_set_digest_spec(req)
    &&& d.decision_digest@ == d.digest_spec()
}

proof fn lemma_final_best(req: RiskRequest, which: int, best: Best)
    requires
        best_inv(req, which, best, (n_fills(req), 0, 0)),
        n_fills(req) >= 1,
        n_outcomes(req) >= 1,
        n_shocks(req) >= 1,
    ensures
        best matches Some(b) && first_best(req, which, best_pos(b)) && b.3 as int == metric(req, which, best_pos(b)),
{
    assert(processed(req, (0, 0, 0), (n_fills(req), 0, 0)));
    let b = best->0;
    assert forall|x: (int, int, int)| #[trigger] in_range(req, x) implies processed(req, x, (n_fills(req), 0, 0)) by {}
}

/// Enumerates every scenario of a ready request and decides.
pub fn enumerate(id: RiskCommandId, req: &RiskRequest, p: &Prepared) -> (r: Result<RiskDecision, Error>)
    requires
        ready(*req, *p),
    ensures
        match r {
            Err(e) => !scenarios_ok(*req) && e == Error::Overflow,
            Ok(d) => enumerated_decision(d, id, *req),
        },
{
    proof { lemma_ready_facts(*req, *p); }
    let t = scan_scenarios(req, p)?;
    proof {
        lemma_final_best(*req, 0, t.minimum);
        lemma_final_best(*req, 1, t.gross);
        lemma_final_best(*req, 2, t.condition);
        lemma_final_best(*req, 3, t.group);
    }
    let minimum = t.minimum.unwrap();
    let gross = t.gross.unwrap();
    let condition = t.condition.unwrap();
    let group = t.group.unwrap();
    let ghost bm = best_pos(minimum);
    let ghost bg = best_pos(gross);
    let ghost bc = best_pos(condition);
    let ghost bgr = best_pos(group);
    let l = &req.limits;
    let (status, reason, chosen) = if minimum.3 < l.capital_floor_micros {
        (DecisionStatus::NoTrade, DecisionReason::CapitalFloor, minimum)
    } else if gross.3 > l.max_gross_exposure_micros {
        (DecisionStatus::NoTrade, DecisionReason::GrossExposure, gross)
    } else if condition.3 > l.max_condition_exposure_micros {
        (DecisionStatus::NoTrade, DecisionReason::ConditionExposure, condition)
    } else if group.3 > l.max_group_exposure_micros {
        (DecisionStatus::NoTrade, DecisionReason::GroupExposure, group)
    } else {
        (DecisionStatus::Approve, DecisionReason::AllLimitsSatisfied, minimum)
    };
    assert(verdict(*req, bm, bg, bc, bgr) == (status, reason, best_pos(chosen)));
    let witness = build_witness(req, p, chosen.0, chosen.1, chosen.2)?;
    let mut d = RiskDecision {
        command_id: id,
        evaluated_at_ns: req.evaluated_at_ns,
        status,
        reason,
        minimum_terminal_wealth_micros: Some(minimum.3),
        scenario_count: p.scenario_count,
        witness: Some(witness),
        reconciliation_digest: req.reconciliation.reconciliation_digest,
        ledger_digest: req.ledger.ledger_digest,
        candidate_order_digest: candidate_set_digest(req),
        decision_digest: [0u8; 32],
    };
    d.decision_digest = decision_digest(&d);
    assert(first_best(*req, 0, bm) && first_best(*req, 1, bg) && first_best(*req, 2, bc) && first_best(*req, 3, bgr));
    Ok(d)
}

/// How an evaluation proceeds before any scenario is enumerated.
#[derive(PartialEq, Eq)]
pub enum Gate {
    Overflow,
    NoTrade(DecisionReason),
    Enumerate,
}

/// The gates of an evaluation in order: frame limits, reconciliation readiness,
/// chronology, staleness, ledger provenance, ledger halt, then preparation.
pub open spec fn gate_spec(req: RiskRequest) -> Gate {
    let g = req.reconciliation;
    if !limits_valid(req.limits) || req.evaluated_at_ns < 0 {
        Gate::NoTrade(DecisionReason::InvalidFrame)
    } else if !g.ready || g.evaluated_at_ns is None || g.ledger_digest is None {
        Gate::NoTrade(DecisionReason::ReconciliationNotReady)
    } else if req.evaluated_at_ns < g.evaluated_at_ns->0 {
        Gate::NoTrade(DecisionReason::InvalidFrame)
    } else if req.evaluated_at_ns - g.evaluated_at_ns->0 > i64::MAX {
        Gate::Overflow
    } else if req.evaluated_at_ns - g.evaluated_at_ns->0 > req.limits.max_reconciliation_age_ns {
        Gate::NoTrade(DecisionReason::ReconciliationStale)
    } else if (g.ledger_digest->0)@ != req.ledger.ledger_digest@ {
        Gate::NoTrade(DecisionReason::ProvenanceMismatch)
    } else if req.ledger.halted {
        Gate::NoTrade(DecisionReason::LedgerHalted)
    } else {
        match prepare_spec(req) {
            PrepOutcome::Overflow => Gate::Overflow,
            PrepOutcome::Reject(reason) => Gate::NoTrade(reason),
            PrepOutcome::Ready => Gate::Enumerate,
        }
    }
}

/// What evaluating a request may return.
pub open spec fn evaluation(r: Result<RiskDecision, Error>, id: RiskCommandId, req: RiskRequest) -> bool {
    match gate_spec(req) {
        Gate::Overflow => r == Err::<RiskDecision, Error>(Error::Overflow),
        Gate::NoTrade(reason) => r matches Ok(d) && no_trade_decision(d, id, req, reason),
        Gate::Enumerate => match r {
            Err(e) => !scenarios_ok(req) && e == Error::Overflow,
            Ok(d) => enumerated_decision(d, id, req),
        },
    }
}

/// Evaluates one request: a refusal is a sealed `NO_TRADE`; only arithmetic overflow fails.
pub fn evaluate(id: RiskCommandId, req: &RiskRequest) -> (r: Result<RiskDecision, Error>)
    ensures
        evaluation(r, id, *req),
{
    if !valid_limits(&req.limits) || req.evaluated_at_ns < 0 {
        return Ok(no_trade(id, req, DecisionReason::InvalidFrame));
    }
    let g = &req.reconciliation;
    if !g.ready {
        return Ok(no_trade(id, req, DecisionReason::ReconciliationNotReady));
    }
    let reconciled_at = match g.evaluated_at_ns {
        Some(v) => v,
        None => {
            return Ok(no_trade(id, req, DecisionReason::ReconciliationNotReady));
        },
    };
    let reconciled_ledger = match g.ledger_digest {
        Some(v) => v,
        None => {
            return Ok(no_trade(id, req, DecisionReason::ReconciliationNotReady));
        },
    };
    if req.evaluated_at_ns < reconciled_at {
        return Ok(no_trade(id, req, DecisionReason::InvalidFrame));
    }
    let age = match req.evaluated_at_ns.checked_sub(reconciled_at) {
        Some(v) => v,
        None => {
            return Err(Error::Overflow);
        },
    };
    if age > req.limits.max_reconciliation_age_ns {
        return Ok(no_trade(id, req, DecisionReason::ReconciliationStale));
    }
    if !crate::digest::digest_eq(&reconciled_ledger, &req.ledger.ledger_digest) {
        return Ok(no_trade(id, req, DecisionReason::ProvenanceMismatch));
    }
    if req.ledger.halted {
        return Ok(no_trade(id, req, DecisionReason::LedgerHalted));
    }
    match prepare(req) {
        Err(e) => Err(e),
        Ok(Err(reason)) => Ok(no_trade(id, req, reason)),
        Ok(Ok(p)) => enumerate(id, req, &p),
    }
}

} // verus!
