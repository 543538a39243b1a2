//! Preparation of a risk request: frame validation, reservation backing,
//! candidate capacity and the scenario budget.

use vstd::prelude::*;
use crate::digest::digest_eq;
use super::arith::{add_checked, add_spec, arith_result, res_view};
use super::frame::{balance_slots, balances, balances_valid, check_markets, check_shocks, fill_safe_spec, find_slot, full_buy_cost, full_buy_cost_spec, ints, markets_valid, options, options_spec, order_fill_safe, order_valid, shocks_valid, slot_of, HARD_MAX_CANDIDATES, HARD_MAX_MARKETS, HARD_MAX_ORDERS, HARD_MAX_SCENARIOS, HARD_MAX_SHOCKS};
use super::types::{BinaryMarketRisk, DecisionReason, Error, LedgerRiskView, OrderExposure, OrderSide, RiskLimits, RiskRequest};

verus! {

/// Every order of a scenario in evaluation order: open orders, the candidate,
/// then the additional candidates.
pub open spec fn scenario_orders(req: RiskRequest) -> Seq<OrderExposure> {
    req.open_orders@ + seq![req.candidate] + req.additional_candidates@
}

/// Limits are non-negative, bounded, and every haircut is at most 100%.
pub open spec fn limits_valid(l: RiskLimits) -> bool {
    &&& l.capital_floor_micros >= 0
    &&& l.operational_reserve_micros >= 0
    &&& l.pending_settlement_reserve_micros >= 0
    &&& l.max_gross_exposure_micros >= 0
    &&& l.max_condition_exposure_micros >= 0
    &&& l.max_group_exposure_micros >= 0
    &&& l.max_reconciliation_age_ns >= 0
    &&& l.max_open_orders <= HARD_MAX_ORDERS
    &&& l.max_scenarios > 0
    &&& l.max_scenarios <= HARD_MAX_SCENARIOS
    &&& l.reserved_cash_haircut_bps <= 10_000
    &&& l.available_token_haircut_bps <= 10_000
    &&& l.reserved_token_haircut_bps <= 10_000
    &&& l.locked_token_haircut_bps <= 10_000
}

pub fn valid_limits(l: &RiskLimits) -> (r: bool)
    ensures
        r == limits_valid(*l),
{
    l.capital_floor_micros >= 0 && l.operational_reserve_micros >= 0
        && l.pending_settlement_reserve_micros >= 0 && l.max_gross_exposure_micros >= 0
        && l.max_condition_exposure_micros >= 0 && l.max_group_exposure_micros >= 0
        && l.max_reconciliation_age_ns >= 0 && l.max_open_orders <= HARD_MAX_ORDERS
        && l.max_scenarios > 0 && l.max_scenarios <= HARD_MAX_SCENARIOS
        && l.reserved_cash_haircut_bps <= 10_000 && l.available_token_haircut_bps <= 10_000
        && l.reserved_token_haircut_bps <= 10_000 && l.locked_token_haircut_bps <= 10_000
}

/// The counts and bounds of a request frame are within the hard limits.
pub open spec fn frame_bounds_ok(req: RiskRequest) -> bool {
    &&& limits_valid(req.limits)
    &&& req.evaluated_at_ns >= 0
    &&& req.markets@.len() > 0
    &&& req.markets@.len() <= HARD_MAX_MARKETS
    &&& req.open_orders@.len() <= req.limits.max_open_orders
    &&& req.open_orders@.len() <= HARD_MAX_ORDERS
    &&& req.additional_candidates@.len() + 1 <= HARD_MAX_CANDIDATES
    &&& req.open_orders@.len() + req.additional_candidates@.len() + 1 <= HARD_MAX_ORDERS
    &&& req.shocks@.len() > 0
    &&& req.shocks@.len() <= HARD_MAX_SHOCKS
}

/// The order at position `k` reuses the id of an earlier order.
pub open spec fn order_id_seen(orders: Seq<OrderExposure>, k: int) -> bool {
    exists|j: int| 0 <= j < k && (#[trigger] orders[j]).order_id.0@ == orders[k].order_id.0@
}

/// Running totals of a scan: buy cash and sold quantity per slot.
pub type Totals = (int, Seq<int>);

/// Scan state: `None` overflow, `Some(None)` rejected, `Some(Some(t))` running totals.
pub type Scan = Option<Option<Totals>>;

pub open spec fn zero_slots(ms: Seq<BinaryMarketRisk>) -> Seq<int> {
    Seq::new(2 * ms.len(), |s: int| 0int)
}

/// Adds one fill-safe order's full reservation to the totals.
pub open spec fn add_reservation(ms: Seq<BinaryMarketRisk>, t: Totals, o: OrderExposure) -> Scan {
    if o.side == OrderSide::Buy {
        match full_buy_cost_spec(o) {
            None => None,
            Some(c) => match add_spec(t.0, c) {
                None => None,
                Some(b) => Some(Some((b, t.1))),
            },
        }
    } else {
        let s = slot_of(ms, o.token)->0;
        match add_spec(t.1[s], o.quantity_micros as int) {
            None => None,
            Some(v) => Some(Some((t.0, t.1.update(s, v)))),
        }
    }
}

/// The open orders `0..k`: each must be valid, fill-safe and uniquely identified;
/// their full reservations are totalled.
pub open spec fn open_scan(ms: Seq<BinaryMarketRisk>, orders: Seq<OrderExposure>, k: nat) -> Scan
    decreases k,
{
    if k == 0 {
        Some(Some((0, zero_slots(ms))))
    } else {
        match open_scan(ms, orders, (k - 1) as nat) {
            None => None,
            Some(None) => Some(None),
            Some(Some(t)) => {
                let o = orders[k - 1];
                if !order_valid(ms, o) {
                    Some(None)
                } else {
                    match fill_safe_spec(o) {
                        None => None,
                        Some(false) => Some(None),
                        Some(true) => if order_id_seen(orders, k - 1) {
                            Some(None)
                        } else {
                            add_reservation(ms, t, o)
                        },
                    }
                }
            },
        }
    }
}

/// The candidates `0..k` (positions `base..base + k` of `orders`): each must be fill-safe;
/// their full reservations are totalled.
pub open spec fn capacity_scan(ms: Seq<BinaryMarketRisk>, orders: Seq<OrderExposure>, base: int, k: nat) -> Scan
    decreases k,
{
    if k == 0 {
        Some(Some((0, zero_slots(ms))))
    } else {
        match capacity_scan(ms, orders, base, (k - 1) as nat) {
            None => None,
            Some(None) => Some(None),
            Some(Some(t)) => {
                let o = orders[base + k - 1];
                match fill_safe_spec(o) {
                    None => None,
                    Some(false) => Some(None),
                    Some(true) => add_reservation(ms, t, o),
                }
            },
        }
    }
}

/// Candidates are valid orders and no order id is reused by them.
pub open spec fn candidates_valid(req: RiskRequest) -> bool {
    let orders = scenario_orders(req);
    forall|k: int|
        req.open_orders@.len() <= k < orders.len() ==> order_valid(req.markets@, #[trigger] orders[k])
            && !order_id_seen(orders, k)
}

/// `2^n`.
pub open spec fn pow2(n: nat) -> nat
    decreases n,
{
    if n == 0 {
        1
    } else {
        2 * pow2((n - 1) as nat)
    }
}

/// Product of the numbers of fill options of the first `k` orders.
pub open spec fn fill_combos(orders: Seq<OrderExposure>, k: nat) -> nat
    decreases k,
{
    if k == 0 {
        1
    } else {
        fill_combos(orders, (k - 1) as nat) * options_spec(orders[k - 1]).len()
    }
}

/// Every combination of fills, market outcomes and shocks.
pub open spec fn scenario_count_spec(req: RiskRequest) -> nat {
    let orders = scenario_orders(req);
    fill_combos(orders, orders.len()) * pow2(req.markets@.len()) * req.shocks@.len()
}

/// How preparation ends.
#[derive(PartialEq, Eq)]
pub enum PrepOutcome {
    Overflow,
    Reject(DecisionReason),
    Ready,
}

/// Candidates' reservations fit within available cash and available tokens.
pub open spec fn capacity_ok(req: RiskRequest, t: Totals) -> bool {
    &&& t.0 <= req.ledger.cash_available_micros
    &&& forall|s: int|
        0 <= s < t.1.len() ==> t.1[s] <= balance_slots(req.markets@, req.ledger.available_tokens@)[s]
}

/// The outcome of preparing a request, check by check in order.
pub open spec fn prepare_spec(req: RiskRequest) -> PrepOutcome {
    let ms = req.markets@;
    let l = req.ledger;
    let orders = scenario_orders(req);
    if !frame_bounds_ok(req) || !markets_valid(ms) || !shocks_valid(ms, req.shocks@)
        || !balances_valid(ms, l.available_tokens@) || !balances_valid(ms, l.reserved_tokens@)
        || !balances_valid(ms, l.locked_tokens@) || l.cash_available_micros < 0
        || l.cash_reserved_micros < 0 {
        PrepOutcome::Reject(DecisionReason::InvalidFrame)
    } else {
        match open_scan(ms, req.open_orders@, req.open_orders@.len()) {
            None => PrepOutcome::Overflow,
            Some(None) => PrepOutcome::Reject(DecisionReason::InvalidFrame),
            Some(Some(t)) => if t.0 != l.cash_reserved_micros || t.1 != balance_slots(ms, l.reserved_tokens@) {
                PrepOutcome::Reject(DecisionReason::ReservationMismatch)
            } else if !candidates_valid(req) {
                PrepOutcome::Reject(DecisionReason::InvalidFrame)
            } else {
                match capacity_scan(ms, orders, req.open_orders@.len() as int, (req.additional_candidates@.len() + 1) as nat) {
                    None => PrepOutcome::Overflow,
                    Some(None) => PrepOutcome::Reject(DecisionReason::CandidateCapacity),
                    Some(Some(c)) => if !capacity_ok(req, c) {
                        PrepOutcome::Reject(DecisionReason::CandidateCapacity)
                    } else if scenario_count_spec(req) > req.limits.max_scenarios
                        || scenario_count_spec(req) > HARD_MAX_SCENARIOS {
                        PrepOutcome::Reject(DecisionReason::ScenarioBudget)
                    } else {
                        PrepOutcome::Ready
                    },
                }
            },
        }
    }
}

/// Cash and token holdings; tokens are laid out by slot.
#[derive(Clone, Debug, PartialEq, Eq)]
pub struct Holdings {
    pub available_cash: i128,
    pub reserved_cash: i128,
    pub available: Vec<i128>,
    pub reserved: Vec<i128>,
    pub locked: Vec<i128>,
}

/// Holdings as integers.
pub struct HoldingsView {
    pub available_cash: int,
    pub reserved_cash: int,
    pub available: Seq<int>,
    pub reserved: Seq<int>,
    pub locked: Seq<int>,
}

impl View for Holdings {
    type V = HoldingsView;

    open spec fn view(&self) -> HoldingsView {
        HoldingsView {
            available_cash: self.available_cash as int,
            reserved_cash: self.reserved_cash as int,
            available: ints(self.available@),
            reserved: ints(self.reserved@),
            locked: ints(self.locked@),
        }
    }
}

/// The holdings a prepared request starts every scenario from.
pub open spec fn initial_holdings(ms: Seq<BinaryMarketRisk>, l: LedgerRiskView) -> HoldingsView {
    HoldingsView {
        available_cash: l.cash_available_micros as int,
        reserved_cash: l.cash_reserved_micros as int,
        available: balance_slots(ms, l.available_tokens@),
        reserved: balance_slots(ms, l.reserved_tokens@),
        locked: balance_slots(ms, l.locked_tokens@),
    }
}

/// What a ready request carries into scenario enumeration.
pub struct Prepared {
    pub slots: Vec<usize>,
    pub fill_options: Vec<Vec<i128>>,
    pub fill_combinations: u64,
    pub outcome_combinations: u64,
    pub scenario_count: u64,
    pub holdings: Holdings,
}

/// `prepared` describes `req`: order slots and fill options in scenario order,
/// the combination counts and the initial holdings.
pub open spec fn prepared_for(p: Prepared, req: RiskRequest) -> bool {
    let orders = scenario_orders(req);
    &&& p.slots@.len() == orders.len()
    &&& p.fill_options@.len() == orders.len()
    &&& forall|k: int| 0 <= k < orders.len() ==> slot_of(req.markets@, (#[trigger] orders[k]).token) == Some(p.slots@[k] as int)
    &&& forall|k: int| 0 <= k < orders.len() ==> (#[trigger] p.fill_options@[k])@ == options_spec(orders[k])
    &&& forall|k: int| 0 <= k < orders.len() ==> order_valid(req.markets@, #[trigger] orders[k])
    &&& p.fill_combinations == fill_combos(orders, orders.len())
    &&& p.outcome_combinations == pow2(req.markets@.len())
    &&& p.scenario_count == scenario_count_spec(req)
    &&& p.holdings@ == initial_holdings(req.markets@, req.ledger)
    &&& p.holdings.available@.len() == 2 * req.markets@.len()
    &&& p.holdings.reserved@.len() == 2 * req.markets@.len()
    &&& p.holdings.locked@.len() == 2 * req.markets@.len()
}

/// The order at position `k` of the scenario order.
pub fn scenario_order(req: &RiskRequest, k: usize) -> (r: &OrderExposure)
    requires
        k < scenario_orders(*req).len(),
    ensures
        *r == scenario_orders(*req)[k as int],
{
    let n = req.open_orders.len();
    if k < n {
        &req.open_orders[k]
    } else if k == n {
        &req.candidate
    } else {
        &req.additional_candidates[k - n - 1]
    }
}

/// The slot of a valid order, or `None` when the order is invalid.
pub fn valid_order(markets: &Vec<BinaryMarketRisk>, o: &OrderExposure) -> (r: Option<usize>)
    requires
        markets@.len() <= HARD_MAX_MARKETS,
    ensures
        r is Some == order_valid(markets@, *o),
        r matches Some(s) ==> slot_of(markets@, o.token) == Some(s as int) && s < 2 * markets@.len(),
{
    let slot = find_slot(markets, &o.token);
    match slot {
        Some(s) => if o.quantity_micros > 0 && o.partial_fill_micros >= 0 && o.partial_fill_micros
            < o.quantity_micros && 0 <= o.limit_price_micros && o.limit_price_micros <= 1_000_000
            && o.max_fee_micros >= 0 {
            Some(s)
        } else {
            None
        },
        None => None,
    }
}

/// Whether order `k` of the scenario order reuses an earlier id.
fn id_seen(req: &RiskRequest, k: usize) -> (r: bool)
    requires
        k < scenario_orders(*req).len(),
    ensures
        r == order_id_seen(scenario_orders(*req), k as int),
{
    let id = &scenario_order(req, k).order_id.0;
    let mut j: usize = 0;
    while j < k
        invariant
            j <= k < scenario_orders(*req).len(),
            *id == scenario_orders(*req)[k as int].order_id.0,
            forall|x: int| 0 <= x < j ==> (#[trigger] scenario_orders(*req)[x]).order_id.0@ != id@,
        decreases k - j,
    {
        if digest_eq(&scenario_order(req, j).order_id.0, id) {
            return true;
        }
        j = j + 1;
    }
    false
}

/// Adds one order's full reservation to the running totals.
fn reserve(o: &OrderExposure, slot: usize, buy: &mut i128, sell: &mut Vec<i128>) -> (r: Result<(), Error>)
    requires
        slot < old(sell)@.len(),
    ensures
        match add_reservation_view(*o, slot as int, (*old(buy) as int, ints(old(sell)@))) {
            None => r is Err && r == Err::<(), Error>(Error::Overflow),
            Some(t) => r is Ok && t == (*final(buy) as int, ints(final(sell)@)),
        },
        final(sell)@.len() == old(sell)@.len(),
{
    match o.side {
        OrderSide::Buy => {
            let cost = match full_buy_cost(o) {
                Ok(c) => c,
                Err(e) => {
                    return Err(e);
                },
            };
            *buy = match add_checked(*buy, cost) {
                Ok(v) => v,
                Err(e) => {
                    return Err(e);
                },
            };
        },
        OrderSide::Sell => {
            let v = match add_checked(sell[slot], o.quantity_micros) {
                Ok(v) => v,
                Err(e) => {
                    return Err(e);
                },
            };
            sell.set(slot, v);
            assert(ints(sell@) =~= ints(old(sell)@).update(slot as int, v as int));
        },
    }
    Ok(())
}

/// `add_reservation` with the slot already resolved.
pub open spec fn add_reservation_view(o: OrderExposure, s: int, t: Totals) -> Option<Totals> {
    if o.side == OrderSide::Buy {
        match full_buy_cost_spec(o) {
            None => None,
            Some(c) => match add_spec(t.0, c) {
                None => None,
                Some(b) => Some((b, t.1)),
            },
        }
    } else {
        match add_spec(t.1[s], o.quantity_micros as int) {
            None => None,
            Some(v) => Some((t.0, t.1.update(s, v))),
        }
    }
}

/// A scan that failed or was rejected stays so.
proof fn lemma_open_scan_absorbing(ms: Seq<BinaryMarketRisk>, orders: Seq<OrderExposure>, k: nat, n: nat)
    requires
        k <= n,
        open_scan(ms, orders, k) matches Some(Some(_)) ==> false,
    ensures
        open_scan(ms, orders, n) == open_scan(ms, orders, k),
    decreases n - k,
{
    if k < n {
        lemma_open_scan_absorbing(ms, orders, k, (n - 1) as nat);
    }
}

proof fn lemma_capacity_scan_absorbing(ms: Seq<BinaryMarketRisk>, orders: Seq<OrderExposure>, base: int, k: nat, n: nat)
    requires
        k <= n,
        capacity_scan(ms, orders, base, k) matches Some(Some(_)) ==> false,
    ensures
        capacity_scan(ms, orders, base, n) == capacity_scan(ms, orders, base, k),
    decreases n - k,
{
    if k < n {
        lemma_capacity_scan_absorbing(ms, orders, base, k, (n - 1) as nat);
    }
}

proof fn lemma_add_reservation(ms: Seq<BinaryMarketRisk>, t: Totals, o: OrderExposure, s: int)
    requires
        slot_of(ms, o.token) == Some(s),
    ensures
        add_reservation(ms, t, o) == match add_reservation_view(o, s, t) {
            None => None,
            Some(x) => Some(Some(x)),
        },
{
}

proof fn lemma_fill_combos_bound(orders: Seq<OrderExposure>, k: nat)
    requires
        k <= orders.len(),
    ensures
        1 <= fill_combos(orders, k) <= pow3(k),
    decreases k,
{
    if k > 0 {
        lemma_fill_combos_bound(orders, (k - 1) as nat);
        let a = fill_combos(orders, (k - 1) as nat);
        let b = options_spec(orders[k - 1]).len();
        assert(2 <= b <= 3);
        assert(a * b <= pow3((k - 1) as nat) * 3) by (nonlinear_arith)
            requires
                1 <= a <= pow3((k - 1) as nat),
                2 <= b <= 3,
        ;
        assert(1 <= a * b) by (nonlinear_arith)
            requires
                1 <= a,
                2 <= b,
        ;
    }
}

/// `3^n`.
pub open spec fn pow3(n: nat) -> nat
    decreases n,
{
    if n == 0 {
        1
    } else {
        3 * pow3((n - 1) as nat)
    }
}

proof fn lemma_pow_mono(a: nat, b: nat)
    requires
        a <= b,
    ensures
        pow3(a) <= pow3(b),
        pow2(a) <= pow2(b),
    decreases b,
{
    if a < b {
        lemma_pow_mono(a, (b - 1) as nat);
    }
}

proof fn lemma_pow_values()
    ensures
        pow3(12) == 531441,
        pow2(12) == 4096,
{
    reveal_with_fuel(pow3, 13);
    reveal_with_fuel(pow2, 13);
}

/// Scans the open orders: validity, fill safety, unique ids and reservation totals.
#[verifier::rlimit(40)]
fn scan_open_orders(req: &RiskRequest, slots: &mut Vec<usize>, fill_options: &mut Vec<Vec<i128>>) -> (r: Result<Option<(i128, Vec<i128>)>, Error>)
    requires
        req.markets@.len() <= HARD_MAX_MARKETS,
        scenario_orders(*req).len() <= HARD_MAX_ORDERS,
        old(slots)@.len() == 0,
        old(fill_options)@.len() == 0,
    ensures
        match r {
            Err(e) => open_scan(req.markets@, req.open_orders@, req.open_orders@.len()) is None && e == Error::Overflow,
            Ok(None) => open_scan(req.markets@, req.open_orders@, req.open_orders@.len()) == Some(None::<Totals>),
            Ok(Some((b, v))) => open_scan(req.markets@, req.open_orders@, req.open_orders@.len()) == Some(Some((b as int, ints(v@))))
                && v@.len() == 2 * req.markets@.len(),
        },
        r matches Ok(Some(_)) ==> {
            &&& final(slots)@.len() == req.open_orders@.len()
            &&& final(fill_options)@.len() == req.open_orders@.len()
            &&& forall|k: int| 0 <= k < req.open_orders@.len() ==> slot_of(req.markets@, (#[trigger] scenario_orders(*req)[k]).token) == Some(final(slots)@[k] as int)
            &&& forall|k: int| 0 <= k < req.open_orders@.len() ==> (#[trigger] final(fill_options)@[k])@ == options_spec(scenario_orders(*req)[k])
            &&& forall|k: int| 0 <= k < req.open_orders@.len() ==> order_valid(req.markets@, #[trigger] scenario_orders(*req)[k])
        },
{
    let ghost ms = req.markets@;
    let ghost orders = scenario_orders(*req);
    let nslots = 2 * req.markets.len();
    let mut buy: i128 = 0;
    let mut sell: Vec<i128> = Vec::new();
    while sell.len() < nslots
        invariant
            sell@.len() <= nslots,
            forall|k: int| 0 <= k < sell@.len() ==> sell@[k] == 0,
        decreases nslots - sell@.len(),
    {
        sell.push(0);
    }
    assert(ints(sell@) =~= zero_slots(ms));
    let n_open = req.open_orders.len();
    let mut i: usize = 0;
    while i < n_open
        invariant
            i <= n_open == req.open_orders@.len(),
            ms == req.markets@,
            orders == scenario_orders(*req),
            orders.len() <= HARD_MAX_ORDERS,
            ms.len() <= HARD_MAX_MARKETS,
            nslots == 2 * ms.len(),
            sell@.len() == nslots,
            open_scan(ms, req.open_orders@, i as nat) == Some(Some((buy as int, ints(sell@)))),
            slots@.len() == i,
            fill_options@.len() == i,
            forall|k: int| 0 <= k < i ==> slot_of(ms, (#[trigger] orders[k]).token) == Some(slots@[k] as int),
            forall|k: int| 0 <= k < i ==> (#[trigger] fill_options@[k])@ == options_spec(orders[k]),
            forall|k: int| 0 <= k < i ==> order_valid(ms, #[trigger] orders[k]),
        decreases n_open - i,
    {
        let o = &req.open_orders[i];
        assert(*o == orders[i as int]);
        let slot = match valid_order(&req.markets, o) {
            Some(s) => s,
            None => {
                proof { lemma_open_scan_absorbing(ms, req.open_orders@, (i + 1) as nat, n_open as nat); }
                return Ok(None);
            },
        };
        match order_fill_safe(o) {
            Err(e) => {
                proof { lemma_open_scan_absorbing(ms, req.open_orders@, (i + 1) as nat, n_open as nat); }
                return Err(e);
            },
            Ok(false) => {
                proof { lemma_open_scan_absorbing(ms, req.open_orders@, (i + 1) as nat, n_open as nat); }
                return Ok(None);
            },
            Ok(true) => {},
        }
        if id_seen(req, i) {
            assert(order_id_seen(req.open_orders@, i as int)) by {
                let j = choose|j: int| 0 <= j < i && (#[trigger] orders[j]).order_id.0@ == orders[i as int].order_id.0@;
                assert(req.open_orders@[j] == orders[j]);
            }
            proof { lemma_open_scan_absorbing(ms, req.open_orders@, (i + 1) as nat, n_open as nat); }
            return Ok(None);
        }
        assert(!order_id_seen(req.open_orders@, i as int)) by {
            if order_id_seen(req.open_orders@, i as int) {
                let j = choose|j: int| 0 <= j < i && (#[trigger] req.open_orders@[j]).order_id.0@ == req.open_orders@[i as int].order_id.0@;
                assert(req.open_orders@[j] == orders[j]);
            }
        }
        proof { lemma_add_reservation(ms, (buy as int, ints(sell@)), *o, slot as int); }
        match reserve(o, slot, &mut buy, &mut sell) {
            Err(e) => {
                proof { lemma_open_scan_absorbing(ms, req.open_orders@, (i + 1) as nat, n_open as nat); }
                return Err(e);
            },
            Ok(()) => {},
        }
        slots.push(slot);
        fill_options.push(options(o));
        i = i + 1;
    }
    Ok(Some((buy, sell)))
}

/// Checks the candidates' validity and id uniqueness, recording their slots and fill options.
fn scan_candidates(req: &RiskRequest, slots: &mut Vec<usize>, fill_options: &mut Vec<Vec<i128>>) -> (r: bool)
    requires
        req.markets@.len() <= HARD_MAX_MARKETS,
        scenario_orders(*req).len() <= HARD_MAX_ORDERS,
        old(slots)@.len() == req.open_orders@.len(),
        old(fill_options)@.len() == req.open_orders@.len(),
        forall|k: int| 0 <= k < req.open_orders@.len() ==> slot_of(req.markets@, (#[trigger] scenario_orders(*req)[k]).token) == Some(old(slots)@[k] as int),
        forall|k: int| 0 <= k < req.open_orders@.len() ==> (#[trigger] old(fill_options)@[k])@ == options_spec(scenario_orders(*req)[k]),
        forall|k: int| 0 <= k < req.open_orders@.len() ==> order_valid(req.markets@, #[trigger] scenario_orders(*req)[k]),
    ensures
        r == candidates_valid(*req),
        r ==> {
            let orders = scenario_orders(*req);
            &&& final(slots)@.len() == orders.len()
            &&& final(fill_options)@.len() == orders.len()
            &&& forall|k: int| 0 <= k < orders.len() ==> slot_of(req.markets@, (#[trigger] orders[k]).token) == Some(final(slots)@[k] as int)
            &&& forall|k: int| 0 <= k < orders.len() ==> (#[trigger] final(fill_options)@[k])@ == options_spec(orders[k])
            &&& forall|k: int| 0 <= k < orders.len() ==> order_valid(req.markets@, #[trigger] orders[k])
        },
{
    let ghost ms = req.markets@;
    let ghost orders = scenario_orders(*req);
    let n_open = req.open_orders.len();
    let total = n_open + req.additional_candidates.len() + 1;
    let mut k: usize = n_open;
    while k < total
        invariant
            n_open <= k <= total == orders.len() <= HARD_MAX_ORDERS,
            n_open == req.open_orders@.len(),
            ms == req.markets@,
            ms.len() <= HARD_MAX_MARKETS,
            orders == scenario_orders(*req),
            slots@.len() == k,
            fill_options@.len() == k,
            forall|x: int| 0 <= x < k ==> slot_of(ms, (#[trigger] orders[x]).token) == Some(slots@[x] as int),
            forall|x: int| 0 <= x < k ==> (#[trigger] fill_options@[x])@ == options_spec(orders[x]),
            forall|x: int| 0 <= x < k ==> order_valid(ms, #[trigger] orders[x]),
            forall|x: int| n_open <= x < k ==> !order_id_seen(orders, x),
        decreases total - k,
    {
        let c = scenario_order(req, k);
        let slot = match valid_order(&req.markets, c) {
            Some(sl) => sl,
            None => {
                return false;
            },
        };
        if id_seen(req, k) {
            return false;
        }
        slots.push(slot);
        fill_options.push(options(c));
        k = k + 1;
    }
    true
}

/// Totals the candidates' reservations after checking their fill safety.
#[verifier::rlimit(40)]
fn scan_capacity(req: &RiskRequest, slots: &Vec<usize>) -> (r: Result<Option<(i128, Vec<i128>)>, Error>)
    requires
        req.markets@.len() <= HARD_MAX_MARKETS,
        scenario_orders(*req).len() <= HARD_MAX_ORDERS,
        slots@.len() == scenario_orders(*req).len(),
        forall|x: int| 0 <= x < scenario_orders(*req).len() ==> slot_of(req.markets@, (#[trigger] scenario_orders(*req)[x]).token) == Some(slots@[x] as int),
        forall|x: int| 0 <= x < scenario_orders(*req).len() ==> order_valid(req.markets@, #[trigger] scenario_orders(*req)[x]),
    ensures
        ({
            let sc = capacity_scan(req.markets@, scenario_orders(*req), req.open_orders@.len() as int, (req.additional_candidates@.len() + 1) as nat);
            match r {
                Err(e) => sc is None && e == Error::Overflow,
                Ok(None) => sc == Some(None::<Totals>),
                Ok(Some((b, v))) => sc == Some(Some((b as int, ints(v@)))) && v@.len() == 2 * req.markets@.len(),
            }
        }),
{
    let ghost ms = req.markets@;
    let ghost orders = scenario_orders(*req);
    let nslots = 2 * req.markets.len();
    let n_open = req.open_orders.len();
    let total = n_open + req.additional_candidates.len() + 1;
    let mut cbuy: i128 = 0;
    let mut csell: Vec<i128> = Vec::new();
    while csell.len() < nslots
        invariant
            csell@.len() <= nslots,
            forall|x: int| 0 <= x < csell@.len() ==> csell@[x] == 0,
        decreases nslots - csell@.len(),
    {
        csell.push(0);
    }
    assert(ints(csell@) =~= zero_slots(ms));
    let mut k: usize = n_open;
    while k < total
        invariant
            n_open <= k <= total == orders.len(),
            n_open == req.open_orders@.len(),
            ms == req.markets@,
            orders == scenario_orders(*req),
            slots@.len() == total,
            csell@.len() == nslots,
            nslots == 2 * ms.len(),
            forall|x: int| 0 <= x < total ==> slot_of(ms, (#[trigger] orders[x]).token) == Some(slots@[x] as int),
            forall|x: int| 0 <= x < total ==> order_valid(ms, #[trigger] orders[x]),
            capacity_scan(ms, orders, n_open as int, (k - n_open) as nat) == Some(Some((cbuy as int, ints(csell@)))),
        decreases total - k,
    {
        let c = scenario_order(req, k);
        assert(order_valid(ms, orders[k as int]));
        let ghost ncands = (total - n_open) as nat;
        match order_fill_safe(c) {
            Err(e) => {
                proof { lemma_capacity_scan_absorbing(ms, orders, n_open as int, (k + 1 - n_open) as nat, ncands); }
                return Err(e);
            },
            Ok(false) => {
                proof { lemma_capacity_scan_absorbing(ms, orders, n_open as int, (k + 1 - n_open) as nat, ncands); }
                return Ok(None);
            },
            Ok(true) => {},
        }
        let slot = slots[k];
        proof {
            lemma_slot_bound(ms, orders[k as int].token);
            lemma_add_reservation(ms, (cbuy as int, ints(csell@)), *c, slot as int);
        }
        match reserve(c, slot, &mut cbuy, &mut csell) {
            Err(e) => {
                proof { lemma_capacity_scan_absorbing(ms, orders, n_open as int, (k + 1 - n_open) as nat, ncands); }
                return Err(e);
            },
            Ok(()) => {},
        }
        k = k + 1;
    }
    Ok(Some((cbuy, csell)))
}

/// Whether two slot vectors are equal.
fn slots_equal(a: &Vec<i128>, b: &Vec<i128>) -> (r: bool)
    requires
        a@.len() == b@.len(),
    ensures
        r == (ints(a@) == ints(b@)),
{
    let mut s: usize = 0;
    while s < a.len()
        invariant
            s <= a@.len() == b@.len(),
            forall|x: int| 0 <= x < s ==> a@[x] == b@[x],
        decreases a@.len() - s,
    {
        if a[s] != b[s] {
            assert(ints(a@)[s as int] != ints(b@)[s as int]);
            return false;
        }
        s = s + 1;
    }
    assert(ints(a@) =~= ints(b@));
    true
}

/// Whether every entry of `a` is at most the entry of `b`.
fn slots_within(a: &Vec<i128>, b: &Vec<i128>) -> (r: bool)
    requires
        a@.len() == b@.len(),
    ensures
        r == forall|x: int| 0 <= x < a@.len() ==> ints(a@)[x] <= ints(b@)[x],
{
    let mut s: usize = 0;
    while s < a.len()
        invariant
            s <= a@.len() == b@.len(),
            forall|x: int| 0 <= x < s ==> a@[x] <= b@[x],
        decreases a@.len() - s,
    {
        if a[s] > b[s] {
            assert(ints(a@)[s as int] > ints(b@)[s as int]);
            return false;
        }
        s = s + 1;
    }
    true
}

/// The number of fill combinations, market outcomes and their product with the shocks.
fn count_scenarios(req: &RiskRequest, fill_options: &Vec<Vec<i128>>) -> (r: (u64, u64, u64))
    requires
        req.markets@.len() <= HARD_MAX_MARKETS,
        req.shocks@.len() <= HARD_MAX_SHOCKS,
        scenario_orders(*req).len() <= HARD_MAX_ORDERS,
        fill_options@.len() == scenario_orders(*req).len(),
        forall|x: int| 0 <= x < scenario_orders(*req).len() ==> (#[trigger] fill_options@[x])@ == options_spec(scenario_orders(*req)[x]),
    ensures
        r.0 == fill_combos(scenario_orders(*req), scenario_orders(*req).len()),
        r.1 == pow2(req.markets@.len()),
        r.2 == scenario_count_spec(*req),
{
    let ghost orders = scenario_orders(*req);
    let total = fill_options.len();
    let mut fill_combinations: u64 = 1;
    let mut k: usize = 0;
    proof { lemma_pow_values(); }
    while k < total
        invariant
            k <= total == orders.len() <= HARD_MAX_ORDERS,
            fill_options@.len() == total,
            orders == scenario_orders(*req),
            forall|x: int| 0 <= x < total ==> (#[trigger] fill_options@[x])@ == options_spec(orders[x]),
            fill_combinations == fill_combos(orders, k as nat),
            pow3(12) == 531441,
        decreases total - k,
    {
        proof {
            lemma_fill_combos_bound(orders, (k + 1) as nat);
            lemma_pow_mono((k + 1) as nat, 12);
        }
        fill_combinations = fill_combinations * fill_options[k].len() as u64;
        k = k + 1;
    }
    let mut outcome_combinations: u64 = 1;
    let mut m: usize = 0;
    while m < req.markets.len()
        invariant
            m <= req.markets@.len() <= HARD_MAX_MARKETS,
            outcome_combinations == pow2(m as nat),
            pow2(12) == 4096,
        decreases req.markets@.len() - m,
    {
        proof { lemma_pow_mono((m + 1) as nat, 12); }
        outcome_combinations = outcome_combinations * 2;
        m = m + 1;
    }
    proof {
        lemma_fill_combos_bound(orders, total as nat);
        lemma_pow_mono(total as nat, 12);
        lemma_pow_mono(req.markets@.len(), 12);
    }
    let shocks = req.shocks.len() as u64;
    assert(fill_combinations * outcome_combinations <= 531441 * 4096) by (nonlinear_arith)
        requires
            fill_combinations <= 531441,
            outcome_combinations <= 4096,
    ;
    assert(fill_combinations * outcome_combinations * shocks <= 531441 * 4096 * 32) by (nonlinear_arith)
        requires
            fill_combinations * outcome_combinations <= 531441 * 4096,
            shocks <= 32,
    ;
    (fill_combinations, outcome_combinations, fill_combinations * outcome_combinations * shocks)
}

/// Prepares a request for enumeration, or says why it cannot be.
#[verifier::rlimit(40)]
pub fn prepare(req: &RiskRequest) -> (r: Result<Result<Prepared, DecisionReason>, Error>)
    ensures
        match r {
            Err(e) => prepare_spec(*req) == PrepOutcome::Overflow && e == Error::Overflow,
            Ok(Err(reason)) => prepare_spec(*req) == PrepOutcome::Reject(reason),
            Ok(Ok(p)) => prepare_spec(*req) == PrepOutcome::Ready && prepared_for(p, *req),
        },
{
    let ghost ms = req.markets@;
    let l = &req.ledger;
    if !valid_limits(&req.limits) || req.evaluated_at_ns < 0 || req.markets.len() == 0
        || req.markets.len() > HARD_MAX_MARKETS || req.open_orders.len() > req.limits.max_open_orders
        || req.open_orders.len() > HARD_MAX_ORDERS
        || req.additional_candidates.len() >= HARD_MAX_CANDIDATES
        || req.open_orders.len() + req.additional_candidates.len() >= HARD_MAX_ORDERS
        || req.shocks.len() == 0 || req.shocks.len() > HARD_MAX_SHOCKS {
        return Ok(Err(DecisionReason::InvalidFrame));
    }
    assert(frame_bounds_ok(*req));
    if !check_markets(&req.markets) || !check_shocks(&req.markets, &req.shocks) {
        return Ok(Err(DecisionReason::InvalidFrame));
    }
    let available = match balances(&req.markets, &l.available_tokens) {
        Some(v) => v,
        None => {
            return Ok(Err(DecisionReason::InvalidFrame));
        },
    };
    let reserved = match balances(&req.markets, &l.reserved_tokens) {
        Some(v) => v,
        None => {
            return Ok(Err(DecisionReason::InvalidFrame));
        },
    };
    let locked = match balances(&req.markets, &l.locked_tokens) {
        Some(v) => v,
        None => {
            return Ok(Err(DecisionReason::InvalidFrame));
        },
    };
    if l.cash_available_micros < 0 || l.cash_reserved_micros < 0 {
        return Ok(Err(DecisionReason::InvalidFrame));
    }
    assert(ints(available@).len() == available@.len());
    assert(ints(reserved@).len() == reserved@.len());
    assert(ints(locked@).len() == locked@.len());
    let mut slots: Vec<usize> = Vec::new();
    let mut fill_options: Vec<Vec<i128>> = Vec::new();
    let (buy, sell) = match scan_open_orders(req, &mut slots, &mut fill_options) {
        Err(e) => {
            return Err(e);
        },
        Ok(None) => {
            return Ok(Err(DecisionReason::InvalidFrame));
        },
        Ok(Some(t)) => t,
    };
    if buy != l.cash_reserved_micros || !slots_equal(&sell, &reserved) {
        return Ok(Err(DecisionReason::ReservationMismatch));
    }
    if !scan_candidates(req, &mut slots, &mut fill_options) {
        return Ok(Err(DecisionReason::InvalidFrame));
    }
    let (cbuy, csell) = match scan_capacity(req, &slots) {
        Err(e) => {
            return Err(e);
        },
        Ok(None) => {
            return Ok(Err(DecisionReason::CandidateCapacity));
        },
        Ok(Some(t)) => t,
    };
    let within = slots_within(&csell, &available);
    if !(cbuy <= l.cash_available_micros && within) {
        assert(!capacity_ok(*req, (cbuy as int, ints(csell@)))) by {
            if cbuy <= l.cash_available_micros {
                let x = choose|x: int| 0 <= x < csell@.len() && !(ints(csell@)[x] <= ints(available@)[x]);
                assert(ints(csell@)[x] > balance_slots(ms, l.available_tokens@)[x]);
            }
        }
        return Ok(Err(DecisionReason::CandidateCapacity));
    }
    let (fill_combinations, outcome_combinations, scenario_count) = count_scenarios(req, &fill_options);
    if scenario_count > req.limits.max_scenarios || scenario_count > HARD_MAX_SCENARIOS {
        return Ok(Err(DecisionReason::ScenarioBudget));
    }
    let holdings = Holdings {
        available_cash: l.cash_available_micros,
        reserved_cash: l.cash_reserved_micros,
        available,
        reserved,
        locked,
    };
    Ok(Ok(Prepared { slots, fill_options, fill_combinations, outcome_combinations, scenario_count, holdings }))
}

proof fn lemma_slot_bound(ms: Seq<BinaryMarketRisk>, t: super::types::TokenKey)
    ensures
        slot_of(ms, t) matches Some(s) ==> 0 <= s < 2 * ms.len(),
{
    super::frame::lemma_slot_range(ms, t, 0);
}

} // verus!
