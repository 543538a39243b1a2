//! Scenario enumeration: fills, holdings, terminal wealth and exposure.

use vstd::prelude::*;
use super::arith::{add_checked, add_spec, arith_result, buy_cost, buy_cost_spec, haircut, haircut_spec, partial_fee, partial_fee_spec, res_view, sale_proceeds, sale_proceeds_spec, sub_checked, sub_spec};
use super::frame::{ints, options_spec, order_valid, slot_of, HARD_MAX_MARKETS, HARD_MAX_ORDERS};
use super::prepare::{initial_holdings, pow2, prepared_for, scenario_orders, Holdings, HoldingsView, Prepared};
use super::types::{BinaryMarketRisk, Error, GroupMultiplier, OrderExposure, OrderSide, RiskLimits, RiskRequest, ShockProfile};

verus! {

/// The fills of scenario `index`: its mixed-radix digits over the option lists,
/// least significant first.
pub open spec fn decode_fills_spec(index: nat, opts: Seq<Seq<i128>>) -> Seq<i128>
    decreases opts.len(),
{
    if opts.len() == 0 || opts[0].len() == 0 {
        Seq::empty()
    } else {
        seq![opts[0][(index % opts[0].len()) as int]] + decode_fills_spec(index / opts[0].len(), opts.drop_first())
    }
}

/// The option lists of a prepared request.
pub open spec fn option_lists(req: RiskRequest) -> Seq<Seq<i128>> {
    scenario_orders(req).map_values(|o: OrderExposure| options_spec(o))
}

pub fn decode_fills(index: u64, options: &Vec<Vec<i128>>) -> (r: Vec<i128>)
    requires
        forall|k: int| 0 <= k < options@.len() ==> (#[trigger] options@[k])@.len() > 0,
    ensures
        r@ == decode_fills_spec(index as nat, options@.map_values(|v: Vec<i128>| v@)),
        r@.len() == options@.len(),
{
    let ghost all = options@.map_values(|v: Vec<i128>| v@);
    let mut result: Vec<i128> = Vec::new();
    let mut idx = index;
    let mut i: usize = 0;
    assert(all.skip(0) =~= all);
    assert(result@ + decode_fills_spec(idx as nat, all) =~= decode_fills_spec(idx as nat, all));
    while i < options.len()
        invariant
            i <= options@.len(),
            all == options@.map_values(|v: Vec<i128>| v@),
            forall|k: int| 0 <= k < options@.len() ==> (#[trigger] options@[k])@.len() > 0,
            result@.len() == i,
            result@ + decode_fills_spec(idx as nat, all.skip(i as int)) == decode_fills_spec(index as nat, all),
        decreases options@.len() - i,
    {
        let values = &options[i];
        let radix = values.len() as u64;
        let selected = (idx % radix) as usize;
        let ghost rest = all.skip(i as int);
        assert(rest[0] == values@);
        assert(rest.drop_first() =~= all.skip(i + 1));
        result.push(values[selected]);
        idx = idx / radix;
        i = i + 1;
    }
    assert(all.skip(options@.len() as int) =~= Seq::<Seq<i128>>::empty());
    assert(result@ + Seq::<i128>::empty() =~= result@);
    result
}

/// Outcome bits of `value`: bit `i` is 1 when market `i` resolves down.
pub open spec fn outcome_bits_spec(value: nat, count: nat) -> Seq<u8>
    decreases count,
{
    if count == 0 {
        Seq::empty()
    } else {
        seq![(value % 2) as u8] + outcome_bits_spec(value / 2, (count - 1) as nat)
    }
}

pub fn outcome_bits(value: u64, count: usize) -> (r: Vec<u8>)
    ensures
        r@ == outcome_bits_spec(value as nat, count as nat),
        r@.len() == count,
{
    let mut result: Vec<u8> = Vec::new();
    let mut v = value;
    let mut i: usize = 0;
    while i < count
        invariant
            i <= count,
            result@.len() == i,
            result@ + outcome_bits_spec(v as nat, (count - i) as nat) == outcome_bits_spec(value as nat, count as nat),
        decreases count - i,
    {
        let ghost before = result@;
        result.push((v % 2) as u8);
        assert(outcome_bits_spec(v as nat, (count - i) as nat) == seq![(v % 2) as u8] + outcome_bits_spec((v / 2) as nat, (count - i - 1) as nat));
        assert(before + outcome_bits_spec(v as nat, (count - i) as nat) =~= result@ + outcome_bits_spec((v / 2) as nat, (count - i - 1) as nat));
        v = v / 2;
        i = i + 1;
    }
    assert(result@ + outcome_bits_spec(v as nat, 0) =~= result@);
    result
}

/// Cash and token balances are never negative.
pub open spec fn holdings_nonneg(h: HoldingsView) -> bool {
    &&& h.available_cash >= 0
    &&& h.reserved_cash >= 0
    &&& forall|s: int| 0 <= s < h.available.len() ==> h.available[s] >= 0
    &&& forall|s: int| 0 <= s < h.reserved.len() ==> h.reserved[s] >= 0
    &&& forall|s: int| 0 <= s < h.locked.len() ==> h.locked[s] >= 0
}

/// Holdings with `slots` token slots in each bucket.
pub open spec fn holdings_shape(h: HoldingsView, slots: nat) -> bool {
    h.available.len() == slots && h.reserved.len() == slots && h.locked.len() == slots
}

/// Holdings after `order` fills `fill`; reserved orders pay from reserved cash or tokens.
pub open spec fn apply_fill_spec(h: HoldingsView, o: OrderExposure, slot: int, fill: int, reserved_source: bool) -> Option<HoldingsView> {
    if fill == 0 {
        Some(h)
    } else {
        match partial_fee_spec(o.max_fee_micros as int, fill, o.quantity_micros as int) {
            None => None,
            Some(fee) => if o.side == OrderSide::Buy {
                match buy_cost_spec(o.limit_price_micros as int, fill) {
                    None => None,
                    Some(c) => match add_spec(c, fee) {
                        None => None,
                        Some(cost) => {
                            let cash = if reserved_source {
                                h.reserved_cash
                            } else {
                                h.available_cash
                            };
                            match sub_spec(cash, cost) {
                                None => None,
                                Some(left) => if left < 0 {
                                    None
                                } else {
                                    match add_spec(h.available[slot], fill) {
                                        None => None,
                                        Some(bought) => if reserved_source {
                                            Some(HoldingsView { reserved_cash: left, available: h.available.update(slot, bought), ..h })
                                        } else {
                                            Some(HoldingsView { available_cash: left, available: h.available.update(slot, bought), ..h })
                                        },
                                    }
                                },
                            }
                        },
                    },
                }
            } else {
                let tokens = if reserved_source {
                    h.reserved
                } else {
                    h.available
                };
                match sub_spec(tokens[slot], fill) {
                    None => None,
                    Some(left) => if left < 0 {
                        None
                    } else {
                        match sale_proceeds_spec(o.limit_price_micros as int, fill) {
                            None => None,
                            Some(p) => match sub_spec(p, fee) {
                                None => None,
                                Some(net) => if net < 0 {
                                    None
                                } else {
                                    match add_spec(h.available_cash, net) {
                                        None => None,
                                        Some(cash) => if reserved_source {
                                            Some(HoldingsView { reserved: h.reserved.update(slot, left), available_cash: cash, ..h })
                                        } else {
                                            Some(HoldingsView { available: h.available.update(slot, left), available_cash: cash, ..h })
                                        },
                                    }
                                },
                            },
                        }
                    },
                }
            },
        }
    }
}

pub proof fn lemma_apply_fill_keeps_nonneg(h: HoldingsView, o: OrderExposure, slot: int, fill: int, reserved_source: bool, n: nat)
    requires
        holdings_nonneg(h),
        holdings_shape(h, n),
        0 <= slot < n,
        fill >= 0,
    ensures
        apply_fill_spec(h, o, slot, fill, reserved_source) matches Some(h2) ==> holdings_nonneg(h2) && holdings_shape(h2, n),
{
}

fn set_slot(v: &mut Vec<i128>, slot: usize, value: i128)
    requires
        slot < old(v)@.len(),
    ensures
        ints(final(v)@) == ints(old(v)@).update(slot as int, value as int),
        final(v)@.len() == old(v)@.len(),
{
    v.set(slot, value);
    assert(ints(v@) =~= ints(old(v)@).update(slot as int, value as int));
}

/// Applies one scenario fill to the holdings.
#[verifier::rlimit(40)]
pub fn apply_fill(h: &mut Holdings, o: &OrderExposure, slot: usize, fill: i128, reserved_source: bool) -> (r: Result<(), Error>)
    requires
        o.quantity_micros > 0,
        slot < old(h).available@.len(),
        slot < old(h).reserved@.len(),
    ensures
        match apply_fill_spec(old(h)@, *o, slot as int, fill as int, reserved_source) {
            None => r == Err::<(), Error>(Error::Overflow),
            Some(h2) => r is Ok && final(h)@ == h2,
        },
        final(h).available@.len() == old(h).available@.len(),
        final(h).reserved@.len() == old(h).reserved@.len(),
        final(h).locked@.len() == old(h).locked@.len(),
{
    if fill == 0 {
        return Ok(());
    }
    let fee = match partial_fee(o.max_fee_micros, fill, o.quantity_micros) {
        Ok(v) => v,
        Err(e) => {
            return Err(e);
        },
    };
    match o.side {
        OrderSide::Buy => {
            let c = match buy_cost(o.limit_price_micros, fill) {
                Ok(v) => v,
                Err(e) => {
                    return Err(e);
                },
            };
            let cost = match add_checked(c, fee) {
                Ok(v) => v,
                Err(e) => {
                    return Err(e);
                },
            };
            let cash = if reserved_source {
                h.reserved_cash
            } else {
                h.available_cash
            };
            let left = match sub_checked(cash, cost) {
                Ok(v) => v,
                Err(e) => {
                    return Err(e);
                },
            };
            if left < 0 {
                return Err(Error::Overflow);
            }
            let bought = match add_checked(h.available[slot], fill) {
                Ok(v) => v,
                Err(e) => {
                    return Err(e);
                },
            };
            if reserved_source {
                h.reserved_cash = left;
            } else {
                h.available_cash = left;
            }
            set_slot(&mut h.available, slot, bought);
        },
        OrderSide::Sell => {
            let held = if reserved_source {
                h.reserved[slot]
            } else {
                h.available[slot]
            };
            let left = match sub_checked(held, fill) {
                Ok(v) => v,
                Err(e) => {
                    return Err(e);
                },
            };
            if left < 0 {
                return Err(Error::Overflow);
            }
            let p = match sale_proceeds(o.limit_price_micros, fill) {
                Ok(v) => v,
                Err(e) => {
                    return Err(e);
                },
            };
            let net = match sub_checked(p, fee) {
                Ok(v) => v,
                Err(e) => {
                    return Err(e);
                },
            };
            if net < 0 {
                return Err(Error::Overflow);
            }
            let cash = match add_checked(h.available_cash, net) {
                Ok(v) => v,
                Err(e) => {
                    return Err(e);
                },
            };
            if reserved_source {
                set_slot(&mut h.reserved, slot, left);
            } else {
                set_slot(&mut h.available, slot, left);
            }
            h.available_cash = cash;
        },
    }
    Ok(())
}

/// The slot of every scenario order.
pub open spec fn slot_list(req: RiskRequest) -> Seq<int> {
    scenario_orders(req).map_values(|o: OrderExposure| slot_of(req.markets@, o.token)->0)
}

/// Holdings after the first `k` orders fill `fills[0..k]`, open orders from reserves.
pub open spec fn fills_apply(req: RiskRequest, h0: HoldingsView, fills: Seq<i128>, k: nat) -> Option<HoldingsView>
    decreases k,
{
    if k == 0 {
        Some(h0)
    } else {
        match fills_apply(req, h0, fills, (k - 1) as nat) {
            None => None,
            Some(h) => apply_fill_spec(
                h,
                scenario_orders(req)[k - 1],
                slot_list(req)[k - 1],
                fills[k - 1] as int,
                k - 1 < req.open_orders@.len(),
            ),
        }
    }
}

/// Holdings of the scenario whose orders fill `fills`.
pub open spec fn holdings_for(req: RiskRequest, fills: Seq<i128>) -> Option<HoldingsView> {
    fills_apply(req, initial_holdings(req.markets@, req.ledger), fills, scenario_orders(req).len())
}

fn copy_ints(v: &Vec<i128>) -> (r: Vec<i128>)
    ensures
        r@ == v@,
{
    let mut r: Vec<i128> = Vec::new();
    let mut i: usize = 0;
    while i < v.len()
        invariant
            i <= v@.len(),
            r@ == v@.take(i as int),
        decreases v@.len() - i,
    {
        r.push(v[i]);
        assert(v@.take(i + 1) =~= v@.take(i as int).push(v@[i as int]));
        i = i + 1;
    }
    assert(v@.take(v@.len() as int) =~= v@);
    r
}

pub fn copy_holdings(h: &Holdings) -> (r: Holdings)
    ensures
        r@ == h@,
        r.available@ == h.available@,
        r.reserved@ == h.reserved@,
        r.locked@ == h.locked@,
{
    Holdings {
        available_cash: h.available_cash,
        reserved_cash: h.reserved_cash,
        available: copy_ints(&h.available),
        reserved: copy_ints(&h.reserved),
        locked: copy_ints(&h.locked),
    }
}

pub proof fn lemma_initial_holdings(req: RiskRequest, p: Prepared)
    requires
        prepared_for(p, req),
        req.ledger.cash_available_micros >= 0,
        req.ledger.cash_reserved_micros >= 0,
        super::frame::balances_valid(req.markets@, req.ledger.available_tokens@),
        super::frame::balances_valid(req.markets@, req.ledger.reserved_tokens@),
        super::frame::balances_valid(req.markets@, req.ledger.locked_tokens@),
    ensures
        holdings_nonneg(p.holdings@),
        holdings_shape(p.holdings@, 2 * req.markets@.len()),
{
    let ms = req.markets@;
    let l = req.ledger;
    assert forall|s: int| 0 <= s < 2 * ms.len() implies super::frame::amount_at(ms, l.available_tokens@, s) >= 0 by {
        lemma_amount_nonneg(ms, l.available_tokens@, s);
    }
    assert forall|s: int| 0 <= s < 2 * ms.len() implies super::frame::amount_at(ms, l.reserved_tokens@, s) >= 0 by {
        lemma_amount_nonneg(ms, l.reserved_tokens@, s);
    }
    assert forall|s: int| 0 <= s < 2 * ms.len() implies super::frame::amount_at(ms, l.locked_tokens@, s) >= 0 by {
        lemma_amount_nonneg(ms, l.locked_tokens@, s);
    }
}

proof fn lemma_amount_nonneg(ms: Seq<BinaryMarketRisk>, vs: Seq<super::types::ConfirmedTokenBalance>, s: int)
    requires
        forall|i: int| 0 <= i < vs.len() ==> (#[trigger] vs[i]).balance_micros > 0,
    ensures
        super::frame::amount_at(ms, vs, s) >= 0,
    decreases vs.len(),
{
    if vs.len() > 0 {
        assert(vs.last() == vs[vs.len() - 1]);
        lemma_amount_nonneg(ms, vs.drop_last(), s);
    }
}

/// The holdings of the scenario whose orders fill `fills`.
pub fn holdings_after(req: &RiskRequest, p: &Prepared, fills: &Vec<i128>) -> (r: Result<Holdings, Error>)
    requires
        prepared_for(*p, *req),
        fills@.len() == scenario_orders(*req).len(),
        req.markets@.len() <= HARD_MAX_MARKETS,
    ensures
        match holdings_for(*req, fills@) {
            None => r == Err::<Holdings, Error>(Error::Overflow),
            Some(h) => r matches Ok(x) && x@ == h && x.available@.len() == 2 * req.markets@.len()
                && x.reserved@.len() == 2 * req.markets@.len() && x.locked@.len() == 2 * req.markets@.len(),
        },
{
    let ghost orders = scenario_orders(*req);
    let mut h = copy_holdings(&p.holdings);
    let n = fills.len();
    let n_open = req.open_orders.len();
    let mut k: usize = 0;
    while k < n
        invariant
            k <= n == orders.len() == fills@.len(),
            orders == scenario_orders(*req),
            n_open == req.open_orders@.len(),
            prepared_for(*p, *req),
            req.markets@.len() <= HARD_MAX_MARKETS,
            h.available@.len() == 2 * req.markets@.len(),
            h.reserved@.len() == 2 * req.markets@.len(),
            h.locked@.len() == 2 * req.markets@.len(),
            fills_apply(*req, initial_holdings(req.markets@, req.ledger), fills@, k as nat) == Some(h@),
        decreases n - k,
    {
        let o = super::prepare::scenario_order(req, k);
        let slot = p.slots[k];
        proof {
            assert(order_valid(req.markets@, orders[k as int]));
            super::frame::lemma_slot_range(req.markets@, orders[k as int].token, 0);
            assert(slot_list(*req)[k as int] == slot as int);
        }
        match apply_fill(&mut h, o, slot, fills[k], k < n_open) {
            Ok(()) => {},
            Err(e) => {
                proof { lemma_fills_absorbing(*req, initial_holdings(req.markets@, req.ledger), fills@, (k + 1) as nat, n as nat); }
                return Err(e);
            },
        }
        k = k + 1;
    }
    Ok(h)
}

proof fn lemma_fills_absorbing(req: RiskRequest, h0: HoldingsView, fills: Seq<i128>, k: nat, n: nat)
    requires
        k <= n,
        fills_apply(req, h0, fills, k) is None,
    ensures
        fills_apply(req, h0, fills, n) is None,
    decreases n - k,
{
    if k < n {
        lemma_fills_absorbing(req, h0, fills, k, (n - 1) as nat);
    }
}

/// The multiplier a shock applies to `group`: its listed value, else 100%.
pub open spec fn shock_multiplier_spec(es: Seq<GroupMultiplier>, group: String) -> int
    decreases es.len(),
{
    if es.len() == 0 {
        10_000
    } else if es[0].shock_group@ == group@ {
        es[0].multiplier_bps as int
    } else {
        shock_multiplier_spec(es.drop_first(), group)
    }
}

pub fn shock_multiplier(shock: &ShockProfile, group: &String) -> (r: u16)
    ensures
        r as int == shock_multiplier_spec(shock.group_multipliers@, *group),
{
    let es = &shock.group_multipliers;
    let mut i: usize = 0;
    assert(es@.skip(0) =~= es@);
    while i < es.len()
        invariant
            i <= es@.len(),
            es@ == shock.group_multipliers@,
            shock_multiplier_spec(es@, *group) == shock_multiplier_spec(es@.skip(i as int), *group),
        decreases es@.len() - i,
    {
        assert(es@.skip(i as int).drop_first() =~= es@.skip(i + 1));
        assert(es@.skip(i as int)[0] == es@[i as int]);
        if es[i].shock_group == *group {
            assert(es@.skip(i as int).len() > 0);
            assert(shock_multiplier_spec(es@.skip(i as int), *group) == es@[i as int].multiplier_bps as int);
            return es[i].multiplier_bps;
        }
        i = i + 1;
    }
    10_000
}

/// The haircut value of `quantity` tokens in one bucket under a shock multiplier.
pub open spec fn bucket_value(quantity: int, base_bps: int, multiplier: int) -> Option<int> {
    match haircut_spec(quantity, base_bps) {
        None => None,
        Some(a) => haircut_spec(a, multiplier),
    }
}

/// Adds the three winning-token buckets of one market to `w`.
pub open spec fn add_market_value(h: HoldingsView, req: RiskRequest, slot: int, multiplier: int, w: int) -> Option<int> {
    let l = req.limits;
    match bucket_value(h.available[slot], l.available_token_haircut_bps as int, multiplier) {
        None => None,
        Some(a) => match add_spec(w, a) {
            None => None,
            Some(w1) => match bucket_value(h.reserved[slot], l.reserved_token_haircut_bps as int, multiplier) {
                None => None,
                Some(b) => match add_spec(w1, b) {
                    None => None,
                    Some(w2) => match bucket_value(h.locked[slot], l.locked_token_haircut_bps as int, multiplier) {
                        None => None,
                        Some(c) => add_spec(w2, c),
                    },
                },
            },
        },
    }
}

/// The slot of the winning token of market `i` under `bits`.
pub open spec fn winner_slot(bits: Seq<u8>, i: int) -> int {
    if bits[i] == 0 {
        2 * i
    } else {
        2 * i + 1
    }
}

/// Cash plus haircut reserved cash plus the winning tokens of the first `k` markets.
pub open spec fn wealth_prefix(h: HoldingsView, req: RiskRequest, bits: Seq<u8>, shock: ShockProfile, k: nat) -> Option<int>
    decreases k,
{
    if k == 0 {
        match haircut_spec(h.reserved_cash, req.limits.reserved_cash_haircut_bps as int) {
            None => None,
            Some(r) => add_spec(h.available_cash, r),
        }
    } else {
        match wealth_prefix(h, req, bits, shock, (k - 1) as nat) {
            None => None,
            Some(w) => add_market_value(
                h,
                req,
                winner_slot(bits, k - 1),
                shock_multiplier_spec(shock.group_multipliers@, req.markets@[k - 1].shock_group),
                w,
            ),
        }
    }
}

/// Terminal wealth of holdings under an outcome and a shock, less both reserves.
pub open spec fn terminal_wealth_spec(h: HoldingsView, req: RiskRequest, bits: Seq<u8>, shock: ShockProfile) -> Option<int> {
    match wealth_prefix(h, req, bits, shock, req.markets@.len()) {
        None => None,
        Some(w) => match sub_spec(w, req.limits.operational_reserve_micros as int) {
            None => None,
            Some(x) => sub_spec(x, req.limits.pending_settlement_reserve_micros as int),
        },
    }
}

/// `req` with its operational and pending-settlement reserves replaced.
pub open spec fn with_reserves(req: RiskRequest, operational: i128, pending: i128) -> RiskRequest {
    RiskRequest {
        limits: RiskLimits { operational_reserve_micros: operational, pending_settlement_reserve_micros: pending, ..req.limits },
        ..req
    }
}

proof fn lemma_prefix_ignores_reserves(h: HoldingsView, req: RiskRequest, bits: Seq<u8>, shock: ShockProfile, k: nat, operational: i128, pending: i128)
    ensures
        wealth_prefix(h, with_reserves(req, operational, pending), bits, shock, k) == wealth_prefix(h, req, bits, shock, k),
    decreases k,
{
    if k > 0 {
        lemma_prefix_ignores_reserves(h, req, bits, shock, (k - 1) as nat, operational, pending);
    }
}

/// Both reserves come off every scenario's terminal wealth exactly: the
/// terminal wealth under reserves `operational` and `pending` is the wealth
/// with no reserve, less `operational`, less `pending` (`None` where a step
/// leaves the 128-bit range). So raising either reserve by `d` lowers every
/// scenario's terminal wealth by exactly `d`.
pub proof fn law_reserves_lower_terminal_wealth_exactly(
    h: HoldingsView,
    req: RiskRequest,
    bits: Seq<u8>,
    shock: ShockProfile,
    operational: i128,
    pending: i128,
)
    ensures
        terminal_wealth_spec(h, with_reserves(req, operational, pending), bits, shock) == match terminal_wealth_spec(
            h,
            with_reserves(req, 0, 0),
            bits,
            shock,
        ) {
            None => None,
            Some(w) => match sub_spec(w, operational as int) {
                None => None,
                Some(x) => sub_spec(x, pending as int),
            },
        },
{
    lemma_prefix_ignores_reserves(h, req, bits, shock, req.markets@.len(), operational, pending);
    lemma_prefix_ignores_reserves(h, req, bits, shock, req.markets@.len(), 0, 0);
}

proof fn lemma_wealth_absorbing(h: HoldingsView, req: RiskRequest, bits: Seq<u8>, shock: ShockProfile, k: nat, n: nat)
    requires
        k <= n,
        wealth_prefix(h, req, bits, shock, k) is None,
    ensures
        wealth_prefix(h, req, bits, shock, n) is None,
    decreases n - k,
{
    if k < n {
        lemma_wealth_absorbing(h, req, bits, shock, k, (n - 1) as nat);
    }
}

fn bucket(quantity: i128, base_bps: u16, multiplier: u16) -> (r: Result<i128, Error>)
    ensures
        arith_result(r, bucket_value(quantity as int, base_bps as int, multiplier as int)),
{
    match haircut(quantity, base_bps) {
        Ok(a) => haircut(a, multiplier),
        Err(e) => Err(e),
    }
}

fn add_market(h: &Holdings, req: &RiskRequest, slot: usize, multiplier: u16, w: i128) -> (r: Result<i128, Error>)
    requires
        slot < h.available@.len(),
        slot < h.reserved@.len(),
        slot < h.locked@.len(),
    ensures
        arith_result(r, add_market_value(h@, *req, slot as int, multiplier as int, w as int)),
{
    let l = &req.limits;
    let a = match bucket(h.available[slot], l.available_token_haircut_bps, multiplier) {
        Ok(v) => v,
        Err(e) => {
            return Err(e);
        },
    };
    let w1 = match add_checked(w, a) {
        Ok(v) => v,
        Err(e) => {
            return Err(e);
        },
    };
    let b = match bucket(h.reserved[slot], l.reserved_token_haircut_bps, multiplier) {
        Ok(v) => v,
        Err(e) => {
            return Err(e);
        },
    };
    let w2 = match add_checked(w1, b) {
        Ok(v) => v,
        Err(e) => {
            return Err(e);
        },
    };
    let c = match bucket(h.locked[slot], l.locked_token_haircut_bps, multiplier) {
        Ok(v) => v,
        Err(e) => {
            return Err(e);
        },
    };
    add_checked(w2, c)
}

/// Terminal wealth of the holdings when markets resolve by `outcomes` under `shock`.
pub fn terminal_wealth(h: &Holdings, req: &RiskRequest, outcomes: &Vec<u8>, shock: &ShockProfile) -> (r: Result<i128, Error>)
    requires
        outcomes@.len() == req.markets@.len(),
        h.available@.len() == 2 * req.markets@.len(),
        h.reserved@.len() == 2 * req.markets@.len(),
        h.locked@.len() == 2 * req.markets@.len(),
        req.markets@.len() <= HARD_MAX_MARKETS,
    ensures
        arith_result(r, terminal_wealth_spec(h@, *req, outcomes@, *shock)),
{
    let l = &req.limits;
    let reserved = match haircut(h.reserved_cash, l.reserved_cash_haircut_bps) {
        Ok(v) => v,
        Err(e) => {
            proof { lemma_wealth_absorbing(h@, *req, outcomes@, *shock, 0, req.markets@.len()); }
            return Err(e);
        },
    };
    let mut wealth = match add_checked(h.available_cash, reserved) {
        Ok(v) => v,
        Err(e) => {
            proof { lemma_wealth_absorbing(h@, *req, outcomes@, *shock, 0, req.markets@.len()); }
            return Err(e);
        },
    };
    let m = req.markets.len();
    let mut i: usize = 0;
    while i < m
        invariant
            i <= m == req.markets@.len() <= HARD_MAX_MARKETS,
            outcomes@.len() == m,
            h.available@.len() == 2 * m,
            h.reserved@.len() == 2 * m,
            h.locked@.len() == 2 * m,
            wealth_prefix(h@, *req, outcomes@, *shock, i as nat) == Some(wealth as int),
        decreases m - i,
    {
        let slot = if outcomes[i] == 0 {
            2 * i
        } else {
            2 * i + 1
        };
        let multiplier = shock_multiplier(shock, &req.markets[i].shock_group);
        let step = add_market(h, req, slot, multiplier, wealth);
        match step {
            Ok(v) => {
                wealth = v;
            },
            Err(e) => {
                proof { lemma_wealth_absorbing(h@, *req, outcomes@, *shock, (i + 1) as nat, m as nat); }
                return Err(e);
            },
        }
        i = i + 1;
    }
    match sub_checked(wealth, l.operational_reserve_micros) {
        Ok(x) => sub_checked(x, l.pending_settlement_reserve_micros),
        Err(e) => Err(e),
    }
}

/// The first market (at or before `i`) in the same shock group as market `i`.
pub open spec fn group_rep_from(ms: Seq<BinaryMarketRisk>, i: int, j: int) -> int
    decreases i - j,
{
    if j >= i {
        i
    } else if ms[j].shock_group@ == ms[i].shock_group@ {
        j
    } else {
        group_rep_from(ms, i, j + 1)
    }
}

pub open spec fn group_rep(ms: Seq<BinaryMarketRisk>, i: int) -> int {
    group_rep_from(ms, i, 0)
}

proof fn lemma_group_rep_range(ms: Seq<BinaryMarketRisk>, i: int, j: int)
    requires
        0 <= j <= i,
    ensures
        j <= group_rep_from(ms, i, j) <= i,
    decreases i - j,
{
    if j < i && ms[j].shock_group@ != ms[i].shock_group@ {
        lemma_group_rep_range(ms, i, j + 1);
    }
}

fn find_group_rep(markets: &Vec<BinaryMarketRisk>, i: usize) -> (r: usize)
    requires
        i < markets@.len(),
    ensures
        r as int == group_rep(markets@, i as int),
        r <= i,
{
    let mut j: usize = 0;
    proof { lemma_group_rep_range(markets@, i as int, 0); }
    while j < i
        invariant
            j <= i < markets@.len(),
            group_rep(markets@, i as int) == group_rep_from(markets@, i as int, j as int),
            j <= group_rep_from(markets@, i as int, j as int) <= i,
        decreases i - j,
    {
        if markets[j].shock_group == markets[i].shock_group {
            return j;
        }
        proof { lemma_group_rep_range(markets@, i as int, j + 1); }
        j = j + 1;
    }
    i
}

/// All holdings of one token slot: available plus reserved plus locked.
pub open spec fn token_total_spec(h: HoldingsView, slot: int) -> Option<int> {
    match add_spec(h.available[slot], h.reserved[slot]) {
        None => None,
        Some(x) => add_spec(x, h.locked[slot]),
    }
}

pub open spec fn abs_diff(a: int, b: int) -> int {
    if a >= b {
        a - b
    } else {
        b - a
    }
}

/// Running exposure after `k` markets: gross, largest directional, per-group directional sums.
pub open spec fn exposure_prefix(h: HoldingsView, ms: Seq<BinaryMarketRisk>, k: nat) -> Option<(int, int, Seq<int>)>
    decreases k,
{
    if k == 0 {
        Some((0, 0, Seq::new(ms.len(), |i: int| 0int)))
    } else {
        match exposure_prefix(h, ms, (k - 1) as nat) {
            None => None,
            Some((gross, cond, groups)) => {
                let i = k - 1;
                match (token_total_spec(h, 2 * i), token_total_spec(h, 2 * i + 1)) {
                    (Some(up), Some(down)) => match add_spec(gross, up) {
                        None => None,
                        Some(g1) => match add_spec(g1, down) {
                            None => None,
                            Some(g2) => {
                                let d = abs_diff(up, down);
                                let r = group_rep(ms, i);
                                match add_spec(groups[r], d) {
                                    None => None,
                                    Some(v) => Some((g2, if cond >= d { cond } else { d }, groups.update(r, v))),
                                }
                            },
                        },
                    },
                    _ => None,
                }
            },
        }
    }
}

/// The largest entry of a sequence, or zero when it is empty.
pub open spec fn seq_max(s: Seq<int>) -> int
    decreases s.len(),
{
    if s.len() == 0 {
        0
    } else {
        let m = seq_max(s.drop_last());
        if m >= s.last() {
            m
        } else {
            s.last()
        }
    }
}

/// Gross exposure, largest condition exposure and largest group exposure of holdings.
pub open spec fn exposure_spec(h: HoldingsView, ms: Seq<BinaryMarketRisk>) -> Option<(int, int, int)> {
    match exposure_prefix(h, ms, ms.len()) {
        None => None,
        Some((g, c, groups)) => Some((g, c, seq_max(groups))),
    }
}

proof fn lemma_exposure_absorbing(h: HoldingsView, ms: Seq<BinaryMarketRisk>, k: nat, n: nat)
    requires
        k <= n,
        exposure_prefix(h, ms, k) is None,
    ensures
        exposure_prefix(h, ms, n) is None,
    decreases n - k,
{
    if k < n {
        lemma_exposure_absorbing(h, ms, k, (n - 1) as nat);
    }
}

proof fn lemma_exposure_shape(h: HoldingsView, ms: Seq<BinaryMarketRisk>, k: nat)
    requires
        k <= ms.len(),
    ensures
        exposure_prefix(h, ms, k) matches Some((g, c, groups)) ==> groups.len() == ms.len() && c >= 0
            && forall|x: int| 0 <= x < groups.len() ==> groups[x] >= 0,
    decreases k,
{
    if k > 0 {
        lemma_exposure_shape(h, ms, (k - 1) as nat);
        lemma_group_rep_range(ms, k - 1, 0);
    }
}

fn token_total(h: &Holdings, slot: usize) -> (r: Result<i128, Error>)
    requires
        slot < h.available@.len(),
        slot < h.reserved@.len(),
        slot < h.locked@.len(),
    ensures
        arith_result(r, token_total_spec(h@, slot as int)),
{
    match add_checked(h.available[slot], h.reserved[slot]) {
        Ok(x) => add_checked(x, h.locked[slot]),
        Err(e) => Err(e),
    }
}

fn max_of(v: &Vec<i128>) -> (r: i128)
    requires
        forall|x: int| 0 <= x < v@.len() ==> v@[x] >= 0,
    ensures
        r as int == seq_max(ints(v@)),
{
    let mut best: i128 = 0;
    let mut i: usize = 0;
    while i < v.len()
        invariant
            i <= v@.len(),
            best as int == seq_max(ints(v@).take(i as int)),
        decreases v@.len() - i,
    {
        assert(ints(v@).take(i + 1).drop_last() =~= ints(v@).take(i as int));
        if v[i] > best {
            best = v[i];
        }
        i = i + 1;
    }
    assert(ints(v@).take(v@.len() as int) =~= ints(v@));
    best
}

/// Gross, largest condition and largest group exposure of non-negative holdings.
#[verifier::rlimit(40)]
pub fn exposure(h: &Holdings, req: &RiskRequest) -> (r: Result<(i128, i128, i128), Error>)
    requires
        holdings_nonneg(h@),
        h.available@.len() == 2 * req.markets@.len(),
        h.reserved@.len() == 2 * req.markets@.len(),
        h.locked@.len() == 2 * req.markets@.len(),
        req.markets@.len() <= HARD_MAX_MARKETS,
    ensures
        match exposure_spec(h@, req.markets@) {
            None => r == Err::<(i128, i128, i128), Error>(Error::Overflow),
            Some((g, c, gr)) => r matches Ok((a, b, x)) && a == g && b == c && x == gr,
        },
{
    let ghost ms = req.markets@;
    let m = req.markets.len();
    let mut gross: i128 = 0;
    let mut max_condition: i128 = 0;
    let mut groups: Vec<i128> = Vec::new();
    while groups.len() < m
        invariant
            groups@.len() <= m,
            forall|x: int| 0 <= x < groups@.len() ==> groups@[x] == 0,
        decreases m - groups@.len(),
    {
        groups.push(0);
    }
    assert(ints(groups@) =~= Seq::new(ms.len(), |i: int| 0int));
    let mut i: usize = 0;
    while i < m
        invariant
            i <= m == ms.len() <= HARD_MAX_MARKETS,
            ms == req.markets@,
            holdings_nonneg(h@),
            h.available@.len() == 2 * m,
            h.reserved@.len() == 2 * m,
            h.locked@.len() == 2 * m,
            groups@.len() == m,
            exposure_prefix(h@, ms, i as nat) == Some((gross as int, max_condition as int, ints(groups@))),
        decreases m - i,
    {
        proof { lemma_exposure_shape(h@, ms, i as nat); }
        let up = match token_total(h, 2 * i) {
            Ok(v) => v,
            Err(e) => {
                proof { lemma_exposure_absorbing(h@, ms, (i + 1) as nat, m as nat); }
                return Err(e);
            },
        };
        let down = match token_total(h, 2 * i + 1) {
            Ok(v) => v,
            Err(e) => {
                proof { lemma_exposure_absorbing(h@, ms, (i + 1) as nat, m as nat); }
                return Err(e);
            },
        };
        let g1 = match add_checked(gross, up) {
            Ok(v) => v,
            Err(e) => {
                proof { lemma_exposure_absorbing(h@, ms, (i + 1) as nat, m as nat); }
                return Err(e);
            },
        };
        gross = match add_checked(g1, down) {
            Ok(v) => v,
            Err(e) => {
                proof { lemma_exposure_absorbing(h@, ms, (i + 1) as nat, m as nat); }
                return Err(e);
            },
        };
        assert(up >= 0 && down >= 0);
        let directional = if up >= down {
            up - down
        } else {
            down - up
        };
        if directional > max_condition {
            max_condition = directional;
        }
        let r = find_group_rep(&req.markets, i);
        let v = match add_checked(groups[r], directional) {
            Ok(v) => v,
            Err(e) => {
                proof { lemma_exposure_absorbing(h@, ms, (i + 1) as nat, m as nat); }
                return Err(e);
            },
        };
        let ghost before = ints(groups@);
        groups.set(r, v);
        assert(ints(groups@) =~= before.update(r as int, v as int));
        i = i + 1;
    }
    proof {
        lemma_exposure_shape(h@, ms, m as nat);
        assert forall|x: int| 0 <= x < groups@.len() implies groups@[x] >= 0 by {
            assert(ints(groups@)[x] >= 0);
        }
    }
    let max_group = max_of(&groups);
    Ok((gross, max_condition, max_group))
}

} // verus!
