//! Validation of a risk request frame: markets, shocks, balances and orders.

use vstd::prelude::*;
use vstd::string::StringSliceAdditionalSpecFns;
use crate::digest::{bytes_less, bytes_lt, digest_eq, utf8_bytes};
use super::arith::{add_spec, arith_result, buy_cost, buy_cost_spec, partial_fee, partial_fee_spec, sale_proceeds, sale_proceeds_spec};
use super::types::{BinaryMarketRisk, ConfirmedTokenBalance, Error, GroupMultiplier, OrderExposure, OrderSide, ShockProfile, TokenKey};

verus! {

/// Longest identifier or label accepted, in UTF-8 bytes.
pub const MAX_TEXT_BYTES: usize = 512;
pub const HARD_MAX_ORDERS: usize = 12;
pub const HARD_MAX_CANDIDATES: usize = 2;
pub const HARD_MAX_MARKETS: usize = 12;
pub const HARD_MAX_SHOCKS: usize = 32;
pub const HARD_MAX_SCENARIOS: u64 = 1_000_000;

/// A non-empty label of at most `MAX_TEXT_BYTES` bytes.
pub open spec fn valid_text_spec(s: String) -> bool {
    s@.len() > 0 && (utf8_bytes(&s).len() as usize) <= MAX_TEXT_BYTES
}

pub fn valid_text(s: &String) -> (r: bool)
    ensures
        r == valid_text_spec(*s),
{
    let st = s.as_str();
    !st.is_empty() && st.len() <= MAX_TEXT_BYTES
}

/// Two tokens name the same condition and outcome.
pub open spec fn same_token(a: TokenKey, b: TokenKey) -> bool {
    a.condition_id@ == b.condition_id@ && a.token_id@ == b.token_id@
}

pub fn tokens_equal(a: &TokenKey, b: &TokenKey) -> (r: bool)
    ensures
        r == same_token(*a, *b),
{
    a.condition_id == b.condition_id && a.token_id == b.token_id
}

/// The order of token keys: by condition, then by token, each by bytes.
pub open spec fn token_lt(a: TokenKey, b: TokenKey) -> bool {
    bytes_lt(utf8_bytes(&a.condition_id), utf8_bytes(&b.condition_id)) || (utf8_bytes(&a.condition_id)
        == utf8_bytes(&b.condition_id) && bytes_lt(utf8_bytes(&a.token_id), utf8_bytes(&b.token_id)))
}

pub fn token_less(a: &TokenKey, b: &TokenKey) -> (r: bool)
    ensures
        r == token_lt(*a, *b),
{
    let ac = a.condition_id.as_str().as_bytes();
    let bc = b.condition_id.as_str().as_bytes();
    if bytes_less(ac, bc) {
        return true;
    }
    crate::digest::bytes_equal(ac, bc) && bytes_less(a.token_id.as_str().as_bytes(), b.token_id.as_str().as_bytes())
}

/// One market is well formed.
pub open spec fn market_ok(m: BinaryMarketRisk) -> bool {
    &&& valid_text_spec(m.condition_id)
    &&& valid_text_spec(m.shock_group)
    &&& valid_text_spec(m.up.token_id)
    &&& valid_text_spec(m.down.token_id)
    &&& !same_token(m.up, m.down)
    &&& m.up.condition_id@ == m.condition_id@
    &&& m.down.condition_id@ == m.condition_id@
}

/// Every market is well formed and no condition appears twice.
pub open spec fn markets_valid(ms: Seq<BinaryMarketRisk>) -> bool {
    &&& forall|i: int| 0 <= i < ms.len() ==> market_ok(#[trigger] ms[i])
    &&& forall|i: int, j: int|
        0 <= i < j < ms.len() ==> (#[trigger] ms[i]).condition_id@ != (#[trigger] ms[j]).condition_id@
}

pub fn check_markets(markets: &Vec<BinaryMarketRisk>) -> (r: bool)
    ensures
        r == markets_valid(markets@),
{
    let mut i: usize = 0;
    while i < markets.len()
        invariant
            i <= markets@.len(),
            markets_valid(markets@.take(i as int)),
        decreases markets@.len() - i,
    {
        let m = &markets[i];
        if !(valid_text(&m.condition_id) && valid_text(&m.shock_group) && valid_text(&m.up.token_id)
            && valid_text(&m.down.token_id) && !tokens_equal(&m.up, &m.down) && m.up.condition_id
            == m.condition_id && m.down.condition_id == m.condition_id) {
            assert(!market_ok(markets@[i as int]));
            return false;
        }
        let mut j: usize = 0;
        while j < i
            invariant
                j <= i < markets@.len(),
                forall|k: int| 0 <= k < j ==> markets@[k].condition_id@ != markets@[i as int].condition_id@,
            decreases i - j,
        {
            if markets[j].condition_id == markets[i].condition_id {
                return false;
            }
            j = j + 1;
        }
        assert(markets@.take(i + 1) =~= markets@.take(i as int).push(markets@[i as int]));
        i = i + 1;
    }
    assert(markets@.take(markets@.len() as int) =~= markets@);
    true
}

/// The slot of a token: `2 * market` for its up token, `2 * market + 1` for its down token.
pub open spec fn slot_from(ms: Seq<BinaryMarketRisk>, t: TokenKey, i: int) -> Option<int>
    decreases ms.len() - i,
{
    if i < 0 || i >= ms.len() {
        None
    } else if same_token(ms[i].up, t) {
        Some(2 * i)
    } else if same_token(ms[i].down, t) {
        Some(2 * i + 1)
    } else {
        slot_from(ms, t, i + 1)
    }
}

pub open spec fn slot_of(ms: Seq<BinaryMarketRisk>, t: TokenKey) -> Option<int> {
    slot_from(ms, t, 0)
}

pub proof fn lemma_slot_range(ms: Seq<BinaryMarketRisk>, t: TokenKey, i: int)
    requires
        0 <= i,
    ensures
        slot_from(ms, t, i) matches Some(s) ==> 2 * i <= s < 2 * ms.len(),
    decreases ms.len() - i,
{
    if i < ms.len() && !same_token(ms[i].up, t) && !same_token(ms[i].down, t) {
        lemma_slot_range(ms, t, i + 1);
    }
}

pub fn find_slot(markets: &Vec<BinaryMarketRisk>, t: &TokenKey) -> (r: Option<usize>)
    requires
        markets@.len() <= HARD_MAX_MARKETS,
    ensures
        match r {
            Some(s) => slot_of(markets@, *t) == Some(s as int),
            None => slot_of(markets@, *t) is None,
        },
        r matches Some(s) ==> s < 2 * markets@.len(),
{
    let mut i: usize = 0;
    proof { lemma_slot_range(markets@, *t, 0); }
    while i < markets.len()
        invariant
            i <= markets@.len() <= HARD_MAX_MARKETS,
            slot_of(markets@, *t) == slot_from(markets@, *t, i as int),
        decreases markets@.len() - i,
    {
        if tokens_equal(&markets[i].up, t) {
            proof { lemma_slot_range(markets@, *t, i as int); }
            assert(2 * i < 2 * markets@.len());
            return Some(2 * i);
        }
        if tokens_equal(&markets[i].down, t) {
            assert(2 * i + 1 < 2 * markets@.len());
            return Some(2 * i + 1);
        }
        i = i + 1;
    }
    None
}

/// Some market belongs to shock group `g`.
pub open spec fn group_in(ms: Seq<BinaryMarketRisk>, g: String) -> bool {
    exists|i: int| 0 <= i < ms.len() && (#[trigger] ms[i]).shock_group@ == g@
}

pub fn has_group(markets: &Vec<BinaryMarketRisk>, g: &String) -> (r: bool)
    ensures
        r == group_in(markets@, *g),
{
    let mut i: usize = 0;
    while i < markets.len()
        invariant
            i <= markets@.len(),
            forall|k: int| 0 <= k < i ==> markets@[k].shock_group@ != g@,
        decreases markets@.len() - i,
    {
        if markets[i].shock_group == *g {
            return true;
        }
        i = i + 1;
    }
    false
}

/// Group multipliers are labelled, known, at most 100% and strictly sorted by group.
pub open spec fn multipliers_valid(ms: Seq<BinaryMarketRisk>, es: Seq<GroupMultiplier>) -> bool {
    &&& forall|i: int|
        0 <= i < es.len() ==> {
            &&& valid_text_spec((#[trigger] es[i]).shock_group)
            &&& group_in(ms, es[i].shock_group)
            &&& es[i].multiplier_bps <= 10_000
        }
    &&& forall|i: int|
        0 < i < es.len() ==> bytes_lt(utf8_bytes(&es[i - 1].shock_group), utf8_bytes(&(#[trigger] es[i]).shock_group))
}

/// Every shock is labelled, has a unique id and valid multipliers.
pub open spec fn shocks_valid(ms: Seq<BinaryMarketRisk>, shocks: Seq<ShockProfile>) -> bool {
    &&& forall|j: int|
        0 <= j < shocks.len() ==> valid_text_spec((#[trigger] shocks[j]).shock_id)
            && multipliers_valid(ms, shocks[j].group_multipliers@)
    &&& forall|j: int, k: int|
        0 <= k < j < shocks.len() ==> (#[trigger] shocks[k]).shock_id@ != (#[trigger] shocks[j]).shock_id@
}

fn check_multipliers(markets: &Vec<BinaryMarketRisk>, es: &Vec<GroupMultiplier>) -> (r: bool)
    ensures
        r == multipliers_valid(markets@, es@),
{
    let mut i: usize = 0;
    while i < es.len()
        invariant
            i <= es@.len(),
            multipliers_valid(markets@, es@.take(i as int)),
        decreases es@.len() - i,
    {
        let e = &es[i];
        if !(valid_text(&e.shock_group) && has_group(markets, &e.shock_group) && e.multiplier_bps <= 10_000) {
            return false;
        }
        if i > 0 && !bytes_less(es[i - 1].shock_group.as_str().as_bytes(), e.shock_group.as_str().as_bytes()) {
            assert(!bytes_lt(utf8_bytes(&es@[i - 1].shock_group), utf8_bytes(&es@[i as int].shock_group)));
            return false;
        }
        assert(es@.take(i + 1) =~= es@.take(i as int).push(es@[i as int]));
        i = i + 1;
    }
    assert(es@.take(es@.len() as int) =~= es@);
    true
}

pub fn check_shocks(markets: &Vec<BinaryMarketRisk>, shocks: &Vec<ShockProfile>) -> (r: bool)
    ensures
        r == shocks_valid(markets@, shocks@),
{
    let mut j: usize = 0;
    while j < shocks.len()
        invariant
            j <= shocks@.len(),
            shocks_valid(markets@, shocks@.take(j as int)),
        decreases shocks@.len() - j,
    {
        if !valid_text(&shocks[j].shock_id) || !check_multipliers(markets, &shocks[j].group_multipliers) {
            return false;
        }
        let mut k: usize = 0;
        while k < j
            invariant
                k <= j < shocks@.len(),
                forall|x: int| 0 <= x < k ==> shocks@[x].shock_id@ != shocks@[j as int].shock_id@,
            decreases j - k,
        {
            if shocks[k].shock_id == shocks[j].shock_id {
                return false;
            }
            k = k + 1;
        }
        assert(shocks@.take(j + 1) =~= shocks@.take(j as int).push(shocks@[j as int]));
        j = j + 1;
    }
    assert(shocks@.take(shocks@.len() as int) =~= shocks@);
    true
}

/// Balances are positive, on known tokens and strictly sorted by token.
pub open spec fn balances_valid(ms: Seq<BinaryMarketRisk>, vs: Seq<ConfirmedTokenBalance>) -> bool {
    &&& forall|i: int|
        0 <= i < vs.len() ==> (#[trigger] vs[i]).balance_micros > 0 && slot_of(ms, vs[i].token) is Some
    &&& forall|i: int| 0 < i < vs.len() ==> token_lt(vs[i - 1].token, (#[trigger] vs[i]).token)
}

/// The balance held in `slot`: the last listed balance on that slot, else zero.
pub open spec fn amount_at(ms: Seq<BinaryMarketRisk>, vs: Seq<ConfirmedTokenBalance>, slot: int) -> int
    decreases vs.len(),
{
    if vs.len() == 0 {
        0
    } else if slot_of(ms, vs.last().token) == Some(slot) {
        vs.last().balance_micros as int
    } else {
        amount_at(ms, vs.drop_last(), slot)
    }
}

/// Balances laid out by slot.
pub open spec fn balance_slots(ms: Seq<BinaryMarketRisk>, vs: Seq<ConfirmedTokenBalance>) -> Seq<int> {
    Seq::new(2 * ms.len(), |s: int| amount_at(ms, vs, s))
}

/// A vector of `i128` viewed as integers.
pub open spec fn ints(v: Seq<i128>) -> Seq<int> {
    v.map_values(|x: i128| x as int)
}

pub fn balances(markets: &Vec<BinaryMarketRisk>, values: &Vec<ConfirmedTokenBalance>) -> (r: Option<Vec<i128>>)
    requires
        markets@.len() <= HARD_MAX_MARKETS,
    ensures
        r is Some == balances_valid(markets@, values@),
        r matches Some(v) ==> ints(v@) == balance_slots(markets@, values@),
{
    let n = 2 * markets.len();
    let mut out: Vec<i128> = Vec::new();
    while out.len() < n
        invariant
            out@.len() <= n,
            n == 2 * markets@.len(),
            forall|k: int| 0 <= k < out@.len() ==> out@[k] == 0,
        decreases n - out@.len(),
    {
        out.push(0);
    }
    let mut i: usize = 0;
    while i < values.len()
        invariant
            i <= values@.len(),
            markets@.len() <= HARD_MAX_MARKETS,
            n == 2 * markets@.len(),
            out@.len() == n,
            balances_valid(markets@, values@.take(i as int)),
            forall|s: int| 0 <= s < n ==> out@[s] as int == amount_at(markets@, values@.take(i as int), s),
        decreases values@.len() - i,
    {
        let v = &values[i];
        if v.balance_micros <= 0 {
            return None;
        }
        let slot = match find_slot(markets, &v.token) {
            Some(s) => s,
            None => {
                return None;
            },
        };
        if i > 0 && !token_less(&values[i - 1].token, &v.token) {
            return None;
        }
        let ghost prefix = values@.take(i as int);
        let ghost next = values@.take(i + 1);
        assert(next.drop_last() =~= prefix);
        assert(next.last() == values@[i as int]);
        out.set(slot, v.balance_micros);
        assert(next =~= prefix.push(values@[i as int]));
        i = i + 1;
    }
    assert(values@.take(values@.len() as int) =~= values@);
    assert(ints(out@) =~= balance_slots(markets@, values@));
    Some(out)
}

/// An order on a known token with positive size, a price within one unit and a non-negative fee.
pub open spec fn order_valid(ms: Seq<BinaryMarketRisk>, o: OrderExposure) -> bool {
    &&& slot_of(ms, o.token) is Some
    &&& o.quantity_micros > 0
    &&& o.partial_fill_micros >= 0
    &&& o.partial_fill_micros < o.quantity_micros
    &&& 0 <= o.limit_price_micros <= 1_000_000
    &&& o.max_fee_micros >= 0
}

/// The fill quantities a scenario may give an order: none, the partial fill if any, all.
pub open spec fn options_spec(o: OrderExposure) -> Seq<i128> {
    if o.partial_fill_micros > 0 {
        seq![0i128, o.partial_fill_micros, o.quantity_micros]
    } else {
        seq![0i128, o.quantity_micros]
    }
}

pub fn options(o: &OrderExposure) -> (r: Vec<i128>)
    ensures
        r@ == options_spec(*o),
{
    let mut r: Vec<i128> = Vec::new();
    r.push(0);
    if o.partial_fill_micros > 0 {
        r.push(o.partial_fill_micros);
    }
    r.push(o.quantity_micros);
    assert(r@ =~= options_spec(*o));
    r
}

/// Whether a sale of `fill` keeps proceeds at least the fee share (`None`: overflow).
pub open spec fn fill_check(o: OrderExposure, fill: int) -> Option<bool> {
    match partial_fee_spec(o.max_fee_micros as int, fill, o.quantity_micros as int) {
        None => None,
        Some(fee) => match sale_proceeds_spec(o.limit_price_micros as int, fill) {
            None => None,
            Some(proceeds) => Some(fee <= proceeds),
        },
    }
}

/// A buy is always fill-safe; a sale is when every positive fill's proceeds cover its fee.
pub open spec fn fill_safe_spec(o: OrderExposure) -> Option<bool> {
    if o.side == OrderSide::Buy {
        Some(true)
    } else if o.partial_fill_micros > 0 {
        match fill_check(o, o.partial_fill_micros as int) {
            None => None,
            Some(false) => Some(false),
            Some(true) => fill_check(o, o.quantity_micros as int),
        }
    } else {
        fill_check(o, o.quantity_micros as int)
    }
}

fn check_fill(o: &OrderExposure, fill: i128) -> (r: Result<bool, Error>)
    requires
        o.quantity_micros > 0,
    ensures
        match r {
            Ok(b) => fill_check(*o, fill as int) == Some(b),
            Err(e) => fill_check(*o, fill as int) is None && e == Error::Overflow,
        },
{
    let fee = match partial_fee(o.max_fee_micros, fill, o.quantity_micros) {
        Ok(v) => v,
        Err(e) => {
            return Err(e);
        },
    };
    let proceeds = match sale_proceeds(o.limit_price_micros, fill) {
        Ok(v) => v,
        Err(e) => {
            return Err(e);
        },
    };
    Ok(fee <= proceeds)
}

pub fn order_fill_safe(o: &OrderExposure) -> (r: Result<bool, Error>)
    requires
        o.quantity_micros > 0,
    ensures
        match r {
            Ok(b) => fill_safe_spec(*o) == Some(b),
            Err(e) => fill_safe_spec(*o) is None && e == Error::Overflow,
        },
{
    if o.side == OrderSide::Buy {
        return Ok(true);
    }
    if o.partial_fill_micros > 0 {
        match check_fill(o, o.partial_fill_micros) {
            Err(e) => {
                return Err(e);
            },
            Ok(false) => {
                return Ok(false);
            },
            Ok(true) => {},
        }
    }
    check_fill(o, o.quantity_micros)
}

/// The cash a full buy of the order reserves: its cost plus its whole fee.
pub open spec fn full_buy_cost_spec(o: OrderExposure) -> Option<int> {
    match buy_cost_spec(o.limit_price_micros as int, o.quantity_micros as int) {
        None => None,
        Some(c) => add_spec(c, o.max_fee_micros as int),
    }
}

pub fn full_buy_cost(o: &OrderExposure) -> (r: Result<i128, Error>)
    ensures
        arith_result(r, full_buy_cost_spec(*o)),
{
    match buy_cost(o.limit_price_micros, o.quantity_micros) {
        Ok(c) => super::arith::add_checked(c, o.max_fee_micros),
        Err(e) => Err(e),
    }
}

} // verus!
