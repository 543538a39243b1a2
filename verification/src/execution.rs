//! The lifecycle of one simulated paper order: exchange observations,
//! cancel races, exact cumulative fills and the reconciliation hand-offs
//! they emit.

use vstd::prelude::*;
use vstd::string::StringSliceAdditionalSpecFns;
use crate::digest::{blake3_digest, blake3_hash, digest_domain, digest_eq, domain_digest, le_bytes, push_bytes, push_le, utf8_bytes, Canonical};
use crate::risk::arith::{buy_cost, buy_cost_spec, sale_proceeds, sale_proceeds_spec};
use crate::risk::types::{OrderExposure, OrderSide, RiskOrderId, TokenKey};

verus! {

broadcast use vstd::string::to_string_from_display_ensures_for_str;

pub const MAX_TEXT_BYTES: usize = 512;

/// Identity of one execution command.
#[derive(Clone, Copy, Debug, PartialEq, Eq)]
pub struct ExecutionCommandId(pub [u8; 32]);

#[derive(Clone, Copy, Debug, PartialEq, Eq, Structural)]
pub enum UnknownReason {
    SubmitTimeout,
    CancelTimeout,
    TransportLost,
    RecoveryRequired,
}

#[derive(Clone, Copy, Debug, PartialEq, Eq, Structural)]
pub enum RetryClass {
    Permanent,
    Restart,
    RateLimit,
    BalanceOrAllowance,
    DelayedCheck,
    Unknown,
}

/// One exchange fill with the cumulative totals it claims.
#[derive(Clone, Debug, PartialEq, Eq)]
pub struct MatchFill {
    pub fill_id: String,
    pub quantity_micros: i128,
    pub consideration_micros: i128,
    pub fee_micros: i128,
    pub cumulative_quantity_micros: i128,
    pub cumulative_consideration_micros: i128,
    pub cumulative_fee_micros: i128,
    pub ledger_command_id: [u8; 32],
}

#[derive(Clone, Debug, PartialEq, Eq)]
pub enum ExchangeEvent {
    Delayed { release_at_ns: i64, uncancellable_until_ns: i64 },
    Acknowledged,
    Live,
    Match { fill: MatchFill, fully_matched: bool },
    CancelAccepted,
    CancelRejected,
    Rejected { class: RetryClass, code: String },
    Unknown { reason: UnknownReason },
}

/// One paper exchange observation about one order.
#[derive(Clone, Debug, PartialEq, Eq)]
pub struct ExchangeObservation {
    pub order_id: RiskOrderId,
    pub source_sequence: u64,
    pub exchange_order_id: Option<String>,
    pub event: ExchangeEvent,
    pub event_time_ns: i64,
    pub received_time_ns: i64,
}

/// Where a live order stands.
#[derive(Clone, Copy, Debug, PartialEq, Eq, Structural)]
pub enum ActiveState {
    Submitted,
    Delayed { release_at_ns: i64, uncancellable_until_ns: i64 },
    Acknowledged,
    Live,
    PartiallyMatched,
    Unknown { reason: UnknownReason },
}

#[derive(Clone, Debug, PartialEq, Eq)]
pub enum OrderState {
    Active(ActiveState),
    CancelPending { resume: ActiveState },
    FullyMatched,
    Canceled,
    Rejected { class: RetryClass, code: String },
}

impl OrderState {
    pub open spec fn terminal(&self) -> bool {
        self is FullyMatched || self is Canceled || self is Rejected
    }

    /// Whether no further exchange event may change the order.
    pub fn is_terminal(&self) -> (r: bool)
        ensures
            r == self.terminal(),
    {
        match self {
            OrderState::FullyMatched => true,
            OrderState::Canceled => true,
            OrderState::Rejected { .. } => true,
            _ => false,
        }
    }
}

/// A fill to be reconciled against the ledger.
#[derive(Clone, Debug, PartialEq, Eq)]
pub struct TradeIntent {
    pub intent_id: [u8; 32],
    pub trade_id: String,
    pub order_id: String,
    pub token: TokenKey,
    pub side: OrderSide,
    pub quantity_micros: i128,
    pub consideration_micros: i128,
    pub fee_micros: i128,
    pub ledger_command_id: [u8; 32],
}

/// One fill handed to reconciliation, with its provenance.
#[derive(Clone, Debug, PartialEq, Eq)]
pub struct ReconciliationHandoff {
    pub intent: TradeIntent,
    pub source_sequence: u64,
    pub placement_policy_digest: [u8; 32],
    pub source_observation_digest: [u8; 32],
}

/// One simulated order and everything observed of it.
#[derive(Debug)]
pub struct PaperOrder {
    pub placement: OrderExposure,
    pub local_submission_id: String,
    pub placement_policy_digest: [u8; 32],
    pub exchange_order_id: Option<String>,
    pub state: OrderState,
    pub last_source_sequence: Option<u64>,
    pub last_event_time_ns: Option<i64>,
    pub last_received_time_ns: Option<i64>,
    pub cumulative_quantity_micros: i128,
    pub cumulative_consideration_micros: i128,
    pub cumulative_fee_micros: i128,
    pub fills: Vec<MatchFill>,
    pub handoffs: Vec<ReconciliationHandoff>,
}

#[derive(Clone, Debug, PartialEq, Eq)]
pub enum Error {
    Timestamp,
    CommandBound,
    Json(String),
    Version(u16),
    IdempotencyConflict,
    ClockRegression,
    SourceHistory,
    ExchangeOrderIdentity,
    LifecycleTransition,
    FillInvariant,
    Identifier,
    Overflow,
    Halted(String),
}

/// A present identifier of at most `MAX_TEXT_BYTES` UTF-8 bytes.
pub open spec fn text_ok(s: Seq<char>) -> bool {
    s.len() > 0 && (vstd::utf8::encode_utf8(s).len() as usize) <= MAX_TEXT_BYTES
}

pub fn validate_text(value: &str) -> (r: Result<(), Error>)
    ensures
        r is Ok <==> text_ok(value@),
        r is Err ==> r == Err::<(), Error>(Error::Identifier),
{
    if value.is_empty() || value.len() > MAX_TEXT_BYTES {
        Err(Error::Identifier)
    } else {
        Ok(())
    }
}

/// The active state an order resumes in, if it is still active.
pub open spec fn active_of(s: OrderState) -> Option<ActiveState> {
    match s {
        OrderState::Active(a) => Some(a),
        OrderState::CancelPending { resume } => Some(resume),
        _ => None,
    }
}

pub fn active_state(s: &OrderState) -> (r: Option<ActiveState>)
    ensures
        r == active_of(*s),
{
    match s {
        OrderState::Active(a) => Some(*a),
        OrderState::CancelPending { resume } => Some(*resume),
        _ => None,
    }
}

/// The exchange events that move an active order forward.
#[derive(Clone, Copy, Debug, PartialEq, Eq, Structural)]
pub enum Advance {
    Delay,
    Acknowledge,
    Live,
}

/// The active states each advance may start from.
pub open spec fn allowed_from(t: Advance, a: ActiveState) -> bool {
    match t {
        Advance::Delay => a is Submitted || a is Unknown,
        Advance::Acknowledge => a is Submitted || a is Delayed || a is Unknown,
        Advance::Live => a is Submitted || a is Delayed || a is Acknowledged || a is Unknown,
    }
}

/// An advance is possible from the order's active state.
pub fn require_active_transition(s: &OrderState, t: Advance) -> (r: Result<(), Error>)
    ensures
        r is Ok <==> (active_of(*s) matches Some(a) && allowed_from(t, a)),
        r is Err ==> r == Err::<(), Error>(Error::LifecycleTransition),
{
    match active_state(s) {
        Some(a) => {
            let ok = match t {
                Advance::Delay => match a {
                    ActiveState::Submitted => true,
                    ActiveState::Unknown { .. } => true,
                    _ => false,
                },
                Advance::Acknowledge => match a {
                    ActiveState::Submitted => true,
                    ActiveState::Delayed { .. } => true,
                    ActiveState::Unknown { .. } => true,
                    _ => false,
                },
                Advance::Live => match a {
                    ActiveState::Submitted => true,
                    ActiveState::Delayed { .. } => true,
                    ActiveState::Acknowledged => true,
                    ActiveState::Unknown { .. } => true,
                    _ => false,
                },
            };
            if ok {
                Ok(())
            } else {
                Err(Error::LifecycleTransition)
            }
        },
        None => Err(Error::LifecycleTransition),
    }
}

/// The state with its active part replaced, where it has one.
pub open spec fn with_active(s: OrderState, a: ActiveState) -> Option<OrderState> {
    match s {
        OrderState::Active(_) => Some(OrderState::Active(a)),
        OrderState::CancelPending { .. } => Some(OrderState::CancelPending { resume: a }),
        _ => None,
    }
}

/// A delayed order whose release lies after `at`.
pub open spec fn still_delayed(s: OrderState, at: i64) -> bool {
    active_of(s) matches Some(ActiveState::Delayed { release_at_ns, .. }) && at < release_at_ns
}

fn delayed_until(s: &OrderState, at: i64) -> (r: bool)
    ensures
        r == still_delayed(*s, at),
{
    match active_state(s) {
        Some(ActiveState::Delayed { release_at_ns, .. }) => at < release_at_ns,
        _ => false,
    }
}


/// The verdict on a fill against the order it claims to extend.
pub open spec fn fill_check(o: PaperOrder, f: MatchFill, fully: bool) -> Result<(), Error> {
    let q = o.placement.quantity_micros;
    if !text_ok(f.fill_id@) {
        Err(Error::Identifier)
    } else if f.quantity_micros <= 0 || f.consideration_micros <= 0 || f.fee_micros < 0 || f.fee_micros > f.consideration_micros {
        Err(Error::FillInvariant)
    } else if o.cumulative_quantity_micros + f.quantity_micros != f.cumulative_quantity_micros
        || o.cumulative_consideration_micros + f.consideration_micros != f.cumulative_consideration_micros
        || o.cumulative_fee_micros + f.fee_micros != f.cumulative_fee_micros || f.cumulative_quantity_micros > q
        || f.cumulative_fee_micros > o.placement.max_fee_micros || fully != (f.cumulative_quantity_micros == q) {
        Err(Error::FillInvariant)
    } else {
        match o.placement.side {
            OrderSide::Buy => match buy_cost_spec(o.placement.limit_price_micros as int, f.quantity_micros as int) {
                None => Err(Error::Overflow),
                Some(c) => if f.consideration_micros > c { Err(Error::FillInvariant) } else { Ok(()) },
            },
            OrderSide::Sell => match sale_proceeds_spec(o.placement.limit_price_micros as int, f.quantity_micros as int) {
                None => Err(Error::Overflow),
                Some(c) => if f.consideration_micros < c { Err(Error::FillInvariant) } else { Ok(()) },
            },
        }
    }
}

/// An accepted fill respects the order's limit price: a buy pays no more than
/// the limit cost of the filled quantity rounded up to a whole micro, and a
/// sale brings no less than the limit value rounded toward zero.
pub proof fn law_accepted_fill_respects_the_limit_price(o: PaperOrder, f: MatchFill, fully: bool)
    requires
        fill_check(o, f, fully) is Ok,
    ensures
        ({
            let x = o.placement.limit_price_micros * f.quantity_micros;
            let c = f.consideration_micros as int;
            &&& o.placement.side == OrderSide::Buy ==> (c - 1) * 1_000_000 < x
            &&& o.placement.side == OrderSide::Sell ==> (x >= 0 ==> (c + 1) * 1_000_000 > x) && (x < 0 ==> c * 1_000_000 >= x)
        }),
{
    let x = o.placement.limit_price_micros * f.quantity_micros;
    if o.placement.side == OrderSide::Buy {
        let y = x + 1_000_000 - 1;
        if y >= 0 {
            vstd::arithmetic::div_mod::lemma_fundamental_div_mod(y, 1_000_000);
            vstd::arithmetic::div_mod::lemma_mod_bound(y, 1_000_000);
        } else {
            vstd::arithmetic::div_mod::lemma_fundamental_div_mod(-y, 1_000_000);
            vstd::arithmetic::div_mod::lemma_mod_bound(-y, 1_000_000);
        }
    } else {
        if x >= 0 {
            vstd::arithmetic::div_mod::lemma_fundamental_div_mod(x, 1_000_000);
            vstd::arithmetic::div_mod::lemma_mod_bound(x, 1_000_000);
        } else {
            vstd::arithmetic::div_mod::lemma_fundamental_div_mod(-x, 1_000_000);
            vstd::arithmetic::div_mod::lemma_mod_bound(-x, 1_000_000);
        }
    }
}

fn sums_to(a: i128, b: i128, c: i128) -> (r: bool)
    ensures
        r == (a + b == c),
{
    match a.checked_add(b) {
        Some(v) => v == c,
        None => false,
    }
}

/// Checks a fill's amounts, cumulative totals, bounds and limit price.
pub fn validate_fill(o: &PaperOrder, f: &MatchFill, fully: bool) -> (r: Result<(), Error>)
    ensures
        r == fill_check(*o, *f, fully),
{
    match validate_text(f.fill_id.as_str()) {
        Ok(_) => {},
        Err(e) => {
            return Err(e);
        },
    }
    if f.quantity_micros <= 0 || f.consideration_micros <= 0 || f.fee_micros < 0 || f.fee_micros > f.consideration_micros {
        return Err(Error::FillInvariant);
    }
    let q = o.placement.quantity_micros;
    if !sums_to(o.cumulative_quantity_micros, f.quantity_micros, f.cumulative_quantity_micros)
        || !sums_to(o.cumulative_consideration_micros, f.consideration_micros, f.cumulative_consideration_micros)
        || !sums_to(o.cumulative_fee_micros, f.fee_micros, f.cumulative_fee_micros) || f.cumulative_quantity_micros > q
        || f.cumulative_fee_micros > o.placement.max_fee_micros || fully != (f.cumulative_quantity_micros == q) {
        return Err(Error::FillInvariant);
    }
    match o.placement.side {
        OrderSide::Buy => match buy_cost(o.placement.limit_price_micros, f.quantity_micros) {
            Ok(c) => if f.consideration_micros > c { Err(Error::FillInvariant) } else { Ok(()) },
            Err(_) => Err(Error::Overflow),
        },
        OrderSide::Sell => match sale_proceeds(o.placement.limit_price_micros, f.quantity_micros) {
            Ok(c) => if f.consideration_micros < c { Err(Error::FillInvariant) } else { Ok(()) },
            Err(_) => Err(Error::Overflow),
        },
    }
}

/// Domain of the identity of a reconciliation intent.
pub open spec fn intent_domain() -> Seq<u8> {
    "paper-execution-handoff-v1".spec_bytes()
}

/// The identity of the intent for one fill of one exchange order.
pub open spec fn intent_id_spec(fill_id: Seq<char>, order_id: Seq<char>) -> Seq<u8> {
    let f = vstd::utf8::encode_utf8(fill_id);
    let o = vstd::utf8::encode_utf8(order_id);
    blake3_hash(intent_domain() + le_bytes(f.len(), 8) + f + le_bytes(o.len(), 8) + o)
}

pub fn intent_id(fill_id: &str, order_id: &str) -> (r: [u8; 32])
    ensures
        r@ == intent_id_spec(fill_id@, order_id@),
{
    let mut bytes: Vec<u8> = Vec::new();
    push_bytes(&mut bytes, "paper-execution-handoff-v1".as_bytes());
    let f = fill_id.as_bytes();
    let o = order_id.as_bytes();
    push_le(&mut bytes, f.len() as u128, 8);
    push_bytes(&mut bytes, f);
    push_le(&mut bytes, o.len() as u128, 8);
    push_bytes(&mut bytes, o);
    blake3_digest(bytes.as_slice())
}

/// The fill's id or ledger command is already known for the order.
pub open spec fn fill_seen(fills: Seq<MatchFill>, f: MatchFill) -> bool {
    exists|i: int| 0 <= i < fills.len() && ((#[trigger] fills[i]).fill_id@ == f.fill_id@
        || fills[i].ledger_command_id@ == f.ledger_command_id@)
}

fn seen(fills: &Vec<MatchFill>, f: &MatchFill) -> (r: bool)
    ensures
        r == fill_seen(fills@, *f),
{
    let mut i: usize = 0;
    while i < fills.len()
        invariant
            i <= fills@.len(),
            forall|k: int| 0 <= k < i ==> !((#[trigger] fills@[k]).fill_id@ == f.fill_id@
                || fills@[k].ledger_command_id@ == f.ledger_command_id@),
        decreases fills@.len() - i,
    {
        if fills[i].fill_id.eq(&f.fill_id) || digest_eq(&fills[i].ledger_command_id, &f.ledger_command_id) {
            return true;
        }
        i = i + 1;
    }
    false
}

/// `h` is the hand-off for fill `f` of order `o` seen in `obs`.
pub open spec fn handoff_for(h: ReconciliationHandoff, o: PaperOrder, obs: ExchangeObservation, f: MatchFill, digest: [u8; 32]) -> bool {
    let xid = o.exchange_order_id->0;
    &&& h.intent.intent_id@ == intent_id_spec(f.fill_id@, xid@)
    &&& h.intent.trade_id == f.fill_id
    &&& h.intent.order_id == xid
    &&& h.intent.token == o.placement.token
    &&& h.intent.side == o.placement.side
    &&& h.intent.quantity_micros == f.quantity_micros
    &&& h.intent.consideration_micros == f.consideration_micros
    &&& h.intent.fee_micros == f.fee_micros
    &&& h.intent.ledger_command_id == f.ledger_command_id
    &&& h.source_sequence == obs.source_sequence
    &&& h.placement_policy_digest == o.placement_policy_digest
    &&& h.source_observation_digest == digest
}

/// The verdict on a match before anything changes.
pub open spec fn match_check(o: PaperOrder, obs: ExchangeObservation, f: MatchFill, fully: bool) -> Result<(), Error> {
    if o.exchange_order_id is None {
        Err(Error::ExchangeOrderIdentity)
    } else if o.state.terminal() || fill_seen(o.fills@, f) {
        Err(Error::FillInvariant)
    } else if still_delayed(o.state, obs.event_time_ns) {
        Err(Error::LifecycleTransition)
    } else {
        fill_check(o, f, fully)
    }
}

/// `n` is `o` after an accepted match: new cumulative totals, the fill and
/// its hand-off recorded, and the order fully or partially matched.
pub open spec fn matched(o: PaperOrder, obs: ExchangeObservation, f: MatchFill, fully: bool, digest: [u8; 32], n: PaperOrder, h: ReconciliationHandoff) -> bool {
    &&& handoff_for(h, o, obs, f, digest)
    &&& n.cumulative_quantity_micros == f.cumulative_quantity_micros
    &&& n.cumulative_consideration_micros == f.cumulative_consideration_micros
    &&& n.cumulative_fee_micros == f.cumulative_fee_micros
    &&& n.fills@ == o.fills@.push(f)
    &&& n.handoffs@ == o.handoffs@.push(h)
    &&& n.state == (if fully { OrderState::FullyMatched } else { with_active(o.state, ActiveState::PartiallyMatched)->0 })
    &&& n.placement == o.placement
    &&& n.local_submission_id == o.local_submission_id
    &&& n.placement_policy_digest == o.placement_policy_digest
    &&& n.exchange_order_id == o.exchange_order_id
    &&& n.last_source_sequence == o.last_source_sequence
    &&& n.last_event_time_ns == o.last_event_time_ns
    &&& n.last_received_time_ns == o.last_received_time_ns
}

pub fn copy_fill(f: &MatchFill) -> (r: MatchFill)
    ensures
        r == *f,
{
    MatchFill {
        fill_id: f.fill_id.clone(),
        quantity_micros: f.quantity_micros,
        consideration_micros: f.consideration_micros,
        fee_micros: f.fee_micros,
        cumulative_quantity_micros: f.cumulative_quantity_micros,
        cumulative_consideration_micros: f.cumulative_consideration_micros,
        cumulative_fee_micros: f.cumulative_fee_micros,
        ledger_command_id: f.ledger_command_id,
    }
}

fn copy_token(t: &TokenKey) -> (r: TokenKey)
    ensures
        r == *t,
{
    TokenKey { condition_id: t.condition_id.clone(), token_id: t.token_id.clone() }
}

pub fn copy_handoff(h: &ReconciliationHandoff) -> (r: ReconciliationHandoff)
    ensures
        r == *h,
{
    ReconciliationHandoff {
        intent: TradeIntent {
            intent_id: h.intent.intent_id,
            trade_id: h.intent.trade_id.clone(),
            order_id: h.intent.order_id.clone(),
            token: copy_token(&h.intent.token),
            side: h.intent.side,
            quantity_micros: h.intent.quantity_micros,
            consideration_micros: h.intent.consideration_micros,
            fee_micros: h.intent.fee_micros,
            ledger_command_id: h.intent.ledger_command_id,
        },
        source_sequence: h.source_sequence,
        placement_policy_digest: h.placement_policy_digest,
        source_observation_digest: h.source_observation_digest,
    }
}

/// Applies one match to an order, or reports why it is refused; a refused
/// match leaves the order as it was.
pub fn apply_match(o: &mut PaperOrder, obs: &ExchangeObservation, f: &MatchFill, fully: bool, digest: [u8; 32]) -> (r: Result<ReconciliationHandoff, Error>)
    ensures
        match r {
            Ok(h) => match_check(*old(o), *obs, *f, fully) is Ok && matched(*old(o), *obs, *f, fully, digest, *final(o), h),
            Err(e) => match_check(*old(o), *obs, *f, fully) == Err::<(), Error>(e) && *final(o) == *old(o),
        },
{
    let xid = match &o.exchange_order_id {
        Some(x) => x.clone(),
        None => {
            return Err(Error::ExchangeOrderIdentity);
        },
    };
    if o.state.is_terminal() || seen(&o.fills, f) {
        return Err(Error::FillInvariant);
    }
    if delayed_until(&o.state, obs.event_time_ns) {
        return Err(Error::LifecycleTransition);
    }
    match validate_fill(o, f, fully) {
        Ok(_) => {},
        Err(e) => {
            return Err(e);
        },
    }
    let intent = TradeIntent {
        intent_id: intent_id(f.fill_id.as_str(), xid.as_str()),
        trade_id: f.fill_id.clone(),
        order_id: xid,
        token: copy_token(&o.placement.token),
        side: o.placement.side,
        quantity_micros: f.quantity_micros,
        consideration_micros: f.consideration_micros,
        fee_micros: f.fee_micros,
        ledger_command_id: f.ledger_command_id,
    };
    let handoff = ReconciliationHandoff {
        intent,
        source_sequence: obs.source_sequence,
        placement_policy_digest: o.placement_policy_digest,
        source_observation_digest: digest,
    };
    o.cumulative_quantity_micros = f.cumulative_quantity_micros;
    o.cumulative_consideration_micros = f.cumulative_consideration_micros;
    o.cumulative_fee_micros = f.cumulative_fee_micros;
    o.fills.push(copy_fill(f));
    o.handoffs.push(copy_handoff(&handoff));
    if fully {
        o.state = OrderState::FullyMatched;
    } else {
        o.state = match &o.state {
            OrderState::CancelPending { .. } => OrderState::CancelPending { resume: ActiveState::PartiallyMatched },
            _ => OrderState::Active(ActiveState::PartiallyMatched),
        };
    }
    Ok(handoff)
}

/// `o` with its state replaced.
pub open spec fn with_state(o: PaperOrder, s: OrderState) -> PaperOrder {
    PaperOrder { state: s, ..o }
}

/// Replaces the active part of the order's state; refused for a terminal order.
pub fn set_active(o: &mut PaperOrder, a: ActiveState) -> (r: Result<(), Error>)
    ensures
        match with_active(old(o).state, a) {
            Some(s) => r is Ok && *final(o) == with_state(*old(o), s),
            None => r == Err::<(), Error>(Error::LifecycleTransition) && *final(o) == *old(o),
        },
{
    match &o.state {
        OrderState::Active(_) => {
            o.state = OrderState::Active(a);
            Ok(())
        },
        OrderState::CancelPending { .. } => {
            o.state = OrderState::CancelPending { resume: a };
            Ok(())
        },
        _ => Err(Error::LifecycleTransition),
    }
}

/// The order has been bound to an exchange order id.
pub fn require_exchange_id(o: &PaperOrder) -> (r: Result<(), Error>)
    ensures
        r is Ok <==> o.exchange_order_id is Some,
        r is Err ==> r == Err::<(), Error>(Error::ExchangeOrderIdentity),
{
    match &o.exchange_order_id {
        Some(_) => Ok(()),
        None => Err(Error::ExchangeOrderIdentity),
    }
}

/// The state an event other than a match moves the order to, or why it is refused.
pub open spec fn event_step(o: PaperOrder, obs: ExchangeObservation) -> Result<OrderState, Error> {
    let t = obs.event_time_ns;
    match obs.event {
        ExchangeEvent::Delayed { release_at_ns, uncancellable_until_ns } => {
            if !(active_of(o.state) matches Some(a) && allowed_from(Advance::Delay, a)) {
                Err(Error::LifecycleTransition)
            } else if release_at_ns <= t || uncancellable_until_ns < release_at_ns {
                Err(Error::LifecycleTransition)
            } else {
                Ok(with_active(o.state, ActiveState::Delayed { release_at_ns, uncancellable_until_ns })->0)
            }
        },
        ExchangeEvent::Acknowledged => {
            if o.exchange_order_id is None {
                Err(Error::ExchangeOrderIdentity)
            } else if !(active_of(o.state) matches Some(a) && allowed_from(Advance::Acknowledge, a)) {
                Err(Error::LifecycleTransition)
            } else {
                Ok(with_active(o.state, ActiveState::Acknowledged)->0)
            }
        },
        ExchangeEvent::Live => {
            if o.exchange_order_id is None {
                Err(Error::ExchangeOrderIdentity)
            } else if !(active_of(o.state) matches Some(a) && allowed_from(Advance::Live, a)) {
                Err(Error::LifecycleTransition)
            } else if still_delayed(o.state, t) {
                Err(Error::LifecycleTransition)
            } else {
                Ok(with_active(o.state, ActiveState::Live)->0)
            }
        },
        ExchangeEvent::Match { .. } => Err(Error::FillInvariant),
        ExchangeEvent::CancelAccepted => {
            if o.state is CancelPending {
                Ok(OrderState::Canceled)
            } else {
                Err(Error::LifecycleTransition)
            }
        },
        ExchangeEvent::CancelRejected => match o.state {
            OrderState::CancelPending { resume } => Ok(OrderState::Active(resume)),
            _ => Err(Error::LifecycleTransition),
        },
        ExchangeEvent::Rejected { class, code } => {
            if !text_ok(code@) {
                Err(Error::Identifier)
            } else if o.state.terminal() {
                Err(Error::LifecycleTransition)
            } else {
                Ok(OrderState::Rejected { class, code })
            }
        },
        ExchangeEvent::Unknown { reason } => match with_active(o.state, ActiveState::Unknown { reason }) {
            Some(s) => Ok(s),
            None => Err(Error::LifecycleTransition),
        },
    }
}

/// Why an observation cannot be applied to the order, if it cannot.
pub open spec fn step_error(o: PaperOrder, obs: ExchangeObservation) -> Option<Error> {
    match obs.event {
        ExchangeEvent::Match { fill, fully_matched } => match match_check(o, obs, fill, fully_matched) {
            Err(e) => Some(e),
            Ok(_) => None,
        },
        _ => match event_step(o, obs) {
            Err(e) => Some(e),
            Ok(_) => None,
        },
    }
}

/// `n` and `h` are the order and hand-off after an accepted observation.
pub open spec fn stepped(o: PaperOrder, obs: ExchangeObservation, digest: [u8; 32], n: PaperOrder, h: Option<ReconciliationHandoff>) -> bool {
    match obs.event {
        ExchangeEvent::Match { fill, fully_matched } => h matches Some(x) && matched(o, obs, fill, fully_matched, digest, n, x),
        _ => h is None && event_step(o, obs) == Ok::<OrderState, Error>(n.state) && n == with_state(o, n.state),
    }
}

pub fn copy_state(s: &OrderState) -> (r: OrderState)
    ensures
        r == *s,
{
    match s {
        OrderState::Active(a) => OrderState::Active(*a),
        OrderState::CancelPending { resume } => OrderState::CancelPending { resume: *resume },
        OrderState::FullyMatched => OrderState::FullyMatched,
        OrderState::Canceled => OrderState::Canceled,
        OrderState::Rejected { class, code } => OrderState::Rejected { class: *class, code: code.clone() },
    }
}

/// Applies one exchange event to an order; a refused event leaves the order
/// as it was.
pub fn apply_observation(o: &mut PaperOrder, obs: &ExchangeObservation, digest: [u8; 32]) -> (r: Result<Option<ReconciliationHandoff>, Error>)
    ensures
        match r {
            Ok(h) => step_error(*old(o), *obs) is None && stepped(*old(o), *obs, digest, *final(o), h),
            Err(e) => step_error(*old(o), *obs) == Some(e) && *final(o) == *old(o),
        },
{
    let t = obs.event_time_ns;
    match &obs.event {
        ExchangeEvent::Delayed { release_at_ns, uncancellable_until_ns } => {
            require_active_transition(&o.state, Advance::Delay)?;
            if *release_at_ns <= t || *uncancellable_until_ns < *release_at_ns {
                return Err(Error::LifecycleTransition);
            }
            set_active(o, ActiveState::Delayed { release_at_ns: *release_at_ns, uncancellable_until_ns: *uncancellable_until_ns })?;
            Ok(None)
        },
        ExchangeEvent::Acknowledged => {
            require_exchange_id(o)?;
            require_active_transition(&o.state, Advance::Acknowledge)?;
            set_active(o, ActiveState::Acknowledged)?;
            Ok(None)
        },
        ExchangeEvent::Live => {
            require_exchange_id(o)?;
            require_active_transition(&o.state, Advance::Live)?;
            if delayed_until(&o.state, t) {
                return Err(Error::LifecycleTransition);
            }
            set_active(o, ActiveState::Live)?;
            Ok(None)
        },
        ExchangeEvent::Match { fill, fully_matched } => {
            let h = apply_match(o, obs, fill, *fully_matched, digest)?;
            Ok(Some(h))
        },
        ExchangeEvent::CancelAccepted => {
            match &o.state {
                OrderState::CancelPending { .. } => {
                    o.state = OrderState::Canceled;
                    Ok(None)
                },
                _ => Err(Error::LifecycleTransition),
            }
        },
        ExchangeEvent::CancelRejected => {
            match &o.state {
                OrderState::CancelPending { resume } => {
                    let a = *resume;
                    o.state = OrderState::Active(a);
                    Ok(None)
                },
                _ => Err(Error::LifecycleTransition),
            }
        },
        ExchangeEvent::Rejected { class, code } => {
            validate_text(code.as_str())?;
            if o.state.is_terminal() {
                return Err(Error::LifecycleTransition);
            }
            o.state = OrderState::Rejected { class: *class, code: code.clone() };
            Ok(None)
        },
        ExchangeEvent::Unknown { reason } => {
            set_active(o, ActiveState::Unknown { reason: *reason })?;
            Ok(None)
        },
    }
}
impl Canonical for UnknownReason {
    open spec fn canon(&self) -> Seq<u8> {
        match self {
            UnknownReason::SubmitTimeout => seq![0u8],
            UnknownReason::CancelTimeout => seq![1u8],
            UnknownReason::TransportLost => seq![2u8],
            UnknownReason::RecoveryRequired => seq![3u8],
        }
    }

    fn encode_into(&self, out: &mut Vec<u8>) {
        let ghost start = out@;
        match self {
            UnknownReason::SubmitTimeout => {
                out.push(0u8);
            },
            UnknownReason::CancelTimeout => {
                out.push(1u8);
            },
            UnknownReason::TransportLost => {
                out.push(2u8);
            },
            UnknownReason::RecoveryRequired => {
                out.push(3u8);
            },
        }
        assert(out@ =~= start + self.canon());
    }
}

impl Canonical for RetryClass {
    open spec fn canon(&self) -> Seq<u8> {
        match self {
            RetryClass::Permanent => seq![0u8],
            RetryClass::Restart => seq![1u8],
            RetryClass::RateLimit => seq![2u8],
            RetryClass::BalanceOrAllowance => seq![3u8],
            RetryClass::DelayedCheck => seq![4u8],
            RetryClass::Unknown => seq![5u8],
        }
    }

    fn encode_into(&self, out: &mut Vec<u8>) {
        let ghost start = out@;
        match self {
            RetryClass::Permanent => {
                out.push(0u8);
            },
            RetryClass::Restart => {
                out.push(1u8);
            },
            RetryClass::RateLimit => {
                out.push(2u8);
            },
            RetryClass::BalanceOrAllowance => {
                out.push(3u8);
            },
            RetryClass::DelayedCheck => {
                out.push(4u8);
            },
            RetryClass::Unknown => {
                out.push(5u8);
            },
        }
        assert(out@ =~= start + self.canon());
    }
}

impl Canonical for MatchFill {
    open spec fn canon(&self) -> Seq<u8> {
        self.fill_id.canon() + self.quantity_micros.canon() + self.consideration_micros.canon() + self.fee_micros.canon() + self.cumulative_quantity_micros.canon() + self.cumulative_consideration_micros.canon() + self.cumulative_fee_micros.canon() + self.ledger_command_id.canon()
    }

    fn encode_into(&self, out: &mut Vec<u8>) {
        let ghost start = out@;
        self.fill_id.encode_into(out);
        self.quantity_micros.encode_into(out);
        self.consideration_micros.encode_into(out);
        self.fee_micros.encode_into(out);
        self.cumulative_quantity_micros.encode_into(out);
        self.cumulative_consideration_micros.encode_into(out);
        self.cumulative_fee_micros.encode_into(out);
        self.ledger_command_id.encode_into(out);
        assert(out@ =~= start + self.canon());
    }
}

impl Canonical for ExchangeEvent {
    open spec fn canon(&self) -> Seq<u8> {
        match self {
            ExchangeEvent::Delayed { release_at_ns, uncancellable_until_ns } => seq![0u8] + release_at_ns.canon() + uncancellable_until_ns.canon(),
            ExchangeEvent::Acknowledged => seq![1u8],
            ExchangeEvent::Live => seq![2u8],
            ExchangeEvent::Match { fill, fully_matched } => seq![3u8] + fill.canon() + fully_matched.canon(),
            ExchangeEvent::CancelAccepted => seq![4u8],
            ExchangeEvent::CancelRejected => seq![5u8],
            ExchangeEvent::Rejected { class, code } => seq![6u8] + class.canon() + code.canon(),
            ExchangeEvent::Unknown { reason } => seq![7u8] + reason.canon(),
        }
    }

    fn encode_into(&self, out: &mut Vec<u8>) {
        let ghost start = out@;
        match self {
            ExchangeEvent::Delayed { release_at_ns, uncancellable_until_ns } => {
                out.push(0u8);
                release_at_ns.encode_into(out);
                uncancellable_until_ns.encode_into(out);
            },
            ExchangeEvent::Acknowledged => {
                out.push(1u8);
            },
            ExchangeEvent::Live => {
                out.push(2u8);
            },
            ExchangeEvent::Match { fill, fully_matched } => {
                out.push(3u8);
                fill.encode_into(out);
                fully_matched.encode_into(out);
            },
            ExchangeEvent::CancelAccepted => {
                out.push(4u8);
            },
            ExchangeEvent::CancelRejected => {
                out.push(5u8);
            },
            ExchangeEvent::Rejected { class, code } => {
                out.push(6u8);
                class.encode_into(out);
                code.encode_into(out);
            },
            ExchangeEvent::Unknown { reason } => {
                out.push(7u8);
                reason.encode_into(out);
            },
        }
        assert(out@ =~= start + self.canon());
    }
}

impl Canonical for ExchangeObservation {
    open spec fn canon(&self) -> Seq<u8> {
        self.order_id.canon() + self.source_sequence.canon() + self.exchange_order_id.canon() + self.event.canon() + self.event_time_ns.canon() + self.received_time_ns.canon()
    }

    fn encode_into(&self, out: &mut Vec<u8>) {
        let ghost start = out@;
        self.order_id.encode_into(out);
        self.source_sequence.encode_into(out);
        self.exchange_order_id.encode_into(out);
        self.event.encode_into(out);
        self.event_time_ns.encode_into(out);
        self.received_time_ns.encode_into(out);
        assert(out@ =~= start + self.canon());
    }
}

impl Canonical for ActiveState {
    open spec fn canon(&self) -> Seq<u8> {
        match self {
            ActiveState::Submitted => seq![0u8],
            ActiveState::Delayed { release_at_ns, uncancellable_until_ns } => seq![1u8] + release_at_ns.canon() + uncancellable_until_ns.canon(),
            ActiveState::Acknowledged => seq![2u8],
            ActiveState::Live => seq![3u8],
            ActiveState::PartiallyMatched => seq![4u8],
            ActiveState::Unknown { reason } => seq![5u8] + reason.canon(),
        }
    }

    fn encode_into(&self, out: &mut Vec<u8>) {
        let ghost start = out@;
        match self {
            ActiveState::Submitted => {
                out.push(0u8);
            },
            ActiveState::Delayed { release_at_ns, uncancellable_until_ns } => {
                out.push(1u8);
                release_at_ns.encode_into(out);
                uncancellable_until_ns.encode_into(out);
            },
            ActiveState::Acknowledged => {
                out.push(2u8);
            },
            ActiveState::Live => {
                out.push(3u8);
            },
            ActiveState::PartiallyMatched => {
                out.push(4u8);
            },
            ActiveState::Unknown { reason } => {
                out.push(5u8);
                reason.encode_into(out);
            },
        }
        assert(out@ =~= start + self.canon());
    }
}

impl Canonical for OrderState {
    open spec fn canon(&self) -> Seq<u8> {
        match self {
            OrderState::Active(f0) => seq![0u8] + f0.canon(),
            OrderState::CancelPending { resume } => seq![1u8] + resume.canon(),
            OrderState::FullyMatched => seq![2u8],
            OrderState::Canceled => seq![3u8],
            OrderState::Rejected { class, code } => seq![4u8] + class.canon() + code.canon(),
        }
    }

    fn encode_into(&self, out: &mut Vec<u8>) {
        let ghost start = out@;
        match self {
            OrderState::Active(f0) => {
                out.push(0u8);
                f0.encode_into(out);
            },
            OrderState::CancelPending { resume } => {
                out.push(1u8);
                resume.encode_into(out);
            },
            OrderState::FullyMatched => {
                out.push(2u8);
            },
            OrderState::Canceled => {
                out.push(3u8);
            },
            OrderState::Rejected { class, code } => {
                out.push(4u8);
                class.encode_into(out);
                code.encode_into(out);
            },
        }
        assert(out@ =~= start + self.canon());
    }
}


/// Domain of the digest of an exchange observation.
pub open spec fn observation_domain() -> Seq<u8> {
    "paper-execution-observation-v1".spec_bytes()
}

/// The digest that a hand-off records of the observation it came from.
pub open spec fn observation_digest_spec(obs: ExchangeObservation) -> Seq<u8> {
    domain_digest(observation_domain(), obs.canon())
}

pub fn observation_digest(obs: &ExchangeObservation) -> (r: [u8; 32])
    ensures
        r@ == observation_digest_spec(*obs),
{
    let mut body: Vec<u8> = Vec::new();
    obs.encode_into(&mut body);
    digest_domain("paper-execution-observation-v1".as_bytes(), body.as_slice())
}

/// Timestamps are ordered and any exchange id present is well formed.
pub open spec fn observation_check(obs: ExchangeObservation) -> Result<(), Error> {
    if obs.event_time_ns < 0 || obs.received_time_ns < obs.event_time_ns {
        Err(Error::Timestamp)
    } else if obs.exchange_order_id matches Some(x) && !text_ok(x@) {
        Err(Error::Identifier)
    } else {
        Ok(())
    }
}

pub fn validate_observation(obs: &ExchangeObservation) -> (r: Result<(), Error>)
    ensures
        r == observation_check(*obs),
{
    if obs.event_time_ns < 0 || obs.received_time_ns < obs.event_time_ns {
        return Err(Error::Timestamp);
    }
    match &obs.exchange_order_id {
        Some(x) => if validate_text(x.as_str()).is_ok() {
            Ok(())
        } else {
            Err(Error::Identifier)
        },
        None => Ok(()),
    }
}

/// The observation moves strictly forward in source sequence and never back in time.
pub open spec fn history_ok(o: PaperOrder, obs: ExchangeObservation) -> bool {
    &&& !(o.last_source_sequence matches Some(v) && obs.source_sequence <= v)
    &&& !(o.last_event_time_ns matches Some(v) && obs.event_time_ns < v)
    &&& !(o.last_received_time_ns matches Some(v) && obs.received_time_ns < v)
}

pub fn validate_source_history(o: &PaperOrder, obs: &ExchangeObservation) -> (r: Result<(), Error>)
    ensures
        r is Ok <==> history_ok(*o, *obs),
        r is Err ==> r == Err::<(), Error>(Error::SourceHistory),
{
    let seq_bad = match o.last_source_sequence {
        Some(v) => obs.source_sequence <= v,
        None => false,
    };
    let event_bad = match o.last_event_time_ns {
        Some(v) => obs.event_time_ns < v,
        None => false,
    };
    let received_bad = match o.last_received_time_ns {
        Some(v) => obs.received_time_ns < v,
        None => false,
    };
    if seq_bad || event_bad || received_bad {
        Err(Error::SourceHistory)
    } else {
        Ok(())
    }
}

/// The exchange order id an order carries once `observed` has been seen, or
/// why it cannot: an id once bound never changes.
pub open spec fn bound_id(current: Option<String>, observed: Option<String>) -> Result<Option<String>, Error> {
    match observed {
        Some(v) => if !text_ok(v@) {
            Err(Error::Identifier)
        } else {
            match current {
                Some(e) => if e@ != v@ { Err(Error::ExchangeOrderIdentity) } else { Ok(current) },
                None => Ok(observed),
            }
        },
        None => Ok(current),
    }
}

/// Binds the order to the exchange order id an observation names.
pub fn bind_exchange_order_id(o: &mut PaperOrder, observed: &Option<String>) -> (r: Result<(), Error>)
    ensures
        match bound_id(old(o).exchange_order_id, *observed) {
            Ok(x) => r is Ok && *final(o) == (PaperOrder { exchange_order_id: x, ..*old(o) }),
            Err(e) => r == Err::<(), Error>(e) && *final(o) == *old(o),
        },
{
    match observed {
        Some(v) => {
            validate_text(v.as_str())?;
            let fresh = match &o.exchange_order_id {
                Some(e) => {
                    if !e.eq(v) {
                        return Err(Error::ExchangeOrderIdentity);
                    }
                    false
                },
                None => true,
            };
            if fresh {
                o.exchange_order_id = Some(v.clone());
            }
            Ok(())
        },
        None => Ok(()),
    }
}

/// `o` with the last observed source position replaced.
pub open spec fn with_history(o: PaperOrder, sequence: Option<u64>, event_ns: Option<i64>, received_ns: Option<i64>) -> PaperOrder {
    PaperOrder { last_source_sequence: sequence, last_event_time_ns: event_ns, last_received_time_ns: received_ns, ..o }
}

/// `o` once bound to the exchange id the observation names.
pub open spec fn bound_order(o: PaperOrder, obs: ExchangeObservation) -> PaperOrder {
    PaperOrder { exchange_order_id: bound_id(o.exchange_order_id, obs.exchange_order_id)->Ok_0, ..o }
}

/// Why an order refuses an observation, if it does.
pub open spec fn observe_error(o: PaperOrder, obs: ExchangeObservation) -> Option<Error> {
    match observation_check(obs) {
        Err(e) => Some(e),
        Ok(_) => if !history_ok(o, obs) {
            Some(Error::SourceHistory)
        } else {
            match bound_id(o.exchange_order_id, obs.exchange_order_id) {
                Err(e) => Some(e),
                Ok(_) => step_error(bound_order(o, obs), obs),
            }
        },
    }
}

pub open spec fn handoff_digest(h: Option<ReconciliationHandoff>) -> [u8; 32] {
    h->0.source_observation_digest
}

/// Applies one observation to one order: timestamps, source history and
/// exchange identity are checked, the event is applied, and the order's
/// source position advances. A refused observation leaves the order as it was.
pub fn observe_order(o: &mut PaperOrder, obs: &ExchangeObservation) -> (r: Result<Option<ReconciliationHandoff>, Error>)
    ensures
        match r {
            Err(e) => observe_error(*old(o), *obs) == Some(e) && *final(o) == *old(o),
            Ok(h) => {
                &&& observe_error(*old(o), *obs) is None
                &&& stepped(bound_order(*old(o), *obs), *obs, handoff_digest(h),
                    with_history(*final(o), old(o).last_source_sequence, old(o).last_event_time_ns, old(o).last_received_time_ns), h)
                &&& (h matches Some(x) ==> x.source_observation_digest@ == observation_digest_spec(*obs))
                &&& final(o).last_source_sequence == Some(obs.source_sequence)
                &&& final(o).last_event_time_ns == Some(obs.event_time_ns)
                &&& final(o).last_received_time_ns == Some(obs.received_time_ns)
            },
        },
{
    validate_observation(obs)?;
    validate_source_history(o, obs)?;
    let previous = o.exchange_order_id.clone();
    bind_exchange_order_id(o, &obs.exchange_order_id)?;
    let digest = observation_digest(obs);
    match apply_observation(o, obs, digest) {
        Ok(h) => {
            o.last_source_sequence = Some(obs.source_sequence);
            o.last_event_time_ns = Some(obs.event_time_ns);
            o.last_received_time_ns = Some(obs.received_time_ns);
            Ok(h)
        },
        Err(e) => {
            o.exchange_order_id = previous;
            Err(e)
        },
    }
}

/// Sum of the quantities of a run of fills.
pub open spec fn filled_quantity(fs: Seq<MatchFill>) -> int
    decreases fs.len(),
{
    if fs.len() == 0 { 0 } else { filled_quantity(fs.drop_last()) + fs.last().quantity_micros }
}

/// Sum of the considerations of a run of fills.
pub open spec fn filled_consideration(fs: Seq<MatchFill>) -> int
    decreases fs.len(),
{
    if fs.len() == 0 { 0 } else { filled_consideration(fs.drop_last()) + fs.last().consideration_micros }
}

/// Sum of the fees of a run of fills.
pub open spec fn filled_fee(fs: Seq<MatchFill>) -> int
    decreases fs.len(),
{
    if fs.len() == 0 { 0 } else { filled_fee(fs.drop_last()) + fs.last().fee_micros }
}

/// The cumulative totals of an order are the sums of its fills, never exceed
/// what was placed, one hand-off stands for each fill, and a fully matched
/// order has filled exactly its quantity.
pub open spec fn fills_consistent(o: PaperOrder) -> bool {
    &&& o.cumulative_quantity_micros == filled_quantity(o.fills@)
    &&& o.cumulative_consideration_micros == filled_consideration(o.fills@)
    &&& o.cumulative_fee_micros == filled_fee(o.fills@)
    &&& 0 <= o.cumulative_quantity_micros <= o.placement.quantity_micros
    &&& 0 <= o.cumulative_fee_micros <= o.placement.max_fee_micros
    &&& o.handoffs@.len() == o.fills@.len()
    &&& (o.state is FullyMatched ==> o.cumulative_quantity_micros == o.placement.quantity_micros)
}

/// Every accepted observation keeps an order's fills consistent: cumulative
/// quantity, consideration and fee stay the exact sums of the recorded fills,
/// the quantity never exceeds the order, and each fill has its hand-off.
pub proof fn law_observation_keeps_fills_consistent(
    o: PaperOrder,
    obs: ExchangeObservation,
    digest: [u8; 32],
    n: PaperOrder,
    h: Option<ReconciliationHandoff>,
)
    requires
        fills_consistent(o),
        observe_error(o, obs) is None,
        stepped(bound_order(o, obs), obs, digest, n, h),
    ensures
        fills_consistent(n),
{
    let b = bound_order(o, obs);
    match obs.event {
        ExchangeEvent::Match { fill, fully_matched } => {
            assert(n.fills@.drop_last() =~= o.fills@);
        },
        _ => {},
    }
}

#[derive(Clone, Copy, Debug, PartialEq, Eq, Structural)]
pub enum ExecutionStatus {
    Applied,
    Denied,
}

#[derive(Clone, Copy, Debug, PartialEq, Eq, Structural)]
pub enum ExecutionReason {
    SubmissionAccepted,
    CancelRequested,
    ObservationApplied,
    PolicyDigestInvalid,
    PolicyNotPermitted,
    PolicySubjectMismatch,
    PolicyOrderMismatch,
    AuthorizationExpired,
    AuthorizationNotYetValid,
    PolicyAlreadyUsed,
    OrderAlreadyExists,
    OrderUnknown,
    OrderTerminal,
    CancelAlreadyPending,
}

#[derive(Clone, Copy, Debug, PartialEq, Eq, Structural)]
pub enum PolicyStatus {
    Permit,
    Deny,
}

#[derive(Clone, Copy, Debug, PartialEq, Eq, Structural)]
pub enum PolicyAction {
    Place,
    Cancel,
}

#[derive(Clone, Copy, Debug, PartialEq, Eq, Structural)]
pub enum PolicyReason {
    PlacementPermitted,
    CancelPermitted,
    Other,
}

/// What the execution engine reads of an intent-policy decision; whether the
/// decision's own digest checks out is established where the decision was read.
#[derive(Clone, Copy, Debug, PartialEq, Eq)]
pub struct PolicyView {
    pub digest_valid: bool,
    pub status: PolicyStatus,
    pub action: PolicyAction,
    pub reason: PolicyReason,
    pub subject_digest: Option<[u8; 32]>,
    pub order_id: Option<RiskOrderId>,
    pub decision_digest: [u8; 32],
}

/// The permit's decision digest is among those already spent.
pub open spec fn permit_spent(used: Seq<[u8; 32]>, d: [u8; 32]) -> bool {
    exists|i: int| 0 <= i < used.len() && (#[trigger] used[i])@ == d@
}

fn spent(used: &Vec<[u8; 32]>, d: &[u8; 32]) -> (r: bool)
    ensures
        r == permit_spent(used@, *d),
{
    let mut i: usize = 0;
    while i < used.len()
        invariant
            i <= used@.len(),
            forall|k: int| 0 <= k < i ==> (#[trigger] used@[k])@ != d@,
        decreases used@.len() - i,
    {
        if digest_eq(&used[i], d) {
            return true;
        }
        i = i + 1;
    }
    false
}

fn same_digest(a: &Option<[u8; 32]>, b: &[u8; 32]) -> (r: bool)
    ensures
        r == (a matches Some(x) && x@ == b@),
{
    match a {
        Some(x) => digest_eq(x, b),
        None => false,
    }
}

/// Why a submission is denied, if it is: the policy must be authentic, a
/// placement permit for exactly this placement and order, unexpired, unspent,
/// and the order must be new.
pub open spec fn submission_denial(
    policy: PolicyView,
    placement_digest: [u8; 32],
    order_id: RiskOrderId,
    evaluated_at_ns: i64,
    expires_at_ns: i64,
    at: i64,
    used: Seq<[u8; 32]>,
    order_exists: bool,
) -> Option<ExecutionReason> {
    if !policy.digest_valid {
        Some(ExecutionReason::PolicyDigestInvalid)
    } else if policy.status != PolicyStatus::Permit || policy.action != PolicyAction::Place
        || policy.reason != PolicyReason::PlacementPermitted {
        Some(ExecutionReason::PolicyNotPermitted)
    } else if !(policy.subject_digest matches Some(x) && x@ == placement_digest@) {
        Some(ExecutionReason::PolicySubjectMismatch)
    } else if !(policy.order_id matches Some(x) && x.0@ == order_id.0@) {
        Some(ExecutionReason::PolicyOrderMismatch)
    } else if at < evaluated_at_ns {
        Some(ExecutionReason::AuthorizationNotYetValid)
    } else if at >= expires_at_ns {
        Some(ExecutionReason::AuthorizationExpired)
    } else if permit_spent(used, policy.decision_digest) {
        Some(ExecutionReason::PolicyAlreadyUsed)
    } else if order_exists {
        Some(ExecutionReason::OrderAlreadyExists)
    } else {
        None
    }
}

pub fn submission_check(
    policy: &PolicyView,
    placement_digest: &[u8; 32],
    order_id: RiskOrderId,
    evaluated_at_ns: i64,
    expires_at_ns: i64,
    at: i64,
    used: &Vec<[u8; 32]>,
    order_exists: bool,
) -> (r: Option<ExecutionReason>)
    ensures
        r == submission_denial(*policy, *placement_digest, order_id, evaluated_at_ns, expires_at_ns, at, used@, order_exists),
{
    if !policy.digest_valid {
        Some(ExecutionReason::PolicyDigestInvalid)
    } else if policy.status != PolicyStatus::Permit || policy.action != PolicyAction::Place
        || policy.reason != PolicyReason::PlacementPermitted {
        Some(ExecutionReason::PolicyNotPermitted)
    } else if !same_digest(&policy.subject_digest, placement_digest) {
        Some(ExecutionReason::PolicySubjectMismatch)
    } else if !(match policy.order_id { Some(x) => digest_eq(&x.0, &order_id.0), None => false }) {
        Some(ExecutionReason::PolicyOrderMismatch)
    } else if at < evaluated_at_ns {
        Some(ExecutionReason::AuthorizationNotYetValid)
    } else if at >= expires_at_ns {
        Some(ExecutionReason::AuthorizationExpired)
    } else if spent(used, &policy.decision_digest) {
        Some(ExecutionReason::PolicyAlreadyUsed)
    } else if order_exists {
        Some(ExecutionReason::OrderAlreadyExists)
    } else {
        None
    }
}

/// Why a cancel request is denied, if it is: the policy must be an authentic,
/// unspent cancel permit for exactly this request, and the order must be known,
/// live and not already being canceled.
pub open spec fn cancel_denial(
    policy: PolicyView,
    request_digest: [u8; 32],
    order_id: RiskOrderId,
    used: Seq<[u8; 32]>,
    state: Option<OrderState>,
) -> Option<ExecutionReason> {
    if !policy.digest_valid {
        Some(ExecutionReason::PolicyDigestInvalid)
    } else if policy.status != PolicyStatus::Permit || policy.action != PolicyAction::Cancel
        || policy.reason != PolicyReason::CancelPermitted {
        Some(ExecutionReason::PolicyNotPermitted)
    } else if !(policy.subject_digest matches Some(x) && x@ == request_digest@) {
        Some(ExecutionReason::PolicySubjectMismatch)
    } else if !(policy.order_id matches Some(x) && x.0@ == order_id.0@) {
        Some(ExecutionReason::PolicyOrderMismatch)
    } else if permit_spent(used, policy.decision_digest) {
        Some(ExecutionReason::PolicyAlreadyUsed)
    } else {
        match state {
            None => Some(ExecutionReason::OrderUnknown),
            Some(s) => if s.terminal() {
                Some(ExecutionReason::OrderTerminal)
            } else if s is CancelPending {
                Some(ExecutionReason::CancelAlreadyPending)
            } else {
                None
            },
        }
    }
}

pub fn cancel_check(
    policy: &PolicyView,
    request_digest: &[u8; 32],
    order_id: RiskOrderId,
    used: &Vec<[u8; 32]>,
    state: Option<&OrderState>,
) -> (r: Option<ExecutionReason>)
    ensures
        r == cancel_denial(*policy, *request_digest, order_id, used@, match state { Some(s) => Some(*s), None => None }),
{
    if !policy.digest_valid {
        Some(ExecutionReason::PolicyDigestInvalid)
    } else if policy.status != PolicyStatus::Permit || policy.action != PolicyAction::Cancel
        || policy.reason != PolicyReason::CancelPermitted {
        Some(ExecutionReason::PolicyNotPermitted)
    } else if !same_digest(&policy.subject_digest, request_digest) {
        Some(ExecutionReason::PolicySubjectMismatch)
    } else if !(match policy.order_id { Some(x) => digest_eq(&x.0, &order_id.0), None => false }) {
        Some(ExecutionReason::PolicyOrderMismatch)
    } else if spent(used, &policy.decision_digest) {
        Some(ExecutionReason::PolicyAlreadyUsed)
    } else {
        match state {
            None => Some(ExecutionReason::OrderUnknown),
            Some(s) => if s.is_terminal() {
                Some(ExecutionReason::OrderTerminal)
            } else if matches!(s, OrderState::CancelPending { .. }) {
                Some(ExecutionReason::CancelAlreadyPending)
            } else {
                None
            },
        }
    }
}

/// Marks an accepted cancel request on a live order: it waits for the
/// exchange, remembering the state it resumes in if the cancel is rejected.
pub fn begin_cancel(o: &mut PaperOrder) -> (r: Result<(), Error>)
    ensures
        match old(o).state {
            OrderState::Active(a) => r is Ok && *final(o) == with_state(*old(o), OrderState::CancelPending { resume: a }),
            _ => r == Err::<(), Error>(Error::LifecycleTransition) && *final(o) == *old(o),
        },
{
    match &o.state {
        OrderState::Active(a) => {
            let resume = *a;
            o.state = OrderState::CancelPending { resume };
            Ok(())
        },
        _ => Err(Error::LifecycleTransition),
    }
}

/// A freshly submitted order, bound to the permit that authorized it, with
/// nothing yet observed.
pub fn submitted_order(placement: OrderExposure, local_submission_id: &str, policy_digest: [u8; 32]) -> (r: Result<PaperOrder, Error>)
    ensures
        match r {
            Ok(o) => {
                &&& text_ok(local_submission_id@)
                &&& o.placement == placement
                &&& o.local_submission_id@ == local_submission_id@
                &&& o.placement_policy_digest == policy_digest
                &&& o.exchange_order_id is None
                &&& o.state == OrderState::Active(ActiveState::Submitted)
                &&& o.last_source_sequence is None && o.last_event_time_ns is None && o.last_received_time_ns is None
                &&& o.cumulative_quantity_micros == 0 && o.cumulative_consideration_micros == 0 && o.cumulative_fee_micros == 0
                &&& o.fills@.len() == 0 && o.handoffs@.len() == 0
                &&& (placement.quantity_micros >= 0 && placement.max_fee_micros >= 0 ==> fills_consistent(o))
            },
            Err(e) => !text_ok(local_submission_id@) && e == Error::Identifier,
        },
{
    validate_text(local_submission_id)?;
    Ok(PaperOrder {
        placement,
        local_submission_id: local_submission_id.to_string(),
        placement_policy_digest: policy_digest,
        exchange_order_id: None,
        state: OrderState::Active(ActiveState::Submitted),
        last_source_sequence: None,
        last_event_time_ns: None,
        last_received_time_ns: None,
        cumulative_quantity_micros: 0,
        cumulative_consideration_micros: 0,
        cumulative_fee_micros: 0,
        fills: Vec::new(),
        handoffs: Vec::new(),
    })
}
} // verus!
