//! The paper trading pipeline's provenance rules at the accounting boundary:
//! capital is reserved only for an approved candidate and exactly what it may
//! cost, a confirmation must match the registered hand-off it settles, and a
//! reservation is released only once nothing can still fill against it. Also
//! what the placement policy is told after an observation, and how a fill's
//! hand-off comes to await its ledger confirmation.

use vstd::prelude::*;
use vstd::string::StringSliceAdditionalSpecFns;
use crate::digest::{blake3_digest, blake3_hash, digest_eq, push_bytes};
use crate::execution::{copy_handoff, ExchangeEvent, ExecutionCommandId, OrderState, ReconciliationHandoff, TradeIntent};
use crate::execution_engine::types::{handoff_registration_digest, handoff_registration_digest_spec};
use crate::risk::frame::{full_buy_cost, full_buy_cost_spec};
use crate::risk::types::{OrderExposure, OrderSide, RiskOrderId, TokenKey};

verus! {

#[derive(Clone, Copy, Debug, PartialEq, Eq)]
pub struct PipelineCommandId(pub [u8; 32]);

#[derive(Clone, Copy, Debug, PartialEq, Eq, Structural)]
pub enum FaultPoint {
    BeforeRisk,
    BeforeExecution,
    BeforeHandoff,
    IntegrityHalt,
}

#[derive(Clone, Copy, Debug, PartialEq, Eq, Structural)]
pub enum PipelineStage {
    Accounting,
    Reconciliation,
    Risk,
    Policy,
    Execution,
    Handoff,
    Fault,
}

#[derive(Clone, Debug, PartialEq, Eq)]
pub enum Error {
    Config,
    Timestamp,
    CommandBound,
    Json(String),
    Version(u16),
    IdempotencyConflict,
    ClockRegression,
    Boundary,
    Reservation,
    Handoff,
    InjectedIntegrity,
    Accounting(String),
    Reconciliation(String),
    Risk(String),
    Policy(String),
    Execution(String),
    Overflow,
    Halted(String),
}

/// The ledger commands whose provenance the pipeline checks before the ledger
/// applies them; every other ledger command passes unchecked.
#[derive(Clone, Debug)]
pub enum LedgerCommandView {
    ReserveCollateral { reservation_id: [u8; 32], amount_micros: i128 },
    ReserveToken { reservation_id: [u8; 32], token: TokenKey, quantity_micros: i128 },
    ConfirmBuy {
        command_id: [u8; 32],
        reservation_id: [u8; 32],
        token: TokenKey,
        quantity_micros: i128,
        consideration_micros: i128,
        fee_micros: i128,
    },
    ConfirmSell {
        command_id: [u8; 32],
        reservation_id: [u8; 32],
        quantity_micros: i128,
        gross_proceeds_micros: i128,
        fee_micros: i128,
    },
    ReleaseReservation { reservation_id: [u8; 32] },
    Other,
}

/// A candidate the risk engine approved, by the order it would place.
#[derive(Clone, Debug)]
pub struct ApprovedCandidate {
    pub order_id: RiskOrderId,
    pub candidate: OrderExposure,
    pub decision_digest: [u8; 32],
}

/// A registered hand-off awaiting its ledger confirmation.
#[derive(Clone, Debug)]
pub struct PendingHandoff {
    pub ledger_command_id: [u8; 32],
    pub order_id: RiskOrderId,
    pub intent: TradeIntent,
}

/// The cash a buy candidate may consume, or a refusal on overflow.
pub fn reservation_cost(o: &OrderExposure) -> (r: Result<i128, Error>)
    ensures
        match full_buy_cost_spec(*o) {
            Some(c) => r == Ok::<i128, Error>(c as i128),
            None => r == Err::<i128, Error>(Error::Overflow),
        },
{
    match full_buy_cost(o) {
        Ok(c) => Ok(c),
        Err(_) => Err(Error::Overflow),
    }
}

/// The approved candidate for the order `id` names; the latest one where a
/// list names it twice.
pub open spec fn approved_for(cands: Seq<ApprovedCandidate>, id: Seq<u8>) -> Option<OrderExposure>
    decreases cands.len(),
{
    if cands.len() == 0 {
        None
    } else if cands.last().order_id.0@ == id {
        Some(cands.last().candidate)
    } else {
        approved_for(cands.drop_last(), id)
    }
}

/// The pending hand-off a ledger command settles.
pub open spec fn pending_for(ps: Seq<PendingHandoff>, command_id: Seq<u8>) -> Option<PendingHandoff>
    decreases ps.len(),
{
    if ps.len() == 0 {
        None
    } else if ps.last().ledger_command_id@ == command_id {
        Some(ps.last())
    } else {
        pending_for(ps.drop_last(), command_id)
    }
}

/// Some pending hand-off still belongs to the order.
pub open spec fn order_pending(ps: Seq<PendingHandoff>, order: Seq<u8>) -> bool {
    exists|i: int| 0 <= i < ps.len() && (#[trigger] ps[i]).order_id.0@ == order
}

pub open spec fn same_token(a: TokenKey, b: TokenKey) -> bool {
    a.condition_id@ == b.condition_id@ && a.token_id@ == b.token_id@
}

/// The verdict on one ledger command at the accounting boundary.
pub open spec fn boundary_check(
    cands: Seq<ApprovedCandidate>,
    pending: Seq<PendingHandoff>,
    cmd: LedgerCommandView,
    order_state: Option<OrderState>,
) -> Result<(), Error> {
    match cmd {
        LedgerCommandView::ReserveCollateral { reservation_id, amount_micros } => match approved_for(cands, reservation_id@) {
            None => Err(Error::Reservation),
            Some(c) => if c.side != OrderSide::Buy {
                Err(Error::Reservation)
            } else {
                match full_buy_cost_spec(c) {
                    None => Err(Error::Overflow),
                    Some(cost) => if cost != amount_micros { Err(Error::Reservation) } else { Ok(()) },
                }
            },
        },
        LedgerCommandView::ReserveToken { reservation_id, token, quantity_micros } => match approved_for(cands, reservation_id@) {
            None => Err(Error::Reservation),
            Some(c) => if c.side != OrderSide::Sell || !same_token(c.token, token) || c.quantity_micros != quantity_micros {
                Err(Error::Reservation)
            } else {
                Ok(())
            },
        },
        LedgerCommandView::ConfirmBuy { command_id, reservation_id, token, quantity_micros, consideration_micros, fee_micros } => {
            match pending_for(pending, command_id@) {
                None => Err(Error::Handoff),
                Some(p) => if p.order_id.0@ != reservation_id@ || p.intent.side != OrderSide::Buy || !same_token(p.intent.token, token)
                    || p.intent.quantity_micros != quantity_micros || p.intent.consideration_micros != consideration_micros
                    || p.intent.fee_micros != fee_micros {
                    Err(Error::Handoff)
                } else {
                    Ok(())
                },
            }
        },
        LedgerCommandView::ConfirmSell { command_id, reservation_id, quantity_micros, gross_proceeds_micros, fee_micros } => {
            match pending_for(pending, command_id@) {
                None => Err(Error::Handoff),
                Some(p) => if p.order_id.0@ != reservation_id@ || p.intent.side != OrderSide::Sell
                    || p.intent.quantity_micros != quantity_micros || p.intent.consideration_micros != gross_proceeds_micros
                    || p.intent.fee_micros != fee_micros {
                    Err(Error::Handoff)
                } else {
                    Ok(())
                },
            }
        },
        LedgerCommandView::ReleaseReservation { reservation_id } => {
            if order_pending(pending, reservation_id@) {
                Err(Error::Handoff)
            } else if order_state matches Some(s) && !(s is Canceled || s is Rejected) {
                Err(Error::Reservation)
            } else {
                Ok(())
            }
        },
        LedgerCommandView::Other => Ok(()),
    }
}

fn find_approved(cands: &Vec<ApprovedCandidate>, id: &[u8; 32]) -> (r: Option<usize>)
    ensures
        match r {
            Some(i) => i < cands@.len() && approved_for(cands@, id@) == Some(cands@[i as int].candidate),
            None => approved_for(cands@, id@) is None,
        },
{
    let mut i: usize = cands.len();
    assert(cands@.take(cands@.len() as int) =~= cands@);
    while i > 0
        invariant
            i <= cands@.len(),
            approved_for(cands@, id@) == approved_for(cands@.take(i as int), id@),
        decreases i,
    {
        let ghost t = cands@.take(i as int);
        assert(t.drop_last() =~= cands@.take(i - 1));
        assert(t.last() == cands@[i - 1]);
        if digest_eq(&cands[i - 1].order_id.0, id) {
            return Some(i - 1);
        }
        i = i - 1;
    }
    None
}

fn find_pending(ps: &Vec<PendingHandoff>, command_id: &[u8; 32]) -> (r: Option<usize>)
    ensures
        match r {
            Some(i) => i < ps@.len() && pending_for(ps@, command_id@) == Some(ps@[i as int]),
            None => pending_for(ps@, command_id@) is None,
        },
{
    let mut i: usize = ps.len();
    assert(ps@.take(ps@.len() as int) =~= ps@);
    while i > 0
        invariant
            i <= ps@.len(),
            pending_for(ps@, command_id@) == pending_for(ps@.take(i as int), command_id@),
        decreases i,
    {
        let ghost t = ps@.take(i as int);
        assert(t.drop_last() =~= ps@.take(i - 1));
        assert(t.last() == ps@[i - 1]);
        if digest_eq(&ps[i - 1].ledger_command_id, command_id) {
            return Some(i - 1);
        }
        i = i - 1;
    }
    None
}

fn any_pending(ps: &Vec<PendingHandoff>, order: &[u8; 32]) -> (r: bool)
    ensures
        r == order_pending(ps@, order@),
{
    let mut i: usize = 0;
    while i < ps.len()
        invariant
            i <= ps@.len(),
            forall|k: int| 0 <= k < i ==> (#[trigger] ps@[k]).order_id.0@ != order@,
        decreases ps@.len() - i,
    {
        if digest_eq(&ps[i].order_id.0, order) {
            return true;
        }
        i = i + 1;
    }
    false
}

fn tokens_equal(a: &TokenKey, b: &TokenKey) -> (r: bool)
    ensures
        r == same_token(*a, *b),
{
    a.condition_id.eq(&b.condition_id) && a.token_id.eq(&b.token_id)
}

/// Checks one ledger command against the approved candidates, the pending
/// hand-offs, and the state of the order a release names.
#[verifier::rlimit(40)]
pub fn validate_accounting_boundary(
    cands: &Vec<ApprovedCandidate>,
    pending: &Vec<PendingHandoff>,
    cmd: &LedgerCommandView,
    order_state: Option<&OrderState>,
) -> (r: Result<(), Error>)
    ensures
        r == boundary_check(cands@, pending@, *cmd, match order_state { Some(s) => Some(*s), None => None }),
{
    proof {
        assert(cands@.take(cands@.len() as int) =~= cands@);
    }
    match cmd {
        LedgerCommandView::ReserveCollateral { reservation_id, amount_micros } => match find_approved(cands, reservation_id) {
            None => Err(Error::Reservation),
            Some(i) => {
                let c = &cands[i].candidate;
                if c.side != OrderSide::Buy {
                    return Err(Error::Reservation);
                }
                let cost = reservation_cost(c)?;
                if cost != *amount_micros {
                    Err(Error::Reservation)
                } else {
                    Ok(())
                }
            },
        },
        LedgerCommandView::ReserveToken { reservation_id, token, quantity_micros } => match find_approved(cands, reservation_id) {
            None => Err(Error::Reservation),
            Some(i) => {
                let c = &cands[i].candidate;
                if c.side != OrderSide::Sell || !tokens_equal(&c.token, token) || c.quantity_micros != *quantity_micros {
                    Err(Error::Reservation)
                } else {
                    Ok(())
                }
            },
        },
        LedgerCommandView::ConfirmBuy { command_id, reservation_id, token, quantity_micros, consideration_micros, fee_micros } => {
            match find_pending(pending, command_id) {
                None => Err(Error::Handoff),
                Some(i) => {
                    let p = &pending[i];
                    if !digest_eq(&p.order_id.0, reservation_id) || p.intent.side != OrderSide::Buy
                        || !tokens_equal(&p.intent.token, token) || p.intent.quantity_micros != *quantity_micros
                        || p.intent.consideration_micros != *consideration_micros || p.intent.fee_micros != *fee_micros {
                        Err(Error::Handoff)
                    } else {
                        Ok(())
                    }
                },
            }
        },
        LedgerCommandView::ConfirmSell { command_id, reservation_id, quantity_micros, gross_proceeds_micros, fee_micros } => {
            match find_pending(pending, command_id) {
                None => Err(Error::Handoff),
                Some(i) => {
                    let p = &pending[i];
                    if !digest_eq(&p.order_id.0, reservation_id) || p.intent.side != OrderSide::Sell
                        || p.intent.quantity_micros != *quantity_micros || p.intent.consideration_micros != *gross_proceeds_micros
                        || p.intent.fee_micros != *fee_micros {
                        Err(Error::Handoff)
                    } else {
                        Ok(())
                    }
                },
            }
        },
        LedgerCommandView::ReleaseReservation { reservation_id } => {
            if any_pending(pending, reservation_id) {
                return Err(Error::Handoff);
            }
            match order_state {
                Some(s) => match s {
                    OrderState::Canceled | OrderState::Rejected { .. } => Ok(()),
                    _ => Err(Error::Reservation),
                },
                None => Ok(()),
            }
        },
        LedgerCommandView::Other => Ok(()),
    }
}

/// A reservation of cash is admitted only for an approved buy candidate and
/// for exactly its full cost.
pub proof fn law_collateral_matches_candidate(
    cands: Seq<ApprovedCandidate>,
    pending: Seq<PendingHandoff>,
    reservation_id: [u8; 32],
    amount_micros: i128,
    order_state: Option<OrderState>,
)
    requires
        boundary_check(cands, pending, LedgerCommandView::ReserveCollateral { reservation_id, amount_micros }, order_state) is Ok,
    ensures
        approved_for(cands, reservation_id@) matches Some(c) && c.side == OrderSide::Buy
            && full_buy_cost_spec(c) == Some(amount_micros as int),
{
}

/// A reservation is never released while a hand-off against its order is
/// pending, nor while its order may still fill.
pub proof fn law_release_only_when_settled(
    cands: Seq<ApprovedCandidate>,
    pending: Seq<PendingHandoff>,
    reservation_id: [u8; 32],
    order_state: Option<OrderState>,
)
    requires
        boundary_check(cands, pending, LedgerCommandView::ReleaseReservation { reservation_id }, order_state) is Ok,
    ensures
        !order_pending(pending, reservation_id@),
        order_state matches Some(s) ==> (s is Canceled || s is Rejected),
{
}

/// Counters and digests that summarize the pipeline.
#[derive(Clone, Debug, PartialEq, Eq)]
pub struct RuntimeSnapshot {
    pub accepted_commands: u64,
    pub ledger_digest: [u8; 32],
    pub reconciliation_digest: [u8; 32],
    pub risk_digest: [u8; 32],
    pub policy_digest: [u8; 32],
    pub execution_digest: [u8; 32],
    pub reserved_order_count: usize,
    pub registered_handoff_count: usize,
    pub pending_handoff_count: usize,
    pub armed_fault: Option<FaultPoint>,
    pub last_recorded_at_ns: Option<i64>,
    pub halted: bool,
    pub halt_reason: Option<String>,
    pub digest: [u8; 32],
}

/// Fires the armed fault if it is the one expected here; it fires once.
pub fn consume_fault(armed: &mut Option<FaultPoint>, expected: FaultPoint) -> (fired: bool)
    ensures
        fired == (*old(armed) == Some(expected)),
        *final(armed) == (if fired { None } else { *old(armed) }),
{
    if *armed == Some(expected) {
        *armed = None;
        true
    } else {
        false
    }
}

/// What the placement policy is told after an observation of an order.
#[derive(Clone, Copy, Debug, PartialEq, Eq)]
pub enum PolicySync {
    MarkDelayed { order_id: RiskOrderId, release_at_ns: i64, uncancellable_until_ns: i64 },
    MarkLive { order_id: RiskOrderId },
    MarkTerminal { order_id: RiskOrderId },
}

/// The policy is told of a delay window, of the order going live, or of the
/// order having ended; of nothing else, and nothing where the decision names
/// no order.
pub open spec fn policy_sync_spec(event: ExchangeEvent, order_id: Option<RiskOrderId>, state: Option<OrderState>) -> Option<PolicySync> {
    match order_id {
        None => None,
        Some(id) => match event {
            ExchangeEvent::Delayed { release_at_ns, uncancellable_until_ns } => Some(PolicySync::MarkDelayed {
                order_id: id,
                release_at_ns,
                uncancellable_until_ns,
            }),
            ExchangeEvent::Live => Some(PolicySync::MarkLive { order_id: id }),
            _ => if state matches Some(s) && s.terminal() {
                Some(PolicySync::MarkTerminal { order_id: id })
            } else {
                None
            },
        },
    }
}

/// What to tell the policy after an observation decided `order_id` into `state`.
pub fn policy_sync(event: &ExchangeEvent, order_id: Option<RiskOrderId>, state: Option<&OrderState>) -> (r: Option<PolicySync>)
    ensures
        r == policy_sync_spec(*event, order_id, match state { Some(s) => Some(*s), None => None }),
{
    let id = match order_id {
        None => {
            return None;
        },
        Some(id) => id,
    };
    match event {
        ExchangeEvent::Delayed { release_at_ns, uncancellable_until_ns } => Some(PolicySync::MarkDelayed {
            order_id: id,
            release_at_ns: *release_at_ns,
            uncancellable_until_ns: *uncancellable_until_ns,
        }),
        ExchangeEvent::Live => Some(PolicySync::MarkLive { order_id: id }),
        _ => match state {
            Some(s) => if s.is_terminal() {
                Some(PolicySync::MarkTerminal { order_id: id })
            } else {
                None
            },
            None => None,
        },
    }
}

/// Domain of the id of a policy command derived from an execution decision.
pub open spec fn policy_sync_domain() -> Seq<u8> {
    "paper-runtime-policy-sync-v1".spec_bytes()
}

/// The id of the policy command that follows execution command `id` with
/// decision digest `decision`.
pub open spec fn derived_policy_id_spec(id: ExecutionCommandId, decision: [u8; 32]) -> Seq<u8> {
    blake3_hash(policy_sync_domain() + id.0@ + decision@)
}

pub fn derived_policy_id(id: ExecutionCommandId, decision: [u8; 32]) -> (r: [u8; 32])
    ensures
        r@ == derived_policy_id_spec(id, decision),
{
    let mut bytes: Vec<u8> = Vec::new();
    push_bytes(&mut bytes, "paper-runtime-policy-sync-v1".as_bytes());
    push_bytes(&mut bytes, id.0.as_slice());
    push_bytes(&mut bytes, decision.as_slice());
    proof {
        reveal_strlit("paper-runtime-policy-sync-v1");
    }
    assert(bytes@ =~= policy_sync_domain() + id.0@ + decision@);
    blake3_digest(bytes.as_slice())
}

/// Some pending hand-off already settles this ledger command.
pub open spec fn ledger_pending(ps: Seq<PendingHandoff>, ledger_command_id: Seq<u8>) -> bool {
    exists|i: int| 0 <= i < ps.len() && (#[trigger] ps[i]).ledger_command_id@ == ledger_command_id
}

/// This digest is already registered.
pub open spec fn digest_registered(ds: Seq<[u8; 32]>, d: Seq<u8>) -> bool {
    exists|i: int| 0 <= i < ds.len() && (#[trigger] ds[i])@ == d
}

/// Registers hand-off `index` of order `order_id` (`handoffs` are the order's
/// hand-offs, `None` where there is no such order): its digest must be new
/// and no pending hand-off may settle its ledger command already; it then
/// awaits its ledger confirmation.
#[verifier::rlimit(40)]
pub fn register_pending_handoff(
    order_id: RiskOrderId,
    index: usize,
    handoffs: Option<&Vec<ReconciliationHandoff>>,
    registered: &mut Vec<[u8; 32]>,
    pending: &mut Vec<PendingHandoff>,
) -> (r: Result<(), Error>)
    ensures
        match handoffs {
            Some(hs) if index < hs@.len() => {
                let h = hs@[index as int];
                let d = handoff_registration_digest_spec(h);
                if digest_registered(old(registered)@, d) || ledger_pending(old(pending)@, h.intent.ledger_command_id@) {
                    r == Err::<(), Error>(Error::Handoff) && final(registered)@ == old(registered)@
                        && final(pending)@ == old(pending)@
                } else {
                    &&& r is Ok
                    &&& final(registered)@.len() == old(registered)@.len() + 1
                    &&& final(registered)@.drop_last() == old(registered)@
                    &&& final(registered)@.last()@ == d
                    &&& final(pending)@.len() == old(pending)@.len() + 1
                    &&& final(pending)@.drop_last() == old(pending)@
                    &&& final(pending)@.last().ledger_command_id == h.intent.ledger_command_id
                    &&& final(pending)@.last().order_id == order_id
                    &&& final(pending)@.last().intent == h.intent
                }
            },
            _ => r == Err::<(), Error>(Error::Handoff) && final(registered)@ == old(registered)@
                && final(pending)@ == old(pending)@,
        },
{
    let h = match handoffs {
        Some(hs) => {
            if index >= hs.len() {
                return Err(Error::Handoff);
            }
            &hs[index]
        },
        None => {
            return Err(Error::Handoff);
        },
    };
    let digest = handoff_registration_digest(h);
    let mut i: usize = 0;
    while i < registered.len()
        invariant
            i <= registered@.len(),
            registered@ == old(registered)@,
            digest@ == handoff_registration_digest_spec(*h),
            handoffs matches Some(v) && index < v@.len() && *h == v@[index as int],
            forall|k: int| 0 <= k < i ==> (#[trigger] registered@[k])@ != digest@,
        decreases registered@.len() - i,
    {
        if digest_eq(&registered[i], &digest) {
            assert(registered@[i as int]@ == digest@);
            return Err(Error::Handoff);
        }
        i = i + 1;
    }
    let mut j: usize = 0;
    while j < pending.len()
        invariant
            j <= pending@.len(),
            pending@ == old(pending)@,
            registered@ == old(registered)@,
            digest@ == handoff_registration_digest_spec(*h),
            !digest_registered(old(registered)@, digest@),
            handoffs matches Some(v) && index < v@.len() && *h == v@[index as int],
            forall|k: int| 0 <= k < j ==> (#[trigger] pending@[k]).ledger_command_id@ != h.intent.ledger_command_id@,
        decreases pending@.len() - j,
    {
        if digest_eq(&pending[j].ledger_command_id, &h.intent.ledger_command_id) {
            assert(pending@[j as int].ledger_command_id@ == h.intent.ledger_command_id@);
            return Err(Error::Handoff);
        }
        j = j + 1;
    }
    let copy = copy_handoff(h);
    registered.push(digest);
    pending.push(PendingHandoff { ledger_command_id: copy.intent.ledger_command_id, order_id, intent: copy.intent });
    Ok(())
}

/// No order id is tracked twice.
pub open spec fn tracked_unique(os: Seq<RiskOrderId>) -> bool {
    forall|i: int, j: int| 0 <= i < j < os.len() ==> (#[trigger] os[i]).0@ != (#[trigger] os[j]).0@
}

/// Where the order `id` is tracked, if it is.
pub open spec fn tracked_at(os: Seq<RiskOrderId>, id: Seq<u8>) -> Option<int> {
    if exists|i: int| 0 <= i < os.len() && (#[trigger] os[i]).0@ == id {
        Some(choose|i: int| 0 <= i < os.len() && (#[trigger] os[i]).0@ == id)
    } else {
        None
    }
}

/// Keeps the set of orders with an active capital reservation current after a
/// ledger command: `reservation_id` is the reservation the command touched, if
/// any, and `active` whether the ledger now holds it as active. The order of a
/// reservation shares its id.
#[verifier::rlimit(40)]
pub fn refresh_reservation_tracking(reserved: &mut Vec<RiskOrderId>, reservation_id: Option<[u8; 32]>, active: bool)
    requires
        tracked_unique(old(reserved)@),
    ensures
        tracked_unique(final(reserved)@),
        match reservation_id {
            None => final(reserved)@ == old(reserved)@,
            Some(id) => match tracked_at(old(reserved)@, id@) {
                Some(k) => if active {
                    final(reserved)@ == old(reserved)@
                } else {
                    final(reserved)@ == old(reserved)@.remove(k)
                },
                None => if active {
                    final(reserved)@ == old(reserved)@.push(RiskOrderId(id))
                } else {
                    final(reserved)@ == old(reserved)@
                },
            },
        },
{
    let id = match reservation_id {
        None => {
            return;
        },
        Some(id) => id,
    };
    let mut i: usize = 0;
    while i < reserved.len()
        invariant
            i <= reserved@.len(),
            reserved@ == old(reserved)@,
            reservation_id == Some(id),
            tracked_unique(reserved@),
            forall|k: int| 0 <= k < i ==> (#[trigger] reserved@[k]).0@ != id@,
        decreases reserved@.len() - i,
    {
        if digest_eq(&reserved[i].0, &id) {
            proof {
                let os = reserved@;
                assert(os[i as int].0@ == id@);
                let c = choose|c: int| 0 <= c < os.len() && (#[trigger] os[c]).0@ == id@;
                if c != i as int {
                    if c < i as int {
                        assert(os[c].0@ != id@);
                    } else {
                        assert(os[i as int].0@ != os[c].0@);
                    }
                }
                assert(tracked_at(os, id@) == Some(i as int));
                assert(tracked_at(old(reserved)@, id@) == Some(i as int));
            }
            if !active {
                let ghost before = reserved@;
                reserved.remove(i);
                proof {
                    let os = reserved@;
                    assert(os =~= before.remove(i as int));
                    assert forall|a: int, b: int| 0 <= a < b < os.len() implies (#[trigger] os[a]).0@ != (#[trigger] os[b]).0@ by {
                        let a2 = if a < i { a } else { a + 1 };
                        let b2 = if b < i { b } else { b + 1 };
                        assert(os[a] == before[a2]);
                        assert(os[b] == before[b2]);
                    }
                    assert(os == old(reserved)@.remove(i as int));
                }
            } else {
                assert(reserved@ == old(reserved)@);
            }
            return;
        }
        i = i + 1;
    }
    assert(tracked_at(reserved@, id@) is None);
    if active {
        let ghost before = reserved@;
        reserved.push(RiskOrderId(id));
        proof {
            let os = reserved@;
            assert forall|a: int, b: int| 0 <= a < b < os.len() implies (#[trigger] os[a]).0@ != (#[trigger] os[b]).0@ by {
                assert(os[a] == before[a]);
                if b < before.len() {
                    assert(os[b] == before[b]);
                }
            }
        }
    }
}

/// A confirmed fill settles the pending hand-off of its ledger command.
pub fn settle_pending(pending: &mut Vec<PendingHandoff>, ledger_command_id: &[u8; 32])
    ensures
        final(pending)@ == old(pending)@.filter(|p: PendingHandoff| p.ledger_command_id@ != ledger_command_id@),
{
    let ghost start = pending@;
    let mut kept: Vec<PendingHandoff> = Vec::new();
    let mut i: usize = 0;
    while i < pending.len()
        invariant
            i <= pending@.len(),
            pending@ == start,
            kept@ == start.take(i as int).filter(|p: PendingHandoff| p.ledger_command_id@ != ledger_command_id@),
        decreases pending@.len() - i,
    {
        let ghost t = start.take(i as int + 1);
        assert(t.drop_last() =~= start.take(i as int));
        reveal(Seq::filter);
        if !digest_eq(&pending[i].ledger_command_id, ledger_command_id) {
            let p = &pending[i];
            kept.push(PendingHandoff {
                ledger_command_id: p.ledger_command_id,
                order_id: p.order_id,
                intent: copy_handoff_intent(&p.intent),
            });
        }
        i = i + 1;
    }
    assert(start.take(start.len() as int) =~= start);
    *pending = kept;
}

fn copy_handoff_intent(t: &TradeIntent) -> (r: TradeIntent)
    ensures
        r == *t,
{
    TradeIntent {
        intent_id: t.intent_id,
        trade_id: t.trade_id.clone(),
        order_id: t.order_id.clone(),
        token: t.token.duplicate(),
        side: t.side,
        quantity_micros: t.quantity_micros,
        consideration_micros: t.consideration_micros,
        fee_micros: t.fee_micros,
        ledger_command_id: t.ledger_command_id,
    }
}
} // verus!
