//! Settlement of staged pairs: which hand-offs are registered, which confirmed
//! fills have been posted for each leg, when a complete pair may be locked and
//! when a pair's reservations may be released.

use vstd::prelude::*;
use crate::digest::digest_eq;
use crate::execution::{copy_handoff, ReconciliationHandoff, TradeIntent};
use crate::execution_engine::types::{handoff_registration_digest, handoff_registration_digest_spec};
use crate::paired_policy::types::PairStageId;
use crate::risk::arith::fits;
use crate::risk::types::{OrderExposure, OrderSide};

verus! {

#[derive(Clone, Copy, Debug, PartialEq, Eq)]
pub struct PairedSettlementCommandId(pub [u8; 32]);

#[derive(Clone, Copy, Debug, PartialEq, Eq, Structural)]
pub enum PairedSettlementStage {
    Execution,
    Handoff,
    Settlement,
    Accounting,
    Reconciliation,
    PairLock,
    Finalization,
}

/// Counters and digests that summarize a settlement runtime.
#[derive(Clone, Debug, PartialEq, Eq)]
pub struct PairedSettlementSnapshot {
    pub accepted_commands: u64,
    pub execution_digest: [u8; 32],
    pub reconciliation_digest: [u8; 32],
    pub registered_handoffs: usize,
    pub posted_handoffs: usize,
    pub finalized_stages: usize,
    pub locked_stages: usize,
    pub reconciliation_current: bool,
    pub halted: bool,
    pub halt_reason: Option<String>,
    pub digest: [u8; 32],
}

#[derive(Clone, Debug, PartialEq, Eq)]
pub enum Error {
    Config,
    Timestamp,
    CommandBound,
    Json(String),
    Version(u16),
    IdempotencyConflict,
    Boundary,
    Handoff,
    Confirmation,
    ReconciliationNotCurrent,
    UnsafeFinalization,
    PairLock,
    Execution(String),
    Reconciliation(String),
    Accounting(String),
    Overflow,
    Halted(String),
}

/// A hand-off registered for settlement, and whether its confirmed fill has
/// been posted to the ledger.
#[derive(Clone, Debug)]
pub struct RegisteredHandoff {
    pub stage_id: PairStageId,
    pub leg_index: u8,
    pub handoff_index: usize,
    pub handoff_digest: [u8; 32],
    pub intent: TradeIntent,
    pub posted: bool,
}

/// The posted quantities of the two legs of pair `stage`, summed in order, or
/// why they cannot be: a posted record names no leg of a pair, or a sum leaves
/// the 128-bit range.
pub open spec fn posted_fold(hs: Seq<RegisteredHandoff>, stage: Seq<u8>) -> Result<(int, int), Error>
    decreases hs.len(),
{
    if hs.len() == 0 {
        Ok((0, 0))
    } else {
        match posted_fold(hs.drop_last(), stage) {
            Err(e) => Err(e),
            Ok(sums) => {
                let h = hs.last();
                let q = h.intent.quantity_micros as int;
                if h.stage_id.0@ != stage || !h.posted {
                    Ok(sums)
                } else if h.leg_index > 1 {
                    Err(Error::PairLock)
                } else if h.leg_index == 0 {
                    if fits(sums.0 + q) { Ok((sums.0 + q, sums.1)) } else { Err(Error::Overflow) }
                } else {
                    if fits(sums.1 + q) { Ok((sums.0, sums.1 + q)) } else { Err(Error::Overflow) }
                }
            },
        }
    }
}

proof fn lemma_fold_fits(hs: Seq<RegisteredHandoff>, stage: Seq<u8>)
    ensures
        posted_fold(hs, stage) matches Ok(sums) ==> fits(sums.0) && fits(sums.1),
    decreases hs.len(),
{
    if hs.len() > 0 {
        lemma_fold_fits(hs.drop_last(), stage);
    }
}

proof fn lemma_fold_error_sticks(hs: Seq<RegisteredHandoff>, stage: Seq<u8>, i: int, e: Error)
    requires
        0 <= i <= hs.len(),
        posted_fold(hs.take(i), stage) == Err::<(int, int), Error>(e),
    ensures
        posted_fold(hs, stage) == Err::<(int, int), Error>(e),
    decreases hs.len() - i,
{
    if i < hs.len() {
        let t = hs.take(i + 1);
        assert(t.drop_last() =~= hs.take(i));
        lemma_fold_error_sticks(hs, stage, i + 1, e);
    } else {
        assert(hs.take(i) =~= hs);
    }
}

/// Sums the posted quantities of both legs of one pair.
pub fn posted_quantities(hs: &Vec<RegisteredHandoff>, stage: &PairStageId) -> (r: Result<(i128, i128), Error>)
    ensures
        match posted_fold(hs@, stage.0@) {
            Ok(sums) => r == Ok::<(i128, i128), Error>((sums.0 as i128, sums.1 as i128)),
            Err(e) => r == Err::<(i128, i128), Error>(e),
        },
{
    let mut first: i128 = 0;
    let mut second: i128 = 0;
    let mut i: usize = 0;
    assert(hs@.take(0) =~= Seq::<RegisteredHandoff>::empty());
    while i < hs.len()
        invariant
            i <= hs@.len(),
            posted_fold(hs@.take(i as int), stage.0@) == Ok::<(int, int), Error>((first as int, second as int)),
        decreases hs@.len() - i,
    {
        let ghost t = hs@.take(i + 1);
        assert(t.drop_last() =~= hs@.take(i as int));
        assert(t.last() == hs@[i as int]);
        let h = &hs[i];
        if crate::digest::digest_eq(&h.stage_id.0, &stage.0) && h.posted {
            if h.leg_index > 1 {
                proof {
                    lemma_fold_error_sticks(hs@, stage.0@, i + 1, Error::PairLock);
                }
                return Err(Error::PairLock);
            }
            if h.leg_index == 0 {
                match first.checked_add(h.intent.quantity_micros) {
                    Some(v) => {
                        first = v;
                    },
                    None => {
                        proof {
                            lemma_fold_error_sticks(hs@, stage.0@, i + 1, Error::Overflow);
                        }
                        return Err(Error::Overflow);
                    },
                }
            } else {
                match second.checked_add(h.intent.quantity_micros) {
                    Some(v) => {
                        second = v;
                    },
                    None => {
                        proof {
                            lemma_fold_error_sticks(hs@, stage.0@, i + 1, Error::Overflow);
                        }
                        return Err(Error::Overflow);
                    },
                }
            }
        }
        i = i + 1;
    }
    assert(hs@.take(hs@.len() as int) =~= hs@);
    Ok((first, second))
}

/// The two legs form a complete set: both buys of the two distinct outcome
/// tokens of one condition.
pub open spec fn complete_pair(up: OrderExposure, down: OrderExposure) -> bool {
    &&& up.side == OrderSide::Buy
    &&& down.side == OrderSide::Buy
    &&& up.token.condition_id@ == down.token.condition_id@
    &&& up.token.token_id@ != down.token.token_id@
}

/// The verdict on locking `quantity` of a complete pair.
pub open spec fn pair_lock_check(
    quantity: i128,
    already_locked: bool,
    reconciliation_current: bool,
    legs: Option<(OrderExposure, OrderExposure)>,
    hs: Seq<RegisteredHandoff>,
    stage: Seq<u8>,
) -> Result<(), Error> {
    if quantity <= 0 || already_locked || !reconciliation_current {
        Err(Error::PairLock)
    } else {
        match legs {
            None => Err(Error::PairLock),
            Some(l) => if !complete_pair(l.0, l.1) {
                Err(Error::PairLock)
            } else {
                match posted_fold(hs, stage) {
                    Err(e) => Err(e),
                    Ok(sums) => if sums.0 < quantity || sums.1 < quantity { Err(Error::PairLock) } else { Ok(()) },
                }
            },
        }
    }
}

/// Checks that `quantity` of a complete pair may be locked: the pair is two
/// buys of the two tokens of one condition, not yet locked, reconciliation is
/// current, and each leg has at least `quantity` posted.
pub fn pair_lock_allowed(
    quantity: i128,
    already_locked: bool,
    reconciliation_current: bool,
    legs: Option<(&OrderExposure, &OrderExposure)>,
    hs: &Vec<RegisteredHandoff>,
    stage: &PairStageId,
) -> (r: Result<(), Error>)
    ensures
        r == pair_lock_check(quantity, already_locked, reconciliation_current,
            match legs { Some(l) => Some((*l.0, *l.1)), None => None }, hs@, stage.0@),
{
    if quantity <= 0 || already_locked || !reconciliation_current {
        return Err(Error::PairLock);
    }
    let (up, down) = match legs {
        None => {
            return Err(Error::PairLock);
        },
        Some(l) => l,
    };
    if up.side != OrderSide::Buy || down.side != OrderSide::Buy || !up.token.condition_id.eq(&down.token.condition_id)
        || up.token.token_id.eq(&down.token.token_id) {
        return Err(Error::PairLock);
    }
    proof {
        lemma_fold_fits(hs@, stage.0@);
    }
    let (a, b) = posted_quantities(hs, stage)?;
    if a < quantity || b < quantity {
        Err(Error::PairLock)
    } else {
        Ok(())
    }
}

/// A complete pair is locked only for a quantity that both legs have posted.
pub proof fn law_lock_needs_both_legs_posted(
    quantity: i128,
    already_locked: bool,
    reconciliation_current: bool,
    legs: Option<(OrderExposure, OrderExposure)>,
    hs: Seq<RegisteredHandoff>,
    stage: Seq<u8>,
)
    requires
        pair_lock_check(quantity, already_locked, reconciliation_current, legs, hs, stage) is Ok,
    ensures
        posted_fold(hs, stage) matches Ok(sums) && sums.0 >= quantity > 0 && sums.1 >= quantity,
        !already_locked && reconciliation_current,
{
}

/// A hand-off that is not posted, or is registered under another pair, counts
/// toward no leg of `stage`.
pub open spec fn foreign_to(h: RegisteredHandoff, stage: Seq<u8>) -> bool {
    h.stage_id.0@ != stage || !h.posted
}

/// Inserting a hand-off that is unposted or of another pair anywhere in the
/// registered hand-offs leaves the posted sums of `stage` as they were.
pub proof fn law_foreign_handoffs_do_not_count(hs1: Seq<RegisteredHandoff>, h: RegisteredHandoff, hs2: Seq<RegisteredHandoff>, stage: Seq<u8>)
    requires
        foreign_to(h, stage),
    ensures
        posted_fold(hs1 + seq![h] + hs2, stage) == posted_fold(hs1 + hs2, stage),
    decreases hs2.len(),
{
    if hs2.len() == 0 {
        assert((hs1 + seq![h] + hs2).drop_last() =~= hs1);
        assert(hs1 + hs2 =~= hs1);
    } else {
        law_foreign_handoffs_do_not_count(hs1, h, hs2.drop_last(), stage);
        assert((hs1 + seq![h] + hs2).drop_last() =~= hs1 + seq![h] + hs2.drop_last());
        assert((hs1 + hs2).drop_last() =~= hs1 + hs2.drop_last());
        assert((hs1 + seq![h] + hs2).last() == hs2.last());
        assert((hs1 + hs2).last() == hs2.last());
    }
}

/// Where no hand-off is posted under `stage`, both of its legs have posted
/// nothing.
pub proof fn law_nothing_posted_sums_to_zero(hs: Seq<RegisteredHandoff>, stage: Seq<u8>)
    requires
        forall|i: int| 0 <= i < hs.len() ==> foreign_to(#[trigger] hs[i], stage),
    ensures
        posted_fold(hs, stage) == Ok::<(int, int), Error>((0, 0)),
    decreases hs.len(),
{
    if hs.len() > 0 {
        assert forall|i: int| 0 <= i < hs.drop_last().len() implies foreign_to(#[trigger] hs.drop_last()[i], stage) by {
            assert(hs.drop_last()[i] == hs[i]);
        }
        law_nothing_posted_sums_to_zero(hs.drop_last(), stage);
        assert(foreign_to(hs[hs.len() - 1], stage));
    }
}

/// A pair lock's verdict depends only on the hand-offs posted under the locked
/// pair: inserting any unposted hand-off or one of another pair never changes
/// it, and a pair with nothing posted under it is never locked.
pub proof fn law_lock_counts_only_its_own_pair(
    quantity: i128,
    already_locked: bool,
    reconciliation_current: bool,
    legs: Option<(OrderExposure, OrderExposure)>,
    hs1: Seq<RegisteredHandoff>,
    h: RegisteredHandoff,
    hs2: Seq<RegisteredHandoff>,
    stage: Seq<u8>,
)
    ensures
        foreign_to(h, stage) ==> pair_lock_check(quantity, already_locked, reconciliation_current, legs, hs1 + seq![h] + hs2,
            stage) == pair_lock_check(quantity, already_locked, reconciliation_current, legs, hs1 + hs2, stage),
        (forall|i: int| 0 <= i < hs1.len() ==> foreign_to(#[trigger] hs1[i], stage)) ==> pair_lock_check(quantity,
            already_locked, reconciliation_current, legs, hs1, stage) is Err,
{
    if foreign_to(h, stage) {
        law_foreign_handoffs_do_not_count(hs1, h, hs2, stage);
    }
    if forall|i: int| 0 <= i < hs1.len() ==> foreign_to(#[trigger] hs1[i], stage) {
        law_nothing_posted_sums_to_zero(hs1, stage);
    }
}

/// Longest transaction hash a confirmation may carry, in UTF-8 bytes.
pub const MAX_CONFIRMATION_BYTES: usize = 512;

/// Two intents carry the same values.
pub open spec fn same_intent(a: TradeIntent, b: TradeIntent) -> bool {
    &&& a.intent_id@ == b.intent_id@
    &&& a.trade_id@ == b.trade_id@
    &&& a.order_id@ == b.order_id@
    &&& a.token.condition_id@ == b.token.condition_id@
    &&& a.token.token_id@ == b.token.token_id@
    &&& a.side == b.side
    &&& a.quantity_micros == b.quantity_micros
    &&& a.consideration_micros == b.consideration_micros
    &&& a.fee_micros == b.fee_micros
    &&& a.ledger_command_id@ == b.ledger_command_id@
}

fn intents_equal(a: &TradeIntent, b: &TradeIntent) -> (r: bool)
    ensures
        r == same_intent(*a, *b),
{
    digest_eq(&a.intent_id, &b.intent_id) && a.trade_id.eq(&b.trade_id) && a.order_id.eq(&b.order_id)
        && a.token.condition_id.eq(&b.token.condition_id) && a.token.token_id.eq(&b.token.token_id) && a.side == b.side
        && a.quantity_micros == b.quantity_micros && a.consideration_micros == b.consideration_micros
        && a.fee_micros == b.fee_micros && digest_eq(&a.ledger_command_id, &b.ledger_command_id)
}

/// Some registered hand-off already uses this ledger command id or digest.
pub open spec fn already_registered(hs: Seq<RegisteredHandoff>, ledger_command_id: [u8; 32], digest: Seq<u8>) -> bool {
    exists|i: int| 0 <= i < hs.len() && ((#[trigger] hs[i]).intent.ledger_command_id@ == ledger_command_id@
        || hs[i].handoff_digest@ == digest)
}

/// `r` is the registration of hand-off `index` of leg `leg_index` of pair `stage_id`.
pub open spec fn registration_of(r: RegisteredHandoff, stage_id: PairStageId, leg_index: u8, index: usize, h: ReconciliationHandoff) -> bool {
    &&& r.stage_id == stage_id
    &&& r.leg_index == leg_index
    &&& r.handoff_index == index
    &&& r.handoff_digest@ == handoff_registration_digest_spec(h)
    &&& same_intent(r.intent, h.intent)
    &&& !r.posted
}

/// Registers hand-off `index` of a leg's order for settlement: the hand-off
/// must exist (`handoffs` are the leg order's hand-offs, `None` where the leg
/// has no order), and neither its ledger command id nor its digest may have
/// been registered before. Nothing is posted yet.
pub fn register_handoff(
    stage_id: PairStageId,
    leg_index: u8,
    index: usize,
    handoffs: Option<&Vec<ReconciliationHandoff>>,
    registered: &mut Vec<RegisteredHandoff>,
) -> (r: Result<(), Error>)
    ensures
        match handoffs {
            Some(hs) if index < hs@.len() => {
                let h = hs@[index as int];
                if already_registered(old(registered)@, h.intent.ledger_command_id, handoff_registration_digest_spec(h)) {
                    r == Err::<(), Error>(Error::Handoff) && final(registered)@ == old(registered)@
                } else {
                    &&& r is Ok
                    &&& final(registered)@.len() == old(registered)@.len() + 1
                    &&& final(registered)@.drop_last() == old(registered)@
                    &&& registration_of(final(registered)@.last(), stage_id, leg_index, index, h)
                }
            },
            _ => r == Err::<(), Error>(Error::Handoff) && final(registered)@ == old(registered)@,
        },
{
    let h = match handoffs {
        Some(hs) => {
            if index >= hs.len() {
                return Err(Error::Handoff);
            }
            &hs[index]
        },
        None => {
            return Err(Error::Handoff);
        },
    };
    let digest = handoff_registration_digest(h);
    let mut i: usize = 0;
    while i < registered.len()
        invariant
            i <= registered@.len(),
            registered@ == old(registered)@,
            digest@ == handoff_registration_digest_spec(*h),
            handoffs matches Some(v) && index < v@.len() && *h == v@[index as int],
            forall|k: int| 0 <= k < i ==> !((#[trigger] registered@[k]).intent.ledger_command_id@ == h.intent.ledger_command_id@
                || registered@[k].handoff_digest@ == digest@),
        decreases registered@.len() - i,
    {
        if digest_eq(&registered[i].intent.ledger_command_id, &h.intent.ledger_command_id)
            || digest_eq(&registered[i].handoff_digest, &digest) {
            proof {
                let k = i as int;
                assert(registered@[k] == old(registered)@[k]);
                assert(already_registered(old(registered)@, h.intent.ledger_command_id, handoff_registration_digest_spec(*h)));
            }
            return Err(Error::Handoff);
        }
        i = i + 1;
    }
    let copy = copy_handoff(h);
    registered.push(RegisteredHandoff {
        stage_id,
        leg_index,
        handoff_index: index,
        handoff_digest: digest,
        intent: copy.intent,
        posted: false,
    });
    Ok(())
}

/// A trade observation is admitted only for a registered trade and not from
/// the future.
pub open spec fn trade_observation_verdict(hs: Seq<RegisteredHandoff>, trade_id: Seq<char>, updated_at_ns: i64, at: i64) -> Result<(), Error> {
    if updated_at_ns > at || !(exists|i: int| 0 <= i < hs.len() && (#[trigger] hs[i]).intent.trade_id@ == trade_id) {
        Err(Error::Boundary)
    } else {
        Ok(())
    }
}

pub fn trade_observation_check(hs: &Vec<RegisteredHandoff>, trade_id: &String, updated_at_ns: i64, at: i64) -> (r: Result<(), Error>)
    ensures
        r == trade_observation_verdict(hs@, trade_id@, updated_at_ns, at),
{
    if updated_at_ns > at {
        return Err(Error::Boundary);
    }
    let mut i: usize = 0;
    while i < hs.len()
        invariant
            i <= hs@.len(),
            updated_at_ns <= at,
            forall|k: int| 0 <= k < i ==> (#[trigger] hs@[k]).intent.trade_id@ != trade_id@,
        decreases hs@.len() - i,
    {
        if hs[i].intent.trade_id.eq(trade_id) {
            assert(hs@[i as int].intent.trade_id@ == trade_id@);
            return Ok(());
        }
        i = i + 1;
    }
    Err(Error::Boundary)
}

/// What reconciliation holds of one trade.
#[derive(Clone, Debug)]
pub struct TradeView {
    pub terminal: bool,
    pub confirmed: bool,
    pub transaction_hash: Option<String>,
}

/// A present transaction hash of at most `MAX_CONFIRMATION_BYTES` UTF-8 bytes.
pub open spec fn confirmation_ok(h: Option<String>) -> bool {
    h matches Some(s) && s@.len() > 0 && (vstd::utf8::encode_utf8(s@).len() as usize) <= MAX_CONFIRMATION_BYTES
}

/// The verdict on posting the confirmed fill of a registered hand-off: it is
/// registered and not yet posted, its trade is confirmed with a transaction
/// hash, its leg has an order, and that order still holds the same intent at
/// the registered position. On success, the confirmation to post.
pub open spec fn post_verdict(
    record: Option<RegisteredHandoff>,
    trade: Option<TradeView>,
    order_handoffs: Option<Seq<ReconciliationHandoff>>,
) -> Result<Seq<char>, Error> {
    match record {
        None => Err(Error::Handoff),
        Some(rec) => if rec.posted {
            Err(Error::Confirmation)
        } else {
            match trade {
                None => Err(Error::Confirmation),
                Some(t) => if !t.confirmed || !confirmation_ok(t.transaction_hash) {
                    Err(Error::Confirmation)
                } else {
                    match order_handoffs {
                        None => Err(Error::Boundary),
                        Some(hs) => if rec.handoff_index < hs.len() && same_intent(hs[rec.handoff_index as int].intent, rec.intent) {
                            Ok(t.transaction_hash->0@)
                        } else {
                            Err(Error::Handoff)
                        },
                    }
                },
            }
        },
    }
}

pub fn post_check(
    record: Option<&RegisteredHandoff>,
    trade: Option<&TradeView>,
    order_handoffs: Option<&Vec<ReconciliationHandoff>>,
) -> (r: Result<String, Error>)
    ensures
        match post_verdict(match record { Some(x) => Some(*x), None => None },
            match trade { Some(x) => Some(*x), None => None },
            match order_handoffs { Some(x) => Some(x@), None => None }) {
            Ok(c) => r matches Ok(x) && x@ == c,
            Err(e) => r == Err::<String, Error>(e),
        },
{
    let rec = match record {
        None => {
            return Err(Error::Handoff);
        },
        Some(x) => x,
    };
    if rec.posted {
        return Err(Error::Confirmation);
    }
    let t = match trade {
        None => {
            return Err(Error::Confirmation);
        },
        Some(x) => x,
    };
    if !t.confirmed {
        return Err(Error::Confirmation);
    }
    let hash = match &t.transaction_hash {
        None => {
            return Err(Error::Confirmation);
        },
        Some(h) => h,
    };
    let hs = hash.as_str();
    if hs.is_empty() || hs.len() > MAX_CONFIRMATION_BYTES {
        return Err(Error::Confirmation);
    }
    let handoffs = match order_handoffs {
        None => {
            return Err(Error::Boundary);
        },
        Some(x) => x,
    };
    if rec.handoff_index < handoffs.len() && intents_equal(&handoffs[rec.handoff_index].intent, &rec.intent) {
        Ok(hash.clone())
    } else {
        Err(Error::Handoff)
    }
}

/// What settlement holds of one hand-off of a leg: whether it is registered,
/// what reconciliation holds of its trade, and whether its fill was posted.
#[derive(Clone, Debug)]
pub struct HandoffSettlementView {
    pub registered: bool,
    pub trade: Option<TradeView>,
    pub posted: bool,
}

/// One leg of a pair at finalization: whether its order is terminal, and its
/// hand-offs in order.
#[derive(Clone, Debug)]
pub struct LegSettlementView {
    pub terminal: bool,
    pub handoffs: Vec<HandoffSettlementView>,
}

/// A hand-off is settled: registered, its trade terminal, and posted exactly
/// when the trade was confirmed.
pub open spec fn handoff_settled(h: HandoffSettlementView) -> bool {
    &&& h.registered
    &&& h.trade matches Some(t)
    &&& t.terminal
    &&& t.confirmed == h.posted
}

/// A leg is settled: its order exists and is terminal, and every hand-off is settled.
pub open spec fn leg_settled(l: Option<LegSettlementView>) -> bool {
    &&& l matches Some(x)
    &&& x.terminal
    &&& forall|i: int| 0 <= i < x.handoffs@.len() ==> handoff_settled(#[trigger] x.handoffs@[i])
}

/// The indices, in order, of the reservations that are still active, or
/// `None` where one of them is unknown.
pub open spec fn active_reservations(statuses: [Option<bool>; 2]) -> Option<Seq<usize>> {
    if statuses[0] is None || statuses[1] is None {
        None
    } else {
        Some((if statuses[0]->0 { seq![0usize] } else { Seq::empty() })
            + (if statuses[1]->0 { seq![1usize] } else { Seq::empty() }))
    }
}

/// The verdict on finalizing a pair: it is not finalized yet and
/// reconciliation is current, the pair is staged, both legs are settled, and
/// both reservations are known. On success, the reservations to release.
pub open spec fn finalization_verdict(
    already_finalized: bool,
    reconciliation_current: bool,
    staged: bool,
    legs: [Option<LegSettlementView>; 2],
    reservations: [Option<bool>; 2],
) -> Result<Seq<usize>, Error> {
    if already_finalized || !reconciliation_current {
        Err(Error::ReconciliationNotCurrent)
    } else if !staged || !leg_settled(legs[0]) || !leg_settled(legs[1]) {
        Err(Error::UnsafeFinalization)
    } else {
        match active_reservations(reservations) {
            None => Err(Error::UnsafeFinalization),
            Some(r) => Ok(r),
        }
    }
}

fn leg_is_settled(l: &Option<LegSettlementView>) -> (r: bool)
    ensures
        r == leg_settled(*l),
{
    let x = match l {
        None => {
            return false;
        },
        Some(x) => x,
    };
    if !x.terminal {
        return false;
    }
    let mut i: usize = 0;
    while i < x.handoffs.len()
        invariant
            i <= x.handoffs@.len(),
            *l == Some(*x),
            x.terminal,
            forall|k: int| 0 <= k < i ==> handoff_settled(#[trigger] x.handoffs@[k]),
        decreases x.handoffs@.len() - i,
    {
        let h = &x.handoffs[i];
        let ok = match &h.trade {
            Some(t) => h.registered && t.terminal && t.confirmed == h.posted,
            None => false,
        };
        if !ok {
            assert(!handoff_settled(x.handoffs@[i as int]));
            return false;
        }
        i = i + 1;
    }
    true
}

/// Checks that a pair may be finalized and lists the reservations to release.
pub fn finalization_check(
    already_finalized: bool,
    reconciliation_current: bool,
    staged: bool,
    legs: &[Option<LegSettlementView>; 2],
    reservations: [Option<bool>; 2],
) -> (r: Result<Vec<usize>, Error>)
    ensures
        match finalization_verdict(already_finalized, reconciliation_current, staged, *legs, reservations) {
            Ok(s) => r matches Ok(v) && v@ == s,
            Err(e) => r == Err::<Vec<usize>, Error>(e),
        },
{
    if already_finalized || !reconciliation_current {
        return Err(Error::ReconciliationNotCurrent);
    }
    if !staged || !leg_is_settled(&legs[0]) || !leg_is_settled(&legs[1]) {
        return Err(Error::UnsafeFinalization);
    }
    let (a, b) = match (reservations[0], reservations[1]) {
        (Some(a), Some(b)) => (a, b),
        _ => {
            return Err(Error::UnsafeFinalization);
        },
    };
    let mut out: Vec<usize> = Vec::new();
    if a {
        out.push(0);
    }
    if b {
        out.push(1);
    }
    assert(out@ =~= (if a { seq![0usize] } else { Seq::<usize>::empty() }) + (if b { seq![1usize] } else { Seq::<usize>::empty() }));
    Ok(out)
}

/// A pair is finalized only when both legs are terminal and every hand-off of
/// both legs is registered, its trade terminal, and posted exactly when it was
/// confirmed; only reservations still active are released.
pub proof fn law_finalization_needs_settled_legs(
    already_finalized: bool,
    reconciliation_current: bool,
    staged: bool,
    legs: [Option<LegSettlementView>; 2],
    reservations: [Option<bool>; 2],
)
    requires
        finalization_verdict(already_finalized, reconciliation_current, staged, legs, reservations) is Ok,
    ensures
        !already_finalized && reconciliation_current && staged,
        forall|leg: int| 0 <= leg < 2 ==> #[trigger] leg_settled(legs[leg]),
        forall|i: int| 0 <= i < finalization_verdict(already_finalized, reconciliation_current, staged, legs, reservations)->Ok_0.len()
            ==> reservations[#[trigger] finalization_verdict(already_finalized, reconciliation_current, staged, legs, reservations)->Ok_0[i] as int] == Some(true),
{
    let s = finalization_verdict(already_finalized, reconciliation_current, staged, legs, reservations)->Ok_0;
    assert forall|leg: int| 0 <= leg < 2 implies #[trigger] leg_settled(legs[leg]) by {
        if leg == 0 {
        } else {
        }
    }
}

/// A fill is posted only once, and only for a confirmed trade whose order
/// still holds the registered intent.
pub proof fn law_posting_needs_confirmation(
    record: Option<RegisteredHandoff>,
    trade: Option<TradeView>,
    order_handoffs: Option<Seq<ReconciliationHandoff>>,
)
    requires
        post_verdict(record, trade, order_handoffs) is Ok,
    ensures
        record matches Some(rec) && !rec.posted,
        trade matches Some(t) && t.confirmed && confirmation_ok(t.transaction_hash),
        order_handoffs matches Some(hs) && record->0.handoff_index < hs.len()
            && same_intent(hs[record->0.handoff_index as int].intent, record->0.intent),
{
}
} // verus!
