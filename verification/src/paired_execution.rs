//! Paper execution of the legs of a staged pair: a leg is submitted only
//! under its own current, authentic, unspent permit while its reservation is
//! active; cancels respect an order's uncancellable window; and every exchange
//! event is mirrored as the lifecycle state the placement policy records.
//! `PairedPaperExecution` composes these with the placement policy it owns.

use vstd::prelude::*;
use vstd::string::StringSliceAdditionalSpecFns;
use crate::digest::{blake3_digest, blake3_hash, digest_domain, digest_eq, domain_digest, le_bytes, push_bytes, push_le};
use crate::digest::{zero32, Canonical};
use crate::execution::{
    bound_order, copy_handoff, copy_state, history_ok, observation_digest_spec, observe_error, observe_order, stepped,
    submitted_order, text_ok,
    validate_source_history, with_history, with_state, ActiveState, Error as PaperError, ExchangeEvent,
    ExchangeObservation, OrderState, PaperOrder, ReconciliationHandoff,
};
use crate::execution_engine::types::{handoff_registration_digest, handoff_registration_digest_spec};
use crate::paired_policy::book::{
    apply_spec as policy_apply_spec, copy_decision as copy_policy_decision, lookup, staging_recorded, PairedPlacementPolicy,
    PairedPolicyCommand, PolicyBook,
};
use crate::paired_policy::types::{
    permit_digest_spec, Error as PolicyError, LegState, ModeObservation, PairPermit, PairPermitId, PairPolicyRecord,
    PairStageId, PairedPolicyCommandId, PairedPolicyDecision, PairedPolicyStatus, StageView,
};
use crate::risk::types::OrderExposure;

verus! {

#[derive(Clone, Copy, Debug, PartialEq, Eq)]
pub struct PairedExecutionCommandId(pub [u8; 32]);

#[derive(Clone, Copy, Debug, PartialEq, Eq, Structural)]
pub enum PairedExecutionStatus {
    Applied,
    Denied,
}

#[derive(Clone, Copy, Debug, PartialEq, Eq, Structural)]
pub enum PairedExecutionReason {
    PolicyApplied,
    SubmissionAccepted,
    PermitInvalid,
    PermitExpired,
    PermitAlreadyUsed,
    OrderAlreadyExists,
    CancelRequested,
    CancelDenied,
    ObservationApplied,
}

/// The permit digest is among those already spent.
pub open spec fn permit_used(used: Seq<[u8; 32]>, d: [u8; 32]) -> bool {
    exists|i: int| 0 <= i < used.len() && (#[trigger] used[i])@ == d@
}

/// Why a submission under `permit` is denied, if it is: the permit must be
/// authentic, unspent, the very permit the policy recorded for a leg that is
/// authorized and whose reservation is active, used within its validity, and
/// the leg must not have an order yet.
pub open spec fn submit_denial(
    permit: PairPermit,
    used: Seq<[u8; 32]>,
    record: Option<PairPolicyRecord>,
    reservation_active: bool,
    at: i64,
    order_exists: bool,
) -> Option<PairedExecutionReason> {
    if permit.permit_digest@ != permit_digest_spec(permit) || permit.leg_index > 1 {
        Some(PairedExecutionReason::PermitInvalid)
    } else if permit_used(used, permit.permit_digest) {
        Some(PairedExecutionReason::PermitAlreadyUsed)
    } else if !(record matches Some(r) && r.permits[permit.leg_index as int] matches Some(p) && permit_matches(p, permit)
        && r.legs[permit.leg_index as int] == LegState::Authorized) || !reservation_active {
        Some(PairedExecutionReason::PermitInvalid)
    } else if at < permit.valid_from_ns || at >= permit.valid_until_ns {
        Some(PairedExecutionReason::PermitExpired)
    } else if order_exists {
        Some(PairedExecutionReason::OrderAlreadyExists)
    } else {
        None
    }
}

fn used_before(used: &Vec<[u8; 32]>, d: &[u8; 32]) -> (r: bool)
    ensures
        r == permit_used(used@, *d),
{
    let mut i: usize = 0;
    while i < used.len()
        invariant
            i <= used@.len(),
            forall|k: int| 0 <= k < i ==> (#[trigger] used@[k])@ != d@,
        decreases used@.len() - i,
    {
        if digest_eq(&used[i], d) {
            return true;
        }
        i = i + 1;
    }
    false
}

/// Two orders carry the same values.
pub open spec fn order_matches(a: OrderExposure, b: OrderExposure) -> bool {
    &&& a.order_id.0@ == b.order_id.0@
    &&& a.token.condition_id@ == b.token.condition_id@
    &&& a.token.token_id@ == b.token.token_id@
    &&& a.side == b.side
    &&& a.quantity_micros == b.quantity_micros
    &&& a.partial_fill_micros == b.partial_fill_micros
    &&& a.limit_price_micros == b.limit_price_micros
    &&& a.max_fee_micros == b.max_fee_micros
}

/// Two permits carry the same values.
pub open spec fn permit_matches(a: PairPermit, b: PairPermit) -> bool {
    &&& a.permit_id.0@ == b.permit_id.0@
    &&& a.stage_id.0@ == b.stage_id.0@
    &&& a.stage_record_digest@ == b.stage_record_digest@
    &&& a.leg_index == b.leg_index
    &&& a.role == b.role
    &&& order_matches(a.order, b.order)
    &&& a.candidate_digest@ == b.candidate_digest@
    &&& a.reservation_id@ == b.reservation_id@
    &&& a.mode_sequence == b.mode_sequence
    &&& a.valid_from_ns == b.valid_from_ns
    &&& a.valid_until_ns == b.valid_until_ns
    &&& a.permit_digest@ == b.permit_digest@
}

fn same_order(a: &OrderExposure, b: &OrderExposure) -> (r: bool)
    ensures
        r == order_matches(*a, *b),
{
    digest_eq(&a.order_id.0, &b.order_id.0) && a.token.condition_id.eq(&b.token.condition_id)
        && a.token.token_id.eq(&b.token.token_id) && a.side == b.side && a.quantity_micros == b.quantity_micros
        && a.partial_fill_micros == b.partial_fill_micros && a.limit_price_micros == b.limit_price_micros
        && a.max_fee_micros == b.max_fee_micros
}

fn same_permit(a: &PairPermit, b: &PairPermit) -> (r: bool)
    ensures
        r == permit_matches(*a, *b),
{
    digest_eq(&a.permit_id.0, &b.permit_id.0) && digest_eq(&a.stage_id.0, &b.stage_id.0)
        && digest_eq(&a.stage_record_digest, &b.stage_record_digest) && a.leg_index == b.leg_index && a.role == b.role
        && same_order(&a.order, &b.order) && digest_eq(&a.candidate_digest, &b.candidate_digest)
        && digest_eq(&a.reservation_id, &b.reservation_id) && a.mode_sequence == b.mode_sequence
        && a.valid_from_ns == b.valid_from_ns && a.valid_until_ns == b.valid_until_ns
        && digest_eq(&a.permit_digest, &b.permit_digest)
}

/// Checks a submission under `permit` against the permits already spent, the
/// policy's record of the pair, and whether the leg's reservation is active.
pub fn submit_check(
    permit: &PairPermit,
    used: &Vec<[u8; 32]>,
    record: Option<&PairPolicyRecord>,
    reservation_active: bool,
    at: i64,
    order_exists: bool,
) -> (r: Option<PairedExecutionReason>)
    ensures
        r == submit_denial(*permit, used@, match record { Some(x) => Some(*x), None => None }, reservation_active, at, order_exists),
{
    if !permit.verify_digest() || permit.leg_index > 1 {
        return Some(PairedExecutionReason::PermitInvalid);
    }
    if used_before(used, &permit.permit_digest) {
        return Some(PairedExecutionReason::PermitAlreadyUsed);
    }
    let i = permit.leg_index as usize;
    let recorded = match record {
        Some(r) => match &r.permits[i] {
            Some(p) => same_permit(p, permit) && r.legs[i] == LegState::Authorized,
            None => false,
        },
        None => false,
    };
    if !recorded || !reservation_active {
        return Some(PairedExecutionReason::PermitInvalid);
    }
    if at < permit.valid_from_ns || at >= permit.valid_until_ns {
        return Some(PairedExecutionReason::PermitExpired);
    }
    if order_exists {
        return Some(PairedExecutionReason::OrderAlreadyExists);
    }
    None
}

/// A cancel is possible for a live order outside its uncancellable window.
pub open spec fn cancel_allowed(state: Option<OrderState>, at: i64) -> bool {
    match state {
        Some(OrderState::Active(a)) => !(a matches ActiveState::Delayed { uncancellable_until_ns, .. } && at < uncancellable_until_ns),
        _ => false,
    }
}

pub fn may_cancel(state: Option<&OrderState>, at: i64) -> (r: bool)
    ensures
        r == cancel_allowed(match state { Some(s) => Some(*s), None => None }, at),
{
    match state {
        Some(OrderState::Active(a)) => match a {
            ActiveState::Delayed { uncancellable_until_ns, .. } => !(at < *uncancellable_until_ns),
            _ => true,
        },
        _ => false,
    }
}

/// Starts a cancel on a leg's order if it may be canceled now; the order waits
/// for the exchange, remembering the state it resumes in.
pub fn request_cancel(o: &mut PaperOrder, at: i64) -> (r: bool)
    ensures
        r == cancel_allowed(Some(old(o).state), at),
        r ==> *final(o) == with_state(*old(o), OrderState::CancelPending { resume: old(o).state->Active_0 }),
        !r ==> *final(o) == *old(o),
{
    if !may_cancel(Some(&o.state), at) {
        return false;
    }
    match &o.state {
        OrderState::Active(a) => {
            let resume = *a;
            o.state = OrderState::CancelPending { resume };
            true
        },
        _ => false,
    }
}

/// The lifecycle state the placement policy records for a leg after an
/// exchange event; `cumulative_quantity_micros` and `state` are the order's
/// after the event.
pub open spec fn leg_state_for(cumulative_quantity_micros: i128, state: OrderState, event: ExchangeEvent) -> LegState {
    match event {
        ExchangeEvent::Delayed { .. } => LegState::Delayed,
        ExchangeEvent::Acknowledged => LegState::Live,
        ExchangeEvent::Live => LegState::Live,
        ExchangeEvent::Match { fully_matched, .. } => if fully_matched {
            LegState::FullyMatched
        } else {
            LegState::PartiallyMatched
        },
        ExchangeEvent::Unknown { .. } => LegState::Unknown,
        ExchangeEvent::CancelAccepted => if cumulative_quantity_micros == 0 {
            LegState::NoFillTerminal
        } else {
            LegState::PartiallyMatchedTerminal
        },
        ExchangeEvent::Rejected { .. } => if cumulative_quantity_micros == 0 {
            LegState::NoFillTerminal
        } else {
            LegState::PartiallyMatchedTerminal
        },
        ExchangeEvent::CancelRejected => match state {
            OrderState::Active(ActiveState::Delayed { .. }) => LegState::Delayed,
            OrderState::CancelPending { resume: ActiveState::Delayed { .. } } => LegState::Delayed,
            OrderState::Active(ActiveState::PartiallyMatched) => LegState::PartiallyMatched,
            OrderState::CancelPending { resume: ActiveState::PartiallyMatched } => LegState::PartiallyMatched,
            OrderState::Active(ActiveState::Unknown { .. }) => LegState::Unknown,
            OrderState::CancelPending { resume: ActiveState::Unknown { .. } } => LegState::Unknown,
            _ => LegState::Live,
        },
    }
}

pub fn policy_state_for(o: &PaperOrder, event: &ExchangeEvent) -> (r: LegState)
    ensures
        r == leg_state_for(o.cumulative_quantity_micros, o.state, *event),
{
    match event {
        ExchangeEvent::Delayed { .. } => LegState::Delayed,
        ExchangeEvent::Acknowledged | ExchangeEvent::Live => LegState::Live,
        ExchangeEvent::Match { fully_matched, .. } => if *fully_matched {
            LegState::FullyMatched
        } else {
            LegState::PartiallyMatched
        },
        ExchangeEvent::Unknown { .. } => LegState::Unknown,
        ExchangeEvent::CancelAccepted | ExchangeEvent::Rejected { .. } => if o.cumulative_quantity_micros == 0 {
            LegState::NoFillTerminal
        } else {
            LegState::PartiallyMatchedTerminal
        },
        ExchangeEvent::CancelRejected => {
            let a = match &o.state {
                OrderState::Active(a) => Some(*a),
                OrderState::CancelPending { resume } => Some(*resume),
                _ => None,
            };
            match a {
                Some(ActiveState::Delayed { .. }) => LegState::Delayed,
                Some(ActiveState::PartiallyMatched) => LegState::PartiallyMatched,
                Some(ActiveState::Unknown { .. }) => LegState::Unknown,
                _ => LegState::Live,
            }
        },
    }
}

/// A leg whose order has filled anything is never reported as ending unfilled.
pub proof fn law_filled_leg_never_reported_unfilled(cumulative_quantity_micros: i128, state: OrderState, event: ExchangeEvent)
    requires
        cumulative_quantity_micros != 0,
    ensures
        leg_state_for(cumulative_quantity_micros, state, event) != LegState::NoFillTerminal,
{
}

#[derive(Clone, Debug, PartialEq, Eq)]
pub enum Error {
    Timestamp,
    CommandBound,
    Json(String),
    Version(u16),
    IdempotencyConflict,
    ClockRegression,
    Boundary,
    SourceHistory,
    ExchangeOrderIdentity,
    Lifecycle,
    FillInvariant,
    Identifier,
    Reservation,
    Handoff,
    Overflow,
    Policy(PolicyError),
    Halted(String),
}

/// The paired error a paper-order failure stands for.
pub open spec fn paper_error(e: PaperError) -> Error {
    match e {
        PaperError::SourceHistory => Error::SourceHistory,
        PaperError::Timestamp => Error::SourceHistory,
        PaperError::ExchangeOrderIdentity => Error::ExchangeOrderIdentity,
        PaperError::LifecycleTransition => Error::Lifecycle,
        PaperError::FillInvariant => Error::FillInvariant,
        PaperError::Identifier => Error::Identifier,
        PaperError::Overflow => Error::Overflow,
        _ => Error::Boundary,
    }
}

fn map_paper_error(e: PaperError) -> (r: Error)
    ensures
        r == paper_error(e),
{
    match e {
        PaperError::SourceHistory => Error::SourceHistory,
        PaperError::Timestamp => Error::SourceHistory,
        PaperError::ExchangeOrderIdentity => Error::ExchangeOrderIdentity,
        PaperError::LifecycleTransition => Error::Lifecycle,
        PaperError::FillInvariant => Error::FillInvariant,
        PaperError::Identifier => Error::Identifier,
        PaperError::Overflow => Error::Overflow,
        _ => Error::Boundary,
    }
}

/// One leg's order, under the permit that authorized it.
#[derive(Debug)]
pub struct PairedPaperOrder {
    pub permit: PairPermit,
    pub order: PaperOrder,
}

/// The answer to one paired execution command.
#[derive(Debug)]
pub struct PairedExecutionDecision {
    pub command_id: PairedExecutionCommandId,
    pub status: PairedExecutionStatus,
    pub reason: PairedExecutionReason,
    pub stage_id: Option<PairStageId>,
    pub leg_index: Option<u8>,
    pub state: Option<OrderState>,
    pub policy_decision: Option<PairedPolicyDecision>,
    pub new_handoff: Option<ReconciliationHandoff>,
    pub decision_digest: [u8; 32],
}

/// `d` answers `command_id` with these values and carries no policy decision.
pub open spec fn answered(
    d: PairedExecutionDecision,
    command_id: PairedExecutionCommandId,
    status: PairedExecutionStatus,
    reason: PairedExecutionReason,
    stage_id: PairStageId,
    leg_index: u8,
    state: Option<OrderState>,
    handoff: Option<ReconciliationHandoff>,
) -> bool {
    &&& d.command_id == command_id
    &&& d.status == status
    &&& d.reason == reason
    &&& d.stage_id == Some(stage_id)
    &&& d.leg_index == Some(leg_index)
    &&& d.state == state
    &&& d.policy_decision is None
    &&& d.new_handoff == handoff
}

/// Two legs are the same leg of the same pair.
pub open spec fn same_leg(o: PairedPaperOrder, stage_id: PairStageId, leg_index: u8) -> bool {
    o.permit.stage_id.0@ == stage_id.0@ && o.permit.leg_index == leg_index
}

pub open spec fn has_leg(os: Seq<PairedPaperOrder>, stage_id: PairStageId, leg_index: u8) -> bool {
    exists|i: int| 0 <= i < os.len() && same_leg(#[trigger] os[i], stage_id, leg_index)
}

/// Where the order of leg `leg_index` of pair `stage_id` stands, if there is one.
pub open spec fn leg_position(os: Seq<PairedPaperOrder>, stage_id: PairStageId, leg_index: u8) -> Option<int> {
    if has_leg(os, stage_id, leg_index) {
        Some(choose|i: int| 0 <= i < os.len() && same_leg(#[trigger] os[i], stage_id, leg_index))
    } else {
        None
    }
}

/// No two orders belong to the same leg.
pub open spec fn legs_unique(os: Seq<PairedPaperOrder>) -> bool {
    forall|i: int, j: int| 0 <= i < j < os.len() ==> !same_leg(#[trigger] os[i], os[j].permit.stage_id, #[trigger] os[j].permit.leg_index)
}

/// What the paired executor holds: its policy's mode, records and book, its leg
/// orders, the permits spent, and the hand-off digests and ledger commands
/// already handed to settlement.
pub struct PairedExecutionView {
    pub mode: Option<ModeObservation>,
    pub records: Seq<PairPolicyRecord>,
    pub book: PolicyBook,
    pub orders: Seq<PairedPaperOrder>,
    pub used_permits: Seq<[u8; 32]>,
    pub handoff_digests: Seq<[u8; 32]>,
    pub ledger_command_ids: Seq<[u8; 32]>,
}

/// Domain of the id of a policy command that mirrors a leg's lifecycle.
pub open spec fn sync_domain() -> Seq<u8> {
    "paired-execution-policy-sync-v1".spec_bytes()
}

pub open spec fn sync_command_id_spec(id: PairedExecutionCommandId, permit_id: PairPermitId, state: LegState) -> Seq<u8> {
    blake3_hash(sync_domain() + id.0@ + permit_id.0@ + state.canon())
}

pub fn sync_command_id(id: PairedExecutionCommandId, permit_id: PairPermitId, state: LegState) -> (r: PairedPolicyCommandId)
    ensures
        r.0@ == sync_command_id_spec(id, permit_id, state),
{
    let mut bytes: Vec<u8> = Vec::new();
    push_bytes(&mut bytes, "paired-execution-policy-sync-v1".as_bytes());
    push_bytes(&mut bytes, id.0.as_slice());
    push_bytes(&mut bytes, permit_id.0.as_slice());
    state.encode_into(&mut bytes);
    proof {
        reveal_strlit("paired-execution-policy-sync-v1");
    }
    assert(bytes@ =~= sync_domain() + id.0@ + permit_id.0@ + state.canon());
    PairedPolicyCommandId(blake3_digest(bytes.as_slice()))
}

/// The policy was told that the leg of `permit` reached `state`: it took the
/// lifecycle command (whose id derives from `id`, the permit and the state)
/// from `(mode, rs, book)` to `(mode2, rs2, book2)`, and `r` is what the executor makes of
/// its answer.
pub open spec fn policy_synced(
    mode: Option<ModeObservation>,
    rs: Seq<PairPolicyRecord>,
    book: PolicyBook,
    id: PairedExecutionCommandId,
    permit: PairPermit,
    state: LegState,
    source_sequence: u64,
    observed_at_ns: i64,
    at: i64,
    mode2: Option<ModeObservation>,
    rs2: Seq<PairPolicyRecord>,
    book2: PolicyBook,
    r: Result<(), Error>,
) -> bool {
    exists|cid: PairedPolicyCommandId, pr: Result<PairedPolicyDecision, PolicyError>| {
        &&& cid.0@ == sync_command_id_spec(id, permit.permit_id, state)
        &&& #[trigger] policy_apply_spec(mode, rs, book, PairedPolicyCommand::ObserveLeg {
            command_id: cid,
            stage_id: permit.stage_id,
            leg_index: permit.leg_index,
            permit_id: permit.permit_id,
            state,
            source_sequence,
            observed_at_ns,
            recorded_at_ns: at,
        }, None, mode2, rs2, book2, pr)
        &&& match pr {
            Err(e) => r == Err::<(), Error>(Error::Policy(e)),
            Ok(d) => r == (if d.status == PairedPolicyStatus::Accepted { Ok::<(), Error>(()) } else { Err::<(), Error>(Error::Boundary) }),
        }
    }
}

/// The books other than the policy are unchanged.
pub open spec fn same_books(v: PairedExecutionView, w: PairedExecutionView) -> bool {
    &&& w.orders == v.orders
    &&& w.used_permits == v.used_permits
    &&& w.handoff_digests == v.handoff_digests
    &&& w.ledger_command_ids == v.ledger_command_ids
}

/// `n` is the fresh order of a leg submitted under `permit`.
pub open spec fn fresh_leg(n: PairedPaperOrder, permit: PairPermit, local: Seq<char>) -> bool {
    &&& n.permit == permit
    &&& n.order.placement == permit.order
    &&& n.order.local_submission_id@ == local
    &&& n.order.placement_policy_digest == permit.permit_digest
    &&& n.order.exchange_order_id is None
    &&& n.order.state == OrderState::Active(ActiveState::Submitted)
    &&& n.order.last_source_sequence is None && n.order.last_event_time_ns is None && n.order.last_received_time_ns is None
    &&& n.order.cumulative_quantity_micros == 0 && n.order.cumulative_consideration_micros == 0
    &&& n.order.cumulative_fee_micros == 0
    &&& n.order.fills@.len() == 0 && n.order.handoffs@.len() == 0
}

/// What submitting a leg under `permit` does: a denial changes nothing; an
/// accepted submission spends the permit, records the leg as submitted with
/// the policy, and opens the leg's order, or fails and changes nothing.
pub open spec fn submit_step(
    v: PairedExecutionView,
    id: PairedExecutionCommandId,
    permit: PairPermit,
    local: Seq<char>,
    reservation_active: bool,
    at: i64,
    w: PairedExecutionView,
    r: Result<PairedExecutionDecision, Error>,
) -> bool {
    let existing = leg_position(v.orders, permit.stage_id, permit.leg_index);
    match submit_denial(permit, v.used_permits, lookup(v.records, permit.stage_id), reservation_active, at, existing is Some) {
        Some(reason) => {
            &&& w == v
            &&& r matches Ok(d) && answered(d, id, PairedExecutionStatus::Denied, reason, permit.stage_id, permit.leg_index,
                match existing { Some(k) => Some(v.orders[k].order.state), None => None }, None)
        },
        None => if !text_ok(local) {
            w == v && r == Err::<PairedExecutionDecision, Error>(Error::Identifier)
        } else {
            exists|sr: Result<(), Error>| {
                &&& #[trigger] policy_synced(v.mode, v.records, v.book, id, permit, LegState::Submitted, 0, at, at, w.mode, w.records,
                    w.book, sr)
                &&& match sr {
                    Err(e) => same_books(v, w) && r == Err::<PairedExecutionDecision, Error>(e),
                    Ok(_) => {
                        &&& w.used_permits == v.used_permits.push(permit.permit_digest)
                        &&& w.orders.len() == v.orders.len() + 1 && w.orders.drop_last() == v.orders
                        &&& fresh_leg(w.orders.last(), permit, local)
                        &&& w.handoff_digests == v.handoff_digests && w.ledger_command_ids == v.ledger_command_ids
                        &&& r matches Ok(d) && answered(d, id, PairedExecutionStatus::Applied,
                            PairedExecutionReason::SubmissionAccepted, permit.stage_id, permit.leg_index,
                            Some(OrderState::Active(ActiveState::Submitted)), None)
                    },
                }
            }
        },
    }
}

/// What a cancel request does: a leg whose order may be canceled now waits
/// for the exchange; any other request is denied and changes nothing.
pub open spec fn cancel_step(
    v: PairedExecutionView,
    id: PairedExecutionCommandId,
    stage_id: PairStageId,
    leg_index: u8,
    at: i64,
    w: PairedExecutionView,
    d: PairedExecutionDecision,
) -> bool {
    match leg_position(v.orders, stage_id, leg_index) {
        None => w == v && answered(d, id, PairedExecutionStatus::Denied, PairedExecutionReason::CancelDenied, stage_id,
            leg_index, None, None),
        Some(k) => {
            let o = v.orders[k];
            if cancel_allowed(Some(o.order.state), at) {
                let n = with_state(o.order, OrderState::CancelPending { resume: o.order.state->Active_0 });
                &&& w.orders == v.orders.update(k, PairedPaperOrder { permit: o.permit, order: n })
                &&& w.mode == v.mode && w.records == v.records && w.book == v.book && w.used_permits == v.used_permits
                &&& w.handoff_digests == v.handoff_digests && w.ledger_command_ids == v.ledger_command_ids
                &&& answered(d, id, PairedExecutionStatus::Applied, PairedExecutionReason::CancelRequested, stage_id,
                    leg_index, Some(n.state), None)
            } else {
                w == v && answered(d, id, PairedExecutionStatus::Denied, PairedExecutionReason::CancelDenied, stage_id,
                    leg_index, Some(o.order.state), None)
            }
        },
    }
}

/// An observation that is not from the past of the leg's order, not from
/// the future of `at`, and numbered.
pub open spec fn observation_in_order(o: PaperOrder, obs: ExchangeObservation, at: i64) -> bool {
    &&& obs.source_sequence != 0
    &&& obs.event_time_ns >= 0
    &&& obs.received_time_ns >= obs.event_time_ns
    &&& obs.received_time_ns <= at
    &&& history_ok(o, obs)
}

/// `n` is `o` after `obs`, with hand-off `h` if the observation was a fill.
pub open spec fn order_observed(o: PaperOrder, obs: ExchangeObservation, n: PaperOrder, h: Option<ReconciliationHandoff>) -> bool {
    &&& stepped(bound_order(o, obs), obs, crate::execution::handoff_digest(h),
        with_history(n, o.last_source_sequence, o.last_event_time_ns, o.last_received_time_ns), h)
    &&& (h matches Some(x) ==> x.source_observation_digest@ == observation_digest_spec(obs))
    &&& n.last_source_sequence == Some(obs.source_sequence)
    &&& n.last_event_time_ns == Some(obs.event_time_ns)
    &&& n.last_received_time_ns == Some(obs.received_time_ns)
}

/// The hand-off was already given to settlement, by digest or ledger command.
pub open spec fn handoff_seen(v: PairedExecutionView, h: ReconciliationHandoff) -> bool {
    ||| exists|i: int| 0 <= i < v.handoff_digests.len() && (#[trigger] v.handoff_digests[i])@ == handoff_registration_digest_spec(h)
    ||| exists|i: int| 0 <= i < v.ledger_command_ids.len() && (#[trigger] v.ledger_command_ids[i])@ == h.intent.ledger_command_id@
}

/// What an exchange observation of a leg does: it must be about the leg's
/// own order, in order, and acceptable to the order, which then takes it; a
/// new fill's hand-off must be new to settlement; the policy is told the leg's
/// new lifecycle state; then the hand-off goes to settlement. A refusal before
/// the order takes the observation changes nothing. A hand-off settlement
/// already has, or a lifecycle the policy refuses, is an integrity failure
/// found after the order took the observation: nothing is handed on, and the
/// executor is to be halted.
pub open spec fn observe_step(
    v: PairedExecutionView,
    id: PairedExecutionCommandId,
    stage_id: PairStageId,
    leg_index: u8,
    obs: ExchangeObservation,
    at: i64,
    w: PairedExecutionView,
    r: Result<PairedExecutionDecision, Error>,
) -> bool {
    match leg_position(v.orders, stage_id, leg_index) {
        None => w == v && r == Err::<PairedExecutionDecision, Error>(Error::Lifecycle),
        Some(k) => {
            let o = v.orders[k];
            if obs.order_id.0@ != o.permit.order.order_id.0@ {
                w == v && r == Err::<PairedExecutionDecision, Error>(Error::Boundary)
            } else if !observation_in_order(o.order, obs, at) {
                w == v && r == Err::<PairedExecutionDecision, Error>(Error::SourceHistory)
            } else {
                match observe_error(o.order, obs) {
                    Some(e) => w == v && r == Err::<PairedExecutionDecision, Error>(paper_error(e)),
                    None => exists|n: PaperOrder, h: Option<ReconciliationHandoff>| {
                        &&& #[trigger] order_observed(o.order, obs, n, h)
                        &&& w.orders == v.orders.update(k, PairedPaperOrder { permit: o.permit, order: n })
                        &&& w.used_permits == v.used_permits
                        &&& if h matches Some(x) && handoff_seen(v, x) {
                            &&& w.mode == v.mode && w.records == v.records && w.book == v.book
                            &&& w.handoff_digests == v.handoff_digests && w.ledger_command_ids == v.ledger_command_ids
                            &&& r == Err::<PairedExecutionDecision, Error>(Error::Handoff)
                        } else {
                            exists|sr: Result<(), Error>| {
                                &&& #[trigger] policy_synced(v.mode, v.records, v.book, id, o.permit,
                                    leg_state_for(n.cumulative_quantity_micros, n.state, obs.event), obs.source_sequence,
                                    obs.event_time_ns, at, w.mode, w.records, w.book, sr)
                                &&& match sr {
                                    Err(e) => w.handoff_digests == v.handoff_digests
                                        && w.ledger_command_ids == v.ledger_command_ids
                                        && r == Err::<PairedExecutionDecision, Error>(e),
                                    Ok(_) => {
                                        &&& match h {
                                            Some(x) => {
                                                &&& w.handoff_digests.len() == v.handoff_digests.len() + 1
                                                &&& w.handoff_digests.drop_last() == v.handoff_digests
                                                &&& w.handoff_digests.last()@ == handoff_registration_digest_spec(x)
                                                &&& w.ledger_command_ids == v.ledger_command_ids.push(x.intent.ledger_command_id)
                                            },
                                            None => w.handoff_digests == v.handoff_digests
                                                && w.ledger_command_ids == v.ledger_command_ids,
                                        }
                                        &&& r matches Ok(d) && answered(d, id, PairedExecutionStatus::Applied,
                                            PairedExecutionReason::ObservationApplied, stage_id, leg_index, Some(n.state), h)
                                    },
                                }
                            }
                        }
                    },
                }
            }
        },
    }
}

/// What a policy command forwarded to the owned policy does: a lifecycle
/// observation, or a command recorded at another time than its envelope, is
/// refused as a bypass; any other command is applied by the policy as it
/// decides itself, and the answer carries the policy's decision.
pub open spec fn policy_command_step(
    v: PairedExecutionView,
    id: PairedExecutionCommandId,
    cmd: PairedPolicyCommand,
    stage: Option<StageView>,
    at: i64,
    w: PairedExecutionView,
    r: Result<PairedExecutionDecision, Error>,
) -> bool {
    if cmd.recorded_at() != at || cmd is ObserveLeg {
        w == v && r == Err::<PairedExecutionDecision, Error>(Error::Boundary)
    } else {
        exists|pr: Result<PairedPolicyDecision, PolicyError>| {
            &&& #[trigger] policy_apply_spec(v.mode, v.records, v.book, cmd, stage, w.mode, w.records, w.book, pr)
            &&& same_books(v, w)
            &&& match pr {
                Err(e) => r == Err::<PairedExecutionDecision, Error>(Error::Policy(e)),
                Ok(pd) => r matches Ok(d) && {
                    &&& d.command_id == id
                    &&& d.status == (if pd.status == PairedPolicyStatus::Accepted {
                        PairedExecutionStatus::Applied
                    } else {
                        PairedExecutionStatus::Denied
                    })
                    &&& d.reason == PairedExecutionReason::PolicyApplied
                    &&& d.stage_id == pd.stage_id
                    &&& d.leg_index == (match pd.permit {
                        Some(p) => Some(p.leg_index),
                        None => None::<u8>,
                    })
                    &&& d.state is None
                    &&& d.policy_decision == Some(pd)
                    &&& d.new_handoff is None
                },
            }
        }
    }
}

/// The stage a reference names, if any.
pub open spec fn stage_value(s: Option<&StageView>) -> Option<StageView> {
    match s {
        Some(x) => Some(*x),
        None => None,
    }
}

/// One command to the paired executor.
#[derive(Debug)]
pub enum PairedExecutionCommand {
    Policy { command_id: PairedExecutionCommandId, command: PairedPolicyCommand, recorded_at_ns: i64 },
    Submit { command_id: PairedExecutionCommandId, permit: PairPermit, local_submission_id: String, recorded_at_ns: i64 },
    RequestCancel { command_id: PairedExecutionCommandId, stage_id: PairStageId, leg_index: u8, recorded_at_ns: i64 },
    Observe {
        command_id: PairedExecutionCommandId,
        stage_id: PairStageId,
        leg_index: u8,
        observation: ExchangeObservation,
        recorded_at_ns: i64,
    },
}

impl PairedExecutionCommand {
    pub open spec fn id_of(&self) -> PairedExecutionCommandId {
        match self {
            PairedExecutionCommand::Policy { command_id, .. } => *command_id,
            PairedExecutionCommand::Submit { command_id, .. } => *command_id,
            PairedExecutionCommand::RequestCancel { command_id, .. } => *command_id,
            PairedExecutionCommand::Observe { command_id, .. } => *command_id,
        }
    }

    pub open spec fn recorded_at(&self) -> i64 {
        match self {
            PairedExecutionCommand::Policy { recorded_at_ns, .. } => *recorded_at_ns,
            PairedExecutionCommand::Submit { recorded_at_ns, .. } => *recorded_at_ns,
            PairedExecutionCommand::RequestCancel { recorded_at_ns, .. } => *recorded_at_ns,
            PairedExecutionCommand::Observe { recorded_at_ns, .. } => *recorded_at_ns,
        }
    }

    /// The id of this command.
    pub fn command_id(&self) -> (r: PairedExecutionCommandId)
        ensures
            r == self.id_of(),
    {
        match self {
            PairedExecutionCommand::Policy { command_id, .. } => *command_id,
            PairedExecutionCommand::Submit { command_id, .. } => *command_id,
            PairedExecutionCommand::RequestCancel { command_id, .. } => *command_id,
            PairedExecutionCommand::Observe { command_id, .. } => *command_id,
        }
    }

    /// When this command was recorded.
    pub fn recorded_at_ns(&self) -> (r: i64)
        ensures
            r == self.recorded_at(),
    {
        match self {
            PairedExecutionCommand::Policy { recorded_at_ns, .. } => *recorded_at_ns,
            PairedExecutionCommand::Submit { recorded_at_ns, .. } => *recorded_at_ns,
            PairedExecutionCommand::RequestCancel { recorded_at_ns, .. } => *recorded_at_ns,
            PairedExecutionCommand::Observe { recorded_at_ns, .. } => *recorded_at_ns,
        }
    }
}

impl Canonical for PairedExecutionCommandId {
    open spec fn canon(&self) -> Seq<u8> {
        self.0.canon()
    }

    fn encode_into(&self, out: &mut Vec<u8>) {
        self.0.encode_into(out);
    }
}

impl Canonical for PairedExecutionCommand {
    open spec fn canon(&self) -> Seq<u8> {
        match self {
            PairedExecutionCommand::Policy { command_id, command, recorded_at_ns } => seq![0u8] + command_id.canon()
                + command.canon() + recorded_at_ns.canon(),
            PairedExecutionCommand::Submit { command_id, permit, local_submission_id, recorded_at_ns } => seq![1u8]
                + command_id.canon() + permit.canon() + local_submission_id.canon() + recorded_at_ns.canon(),
            PairedExecutionCommand::RequestCancel { command_id, stage_id, leg_index, recorded_at_ns } => seq![2u8]
                + command_id.canon() + stage_id.canon() + leg_index.canon() + recorded_at_ns.canon(),
            PairedExecutionCommand::Observe { command_id, stage_id, leg_index, observation, recorded_at_ns } => seq![3u8]
                + command_id.canon() + stage_id.canon() + leg_index.canon() + observation.canon() + recorded_at_ns.canon(),
        }
    }

    fn encode_into(&self, out: &mut Vec<u8>) {
        let ghost start = out@;
        match self {
            PairedExecutionCommand::Policy { command_id, command, recorded_at_ns } => {
                out.push(0u8);
                command_id.encode_into(out);
                command.encode_into(out);
                recorded_at_ns.encode_into(out);
            },
            PairedExecutionCommand::Submit { command_id, permit, local_submission_id, recorded_at_ns } => {
                out.push(1u8);
                command_id.encode_into(out);
                permit.encode_into(out);
                local_submission_id.encode_into(out);
                recorded_at_ns.encode_into(out);
            },
            PairedExecutionCommand::RequestCancel { command_id, stage_id, leg_index, recorded_at_ns } => {
                out.push(2u8);
                command_id.encode_into(out);
                stage_id.encode_into(out);
                leg_index.encode_into(out);
                recorded_at_ns.encode_into(out);
            },
            PairedExecutionCommand::Observe { command_id, stage_id, leg_index, observation, recorded_at_ns } => {
                out.push(3u8);
                command_id.encode_into(out);
                stage_id.encode_into(out);
                leg_index.encode_into(out);
                observation.encode_into(out);
                recorded_at_ns.encode_into(out);
            },
        }
        assert(out@ =~= start + self.canon());
    }
}

impl Canonical for PairedExecutionStatus {
    open spec fn canon(&self) -> Seq<u8> {
        match self {
            PairedExecutionStatus::Applied => seq![0u8],
            PairedExecutionStatus::Denied => seq![1u8],
        }
    }

    fn encode_into(&self, out: &mut Vec<u8>) {
        match self {
            PairedExecutionStatus::Applied => out.push(0u8),
            PairedExecutionStatus::Denied => out.push(1u8),
        }
    }
}

impl Canonical for PairedExecutionReason {
    open spec fn canon(&self) -> Seq<u8> {
        match self {
            PairedExecutionReason::PolicyApplied => seq![0u8],
            PairedExecutionReason::SubmissionAccepted => seq![1u8],
            PairedExecutionReason::PermitInvalid => seq![2u8],
            PairedExecutionReason::PermitExpired => seq![3u8],
            PairedExecutionReason::PermitAlreadyUsed => seq![4u8],
            PairedExecutionReason::OrderAlreadyExists => seq![5u8],
            PairedExecutionReason::CancelRequested => seq![6u8],
            PairedExecutionReason::CancelDenied => seq![7u8],
            PairedExecutionReason::ObservationApplied => seq![8u8],
        }
    }

    fn encode_into(&self, out: &mut Vec<u8>) {
        match self {
            PairedExecutionReason::PolicyApplied => out.push(0u8),
            PairedExecutionReason::SubmissionAccepted => out.push(1u8),
            PairedExecutionReason::PermitInvalid => out.push(2u8),
            PairedExecutionReason::PermitExpired => out.push(3u8),
            PairedExecutionReason::PermitAlreadyUsed => out.push(4u8),
            PairedExecutionReason::OrderAlreadyExists => out.push(5u8),
            PairedExecutionReason::CancelRequested => out.push(6u8),
            PairedExecutionReason::CancelDenied => out.push(7u8),
            PairedExecutionReason::ObservationApplied => out.push(8u8),
        }
    }
}

/// Largest encoded command accepted.
pub const MAX_COMMAND_BYTES: usize = 1048576;

/// Version of the command encoding.
pub const WIRE_VERSION: u16 = 1;

/// The command's timestamps are consistent: recorded no earlier than zero, a
/// forwarded policy command recorded at the same time, and an observation
/// received no later than it is recorded.
pub open spec fn command_valid(cmd: PairedExecutionCommand) -> bool {
    &&& cmd.recorded_at() >= 0
    &&& match cmd {
        PairedExecutionCommand::Policy { command, recorded_at_ns, .. } => command.recorded_at() == recorded_at_ns,
        PairedExecutionCommand::Observe { observation, recorded_at_ns, .. } => observation.received_time_ns <= recorded_at_ns,
        _ => true,
    }
}

/// The versioned encoding of a command.
pub open spec fn wire_bytes(cmd: PairedExecutionCommand) -> Seq<u8> {
    le_bytes(WIRE_VERSION as nat, 2) + cmd.canon()
}

/// The content digest under which a command id is remembered.
pub open spec fn command_digest(cmd: PairedExecutionCommand) -> Seq<u8> {
    blake3_hash(wire_bytes(cmd))
}

/// Encodes one bounded, versioned command.
pub fn encode_command(cmd: &PairedExecutionCommand) -> (r: Result<Vec<u8>, Error>)
    ensures
        match r {
            Err(e) => if !command_valid(*cmd) {
                e == Error::Timestamp
            } else {
                e == Error::CommandBound && wire_bytes(*cmd).len() > MAX_COMMAND_BYTES
            },
            Ok(b) => command_valid(*cmd) && b@ == wire_bytes(*cmd) && b@.len() <= MAX_COMMAND_BYTES,
        },
{
    let at = cmd.recorded_at_ns();
    let ok = at >= 0 && match cmd {
        PairedExecutionCommand::Policy { command, recorded_at_ns, .. } => command.recorded_at_ns() == *recorded_at_ns,
        PairedExecutionCommand::Observe { observation, recorded_at_ns, .. } => observation.received_time_ns <= *recorded_at_ns,
        _ => true,
    };
    if !ok {
        return Err(Error::Timestamp);
    }
    let mut bytes: Vec<u8> = Vec::new();
    push_le(&mut bytes, WIRE_VERSION as u128, 2);
    cmd.encode_into(&mut bytes);
    if bytes.len() > MAX_COMMAND_BYTES {
        return Err(Error::CommandBound);
    }
    Ok(bytes)
}

/// The encoding of every field of a decision but its digest.
pub open spec fn decision_body(d: PairedExecutionDecision) -> Seq<u8> {
    d.command_id.canon() + d.status.canon() + d.reason.canon() + d.stage_id.canon() + d.leg_index.canon()
        + d.state.canon() + d.policy_decision.canon() + d.new_handoff.canon()
}

fn encode_decision_body(d: &PairedExecutionDecision, out: &mut Vec<u8>)
    ensures
        final(out)@ == old(out)@ + decision_body(*d),
{
    let ghost start = out@;
    d.command_id.encode_into(out);
    d.status.encode_into(out);
    d.reason.encode_into(out);
    d.stage_id.encode_into(out);
    d.leg_index.encode_into(out);
    d.state.encode_into(out);
    d.policy_decision.encode_into(out);
    d.new_handoff.encode_into(out);
    assert(out@ =~= start + decision_body(*d));
}

/// Domain of the digest of a paired execution decision.
pub open spec fn execution_decision_domain() -> Seq<u8> {
    "paired-execution-decision-v1".spec_bytes()
}

/// The digest of a decision: every field, with the digest itself zeroed.
pub open spec fn execution_decision_digest_spec(d: PairedExecutionDecision) -> Seq<u8> {
    domain_digest(execution_decision_domain(), decision_body(d) + zero32())
}

fn execution_decision_digest(d: &PairedExecutionDecision) -> (r: [u8; 32])
    ensures
        r@ == execution_decision_digest_spec(*d),
{
    let mut body: Vec<u8> = Vec::new();
    encode_decision_body(d, &mut body);
    let zero = [0u8; 32];
    push_bytes(&mut body, zero.as_slice());
    assert(zero@ =~= zero32());
    digest_domain("paired-execution-decision-v1".as_bytes(), body.as_slice())
}

/// A decision whose digest matches its content.
pub open spec fn decision_sealed(d: PairedExecutionDecision) -> bool {
    d.decision_digest@ == execution_decision_digest_spec(d)
}

impl PairedExecutionDecision {
    /// This decision with its digest field set to its own digest.
    pub fn sealed(self) -> (r: Self)
        ensures
            r == (PairedExecutionDecision { decision_digest: r.decision_digest, ..self }),
            decision_sealed(r),
    {
        let mut v = self;
        let d = execution_decision_digest(&v);
        v.decision_digest = d;
        assert(decision_body(v) == decision_body(self));
        v
    }

    /// Whether the digest field matches the content.
    pub fn verify_digest(&self) -> (r: bool)
        ensures
            r == decision_sealed(*self),
    {
        let d = execution_decision_digest(self);
        digest_eq(&self.decision_digest, &d)
    }
}

fn copy_execution_decision(d: &PairedExecutionDecision) -> (r: PairedExecutionDecision)
    ensures
        r == *d,
{
    PairedExecutionDecision {
        command_id: d.command_id,
        status: d.status,
        reason: d.reason,
        stage_id: d.stage_id,
        leg_index: d.leg_index,
        state: match &d.state {
            Some(s) => Some(copy_state(s)),
            None => None,
        },
        policy_decision: match &d.policy_decision {
            Some(p) => Some(copy_policy_decision(p)),
            None => None,
        },
        new_handoff: match &d.new_handoff {
            Some(h) => Some(copy_handoff(h)),
            None => None,
        },
        decision_digest: d.decision_digest,
    }
}

/// One remembered command.
#[derive(Debug)]
pub struct PairedExecutionEntry {
    pub command_id: PairedExecutionCommandId,
    pub content_digest: [u8; 32],
    pub decision: PairedExecutionDecision,
}

/// The executor's own record of the commands it answered.
pub struct ExecutionBook {
    pub processed: Seq<PairedExecutionEntry>,
    pub accepted_commands: u64,
    pub last_recorded_at_ns: Option<i64>,
    pub last_decision: Option<PairedExecutionDecision>,
    pub halted: Option<Seq<char>>,
}

pub open spec fn exec_ids_unique(ps: Seq<PairedExecutionEntry>) -> bool {
    forall|i: int, j: int| 0 <= i < j < ps.len() ==> (#[trigger] ps[i]).command_id.0@ != (#[trigger] ps[j]).command_id.0@
}

/// Every remembered decision is sealed.
pub open spec fn decisions_sealed(ps: Seq<PairedExecutionEntry>) -> bool {
    forall|i: int| 0 <= i < ps.len() ==> decision_sealed(#[trigger] ps[i].decision)
}

pub open spec fn exec_remembers(ps: Seq<PairedExecutionEntry>, id: PairedExecutionCommandId) -> bool {
    exists|i: int| 0 <= i < ps.len() && (#[trigger] ps[i]).command_id.0@ == id.0@
}

/// The remembered entry that carries `id`.
pub open spec fn exec_entry_for(ps: Seq<PairedExecutionEntry>, id: PairedExecutionCommandId) -> PairedExecutionEntry {
    ps[choose|i: int| 0 <= i < ps.len() && (#[trigger] ps[i]).command_id.0@ == id.0@]
}

/// The recorded reason for halting on `e`.
pub open spec fn exec_halt_text(e: Error) -> Seq<char> {
    match e {
        Error::Timestamp => "paired execution command timestamp is invalid"@,
        Error::CommandBound => "paired execution command exceeds its canonical bound"@,
        Error::Json(_) => "paired execution command JSON is invalid"@,
        Error::Version(_) => "unsupported paired execution command version"@,
        Error::IdempotencyConflict => "paired execution command id was reused for different content"@,
        Error::ClockRegression => "paired execution clock regressed"@,
        Error::Boundary => "caller attempted to bypass composed lifecycle ownership"@,
        Error::SourceHistory => "paper source history regressed or equivocated"@,
        Error::ExchangeOrderIdentity => "paper exchange order identity changed"@,
        Error::Lifecycle => "paper lifecycle transition is impossible"@,
        Error::FillInvariant => "paper fill facts violate exact bounds"@,
        Error::Identifier => "paper identifier is invalid"@,
        Error::Reservation => "paired reservations changed across an exposure transition"@,
        Error::Handoff => "settlement handoff identity was reused"@,
        Error::Overflow => "paired execution arithmetic or counter overflow"@,
        Error::Policy(_) => "paired policy child failed"@,
        Error::Halted(_) => "paired execution is halted"@,
    }
}

fn exec_halt_message(e: &Error) -> (s: String)
    ensures
        s@ == exec_halt_text(*e),
{
    match e {
        Error::Timestamp => "paired execution command timestamp is invalid".to_string(),
        Error::CommandBound => "paired execution command exceeds its canonical bound".to_string(),
        Error::Json(_) => "paired execution command JSON is invalid".to_string(),
        Error::Version(_) => "unsupported paired execution command version".to_string(),
        Error::IdempotencyConflict => "paired execution command id was reused for different content".to_string(),
        Error::ClockRegression => "paired execution clock regressed".to_string(),
        Error::Boundary => "caller attempted to bypass composed lifecycle ownership".to_string(),
        Error::SourceHistory => "paper source history regressed or equivocated".to_string(),
        Error::ExchangeOrderIdentity => "paper exchange order identity changed".to_string(),
        Error::Lifecycle => "paper lifecycle transition is impossible".to_string(),
        Error::FillInvariant => "paper fill facts violate exact bounds".to_string(),
        Error::Identifier => "paper identifier is invalid".to_string(),
        Error::Reservation => "paired reservations changed across an exposure transition".to_string(),
        Error::Handoff => "settlement handoff identity was reused".to_string(),
        Error::Overflow => "paired execution arithmetic or counter overflow".to_string(),
        Error::Policy(_) => "paired policy child failed".to_string(),
        Error::Halted(_) => "paired execution is halted".to_string(),
    }
}

/// `b2` is `b` halted for `e`.
pub open spec fn exec_halted_with(b: ExecutionBook, b2: ExecutionBook, e: Error) -> bool {
    b2 == ExecutionBook { halted: Some(exec_halt_text(e)), ..b }
}

/// `b2` is `b` after accepting `cmd` with the sealed decision `d`.
pub open spec fn exec_recorded(b: ExecutionBook, cmd: PairedExecutionCommand, d: PairedExecutionDecision, b2: ExecutionBook) -> bool {
    &&& b2.processed.len() == b.processed.len() + 1
    &&& b2.processed.drop_last() == b.processed
    &&& b2.processed.last().command_id == cmd.id_of()
    &&& b2.processed.last().content_digest@ == command_digest(cmd)
    &&& b2.processed.last().decision == d
    &&& b2.accepted_commands == b.accepted_commands + 1
    &&& b2.last_recorded_at_ns == Some(cmd.recorded_at())
    &&& b2.last_decision == Some(d)
    &&& b2.halted == b.halted
}

/// What a fresh command does to the executor's policy and legs, as the step
/// it names states it. `stage` is what the staging runtime holds for the pair
/// a forwarded authorization names; `reservation_active` is whether it holds
/// a submitted leg's reservation as active.
pub open spec fn fresh_step(
    v: PairedExecutionView,
    cmd: PairedExecutionCommand,
    stage: Option<StageView>,
    reservation_active: bool,
    w: PairedExecutionView,
    r: Result<PairedExecutionDecision, Error>,
) -> bool {
    match cmd {
        PairedExecutionCommand::Policy { command_id, command, recorded_at_ns } => policy_command_step(v, command_id,
            command, stage, recorded_at_ns, w, r),
        PairedExecutionCommand::Submit { command_id, permit, local_submission_id, recorded_at_ns } => submit_step(v,
            command_id, permit, local_submission_id@, reservation_active, recorded_at_ns, w, r),
        PairedExecutionCommand::RequestCancel { command_id, stage_id, leg_index, recorded_at_ns } => r matches Ok(d)
            && cancel_step(v, command_id, stage_id, leg_index, recorded_at_ns, w, d),
        PairedExecutionCommand::Observe { command_id, stage_id, leg_index, observation, recorded_at_ns } => observe_step(v,
            command_id, stage_id, leg_index, observation, recorded_at_ns, w, r),
    }
}

/// The complete effect of one command on an executor whose legs are `v` and
/// whose own record is `b`: a halted executor refuses everything; an invalid
/// or oversized command is refused and changes nothing; a remembered id is
/// answered from memory when its content is the same and halts the executor
/// otherwise; a clock regression and a full counter halt it; a fresh command
/// runs its step, whose failure halts the executor (a step that failed after
/// changing the legs, as `observe_step` describes, leaves that change under
/// the halt), and whose decision is sealed and remembered.
pub open spec fn exec_apply_spec(
    v: PairedExecutionView,
    b: ExecutionBook,
    cmd: PairedExecutionCommand,
    stage: Option<StageView>,
    reservation_active: bool,
    w: PairedExecutionView,
    b2: ExecutionBook,
    r: Result<PairedExecutionDecision, Error>,
) -> bool {
    let id = cmd.id_of();
    if b.halted is Some {
        w == v && b2 == b && (r matches Err(Error::Halted(s)) && s@ == b.halted->0)
    } else if !command_valid(cmd) {
        w == v && b2 == b && r == Err::<PairedExecutionDecision, Error>(Error::Timestamp)
    } else if wire_bytes(cmd).len() > MAX_COMMAND_BYTES {
        w == v && b2 == b && r == Err::<PairedExecutionDecision, Error>(Error::CommandBound)
    } else if exec_remembers(b.processed, id) {
        let e = exec_entry_for(b.processed, id);
        if e.content_digest@ == command_digest(cmd) {
            w == v && b2 == b && r == Ok::<PairedExecutionDecision, Error>(e.decision)
        } else {
            w == v && exec_halted_with(b, b2, Error::IdempotencyConflict)
                && r == Err::<PairedExecutionDecision, Error>(Error::IdempotencyConflict)
        }
    } else if b.last_recorded_at_ns matches Some(p) && cmd.recorded_at() < p {
        w == v && exec_halted_with(b, b2, Error::ClockRegression)
            && r == Err::<PairedExecutionDecision, Error>(Error::ClockRegression)
    } else if b.accepted_commands == u64::MAX {
        w == v && exec_halted_with(b, b2, Error::Overflow) && r == Err::<PairedExecutionDecision, Error>(Error::Overflow)
    } else {
        exists|fr: Result<PairedExecutionDecision, Error>| {
            &&& #[trigger] fresh_step(v, cmd, stage, reservation_active, w, fr)
            &&& match fr {
                Err(e) => exec_halted_with(b, b2, e) && r == Err::<PairedExecutionDecision, Error>(e),
                Ok(d) => r matches Ok(s) && s == (PairedExecutionDecision { decision_digest: s.decision_digest, ..d })
                    && decision_sealed(s) && exec_recorded(b, cmd, s, b2),
            }
        }
    }
}

/// The executor of paired legs: it owns the placement policy and the legs'
/// orders, and hands each new fill to settlement once.
pub struct PairedPaperExecution {
    policy: PairedPlacementPolicy,
    orders: Vec<PairedPaperOrder>,
    used_permits: Vec<[u8; 32]>,
    handoff_digests: Vec<[u8; 32]>,
    ledger_command_ids: Vec<[u8; 32]>,
    processed: Vec<PairedExecutionEntry>,
    accepted_commands: u64,
    last_recorded_at_ns: Option<i64>,
    last_decision: Option<PairedExecutionDecision>,
    halted: Option<String>,
}

impl View for PairedPaperExecution {
    type V = PairedExecutionView;

    closed spec fn view(&self) -> PairedExecutionView {
        PairedExecutionView {
            mode: self.policy.mode_view(),
            records: self.policy.records_view(),
            book: self.policy.book_view(),
            orders: self.orders@,
            used_permits: self.used_permits@,
            handoff_digests: self.handoff_digests@,
            ledger_command_ids: self.ledger_command_ids@,
        }
    }
}

fn decide(
    command_id: PairedExecutionCommandId,
    status: PairedExecutionStatus,
    reason: PairedExecutionReason,
    stage_id: PairStageId,
    leg_index: u8,
    state: Option<OrderState>,
    handoff: Option<ReconciliationHandoff>,
) -> (d: PairedExecutionDecision)
    ensures
        answered(d, command_id, status, reason, stage_id, leg_index, state, handoff),
{
    PairedExecutionDecision {
        command_id,
        status,
        reason,
        stage_id: Some(stage_id),
        leg_index: Some(leg_index),
        state,
        policy_decision: None,
        new_handoff: handoff,
        decision_digest: [0u8; 32],
    }
}

fn seen_digest(ds: &Vec<[u8; 32]>, d: &[u8; 32]) -> (r: bool)
    ensures
        r == exists|i: int| 0 <= i < ds@.len() && (#[trigger] ds@[i])@ == d@,
{
    let mut i: usize = 0;
    while i < ds.len()
        invariant
            i <= ds@.len(),
            forall|k: int| 0 <= k < i ==> (#[trigger] ds@[k])@ != d@,
        decreases ds@.len() - i,
    {
        if digest_eq(&ds[i], d) {
            assert(ds@[i as int]@ == d@);
            return true;
        }
        i = i + 1;
    }
    false
}

impl PairedPaperExecution {
    /// The policy's invariant holds and no two orders belong to the same leg.
    pub closed spec fn wf(&self) -> bool {
        &&& self.policy.wf()
        &&& legs_unique(self.orders@)
        &&& exec_ids_unique(self.processed@)
        &&& decisions_sealed(self.processed@)
    }

    /// The executor's own record of commands: what it remembers, how many it
    /// accepted, when the last was recorded, its last decision, and why it
    /// halted, if it did.
    pub closed spec fn exec_book(&self) -> ExecutionBook {
        ExecutionBook {
            processed: self.processed@,
            accepted_commands: self.accepted_commands,
            last_recorded_at_ns: self.last_recorded_at_ns,
            last_decision: self.last_decision,
            halted: match &self.halted {
                Some(s) => Some(s@),
                None => None,
            },
        }
    }

    /// An executor with an empty policy and no orders.
    pub fn new() -> (e: Self)
        ensures
            e.wf(),
            e@.mode is None,
            e@.records.len() == 0,
            e@.book.processed.len() == 0,
            e@.book.halted is None,
            e@.orders.len() == 0,
            e@.used_permits.len() == 0,
            e@.handoff_digests.len() == 0,
            e@.ledger_command_ids.len() == 0,
            e.exec_book().processed.len() == 0,
            e.exec_book().accepted_commands == 0,
            e.exec_book().last_recorded_at_ns is None,
            e.exec_book().last_decision is None,
            e.exec_book().halted is None,
    {
        PairedPaperExecution {
            policy: PairedPlacementPolicy::new(),
            orders: Vec::new(),
            used_permits: Vec::new(),
            handoff_digests: Vec::new(),
            ledger_command_ids: Vec::new(),
            processed: Vec::new(),
            accepted_commands: 0,
            last_recorded_at_ns: None,
            last_decision: None,
            halted: None,
        }
    }

    /// The placement policy this executor owns.
    pub fn policy(&self) -> (r: &PairedPlacementPolicy)
        ensures
            r.mode_view() == self@.mode,
            r.records_view() == self@.records,
            self.wf() ==> r.wf(),
    {
        &self.policy
    }

    fn find(&self, stage_id: &PairStageId, leg_index: u8) -> (r: Option<usize>)
        requires
            self.wf(),
        ensures
            match r {
                Some(i) => i < self@.orders.len() && leg_position(self@.orders, *stage_id, leg_index) == Some(i as int),
                None => leg_position(self@.orders, *stage_id, leg_index) is None,
            },
    {
        let mut i: usize = 0;
        while i < self.orders.len()
            invariant
                i <= self.orders@.len(),
                legs_unique(self.orders@),
                forall|k: int| 0 <= k < i ==> !same_leg(#[trigger] self.orders@[k], *stage_id, leg_index),
            decreases self.orders@.len() - i,
        {
            if digest_eq(&self.orders[i].permit.stage_id.0, &stage_id.0) && self.orders[i].permit.leg_index == leg_index {
                let ghost os = self.orders@;
                assert(same_leg(os[i as int], *stage_id, leg_index));
                assert(has_leg(os, *stage_id, leg_index));
                let ghost c = choose|j: int| 0 <= j < os.len() && same_leg(#[trigger] os[j], *stage_id, leg_index);
                assert(c == i as int) by {
                    if c > i as int {
                        assert(!same_leg(os[i as int], os[c].permit.stage_id, os[c].permit.leg_index));
                    }
                }
                return Some(i);
            }
            i = i + 1;
        }
        None
    }

    /// The order of leg `leg_index` of pair `stage_id`, if it was submitted.
    pub fn order(&self, stage_id: &PairStageId, leg_index: u8) -> (r: Option<&PairedPaperOrder>)
        requires
            self.wf(),
        ensures
            match r {
                Some(o) => leg_position(self@.orders, *stage_id, leg_index) matches Some(k) && *o == self@.orders[k],
                None => leg_position(self@.orders, *stage_id, leg_index) is None,
            },
    {
        match self.find(stage_id, leg_index) {
            Some(i) => Some(&self.orders[i]),
            None => None,
        }
    }

    fn sync_policy(
        &mut self,
        id: PairedExecutionCommandId,
        permit: &PairPermit,
        state: LegState,
        source_sequence: u64,
        observed_at_ns: i64,
        at: i64,
    ) -> (r: Result<(), Error>)
        requires
            old(self).wf(),
        ensures
            final(self).wf(),
            policy_synced(old(self)@.mode, old(self)@.records, old(self)@.book, id, *permit, state, source_sequence,
                observed_at_ns, at, final(self)@.mode, final(self)@.records, final(self)@.book, r),
            same_books(old(self)@, final(self)@),
            final(self).exec_book() == old(self).exec_book(),
    {
        let command = PairedPolicyCommand::ObserveLeg {
            command_id: sync_command_id(id, permit.permit_id, state),
            stage_id: permit.stage_id,
            leg_index: permit.leg_index,
            permit_id: permit.permit_id,
            state,
            source_sequence,
            observed_at_ns,
            recorded_at_ns: at,
        };
        let pr = self.policy.apply(&command, None);
        let ghost answer = pr;
        assert(policy_apply_spec(old(self)@.mode, old(self)@.records, old(self)@.book, command, None, self@.mode,
            self@.records, self@.book, answer));
        match pr {
            Err(e) => Err(Error::Policy(e)),
            Ok(d) => if d.status == PairedPolicyStatus::Accepted {
                Ok(())
            } else {
                Err(Error::Boundary)
            },
        }
    }

    /// Submits a leg under `permit`. `reservation_active` is whether the
    /// staging runtime holds the leg's reservation as active.
    pub fn submit(
        &mut self,
        id: PairedExecutionCommandId,
        permit: &PairPermit,
        local_submission_id: &str,
        reservation_active: bool,
        at: i64,
    ) -> (r: Result<PairedExecutionDecision, Error>)
        requires
            old(self).wf(),
        ensures
            final(self).wf(),
            submit_step(old(self)@, id, *permit, local_submission_id@, reservation_active, at, final(self)@, r),
            final(self).exec_book() == old(self).exec_book(),
    {
        let existing = self.find(&permit.stage_id, permit.leg_index);
        let denial = submit_check(permit, &self.used_permits, self.policy.record(&permit.stage_id), reservation_active,
            at, existing.is_some());
        match denial {
            Some(reason) => {
                let state = match existing {
                    Some(k) => Some(copy_state(&self.orders[k].order.state)),
                    None => None,
                };
                return Ok(decide(id, PairedExecutionStatus::Denied, reason, permit.stage_id, permit.leg_index, state, None));
            },
            None => {},
        }
        let order = match submitted_order(permit.order.duplicate(), local_submission_id, permit.permit_digest) {
            Ok(o) => o,
            Err(_) => {
                return Err(Error::Identifier);
            },
        };
        let ghost before = self@;
        match self.sync_policy(id, permit, LegState::Submitted, 0, at, at) {
            Ok(_) => {},
            Err(e) => {
                return Err(e);
            },
        }
        let ghost synced = self@;
        assert(policy_synced(before.mode, before.records, before.book, id, *permit, LegState::Submitted, 0, at, at,
            synced.mode, synced.records, synced.book, Ok(())));
        let leg = PairedPaperOrder { permit: permit.duplicate(), order };
        proof {
            let os = self.orders@;
            assert(!has_leg(os, permit.stage_id, permit.leg_index));
            assert forall|a: int, b: int| 0 <= a < b < os.push(leg).len() implies
                !same_leg(#[trigger] os.push(leg)[a], os.push(leg)[b].permit.stage_id, #[trigger] os.push(leg)[b].permit.leg_index) by {
                assert(os.push(leg)[a] == os[a]);
                if b < os.len() {
                    assert(os.push(leg)[b] == os[b]);
                } else {
                    assert(!same_leg(os[a], permit.stage_id, permit.leg_index));
                }
            }
        }
        self.used_permits.push(permit.permit_digest);
        self.orders.push(leg);
        assert(self@.orders.drop_last() =~= before.orders);
        assert(self@.mode == synced.mode && self@.records == synced.records && self@.book == synced.book);
        assert(fresh_leg(self@.orders.last(), *permit, local_submission_id@));
        Ok(decide(id, PairedExecutionStatus::Applied, PairedExecutionReason::SubmissionAccepted, permit.stage_id,
            permit.leg_index, Some(OrderState::Active(ActiveState::Submitted)), None))
    }

    /// Requests the cancel of a leg's order.
    pub fn request_cancel(&mut self, id: PairedExecutionCommandId, stage_id: PairStageId, leg_index: u8, at: i64) -> (d: PairedExecutionDecision)
        requires
            old(self).wf(),
        ensures
            final(self).wf(),
            cancel_step(old(self)@, id, stage_id, leg_index, at, final(self)@, d),
            final(self).exec_book() == old(self).exec_book(),
    {
        let k = match self.find(&stage_id, leg_index) {
            None => {
                return decide(id, PairedExecutionStatus::Denied, PairedExecutionReason::CancelDenied, stage_id, leg_index,
                    None, None);
            },
            Some(k) => k,
        };
        if !may_cancel(Some(&self.orders[k].order.state), at) {
            let state = copy_state(&self.orders[k].order.state);
            return decide(id, PairedExecutionStatus::Denied, PairedExecutionReason::CancelDenied, stage_id, leg_index,
                Some(state), None);
        }
        let ghost before = self@;
        let mut leg = self.orders.remove(k);
        request_cancel(&mut leg.order, at);
        let state = copy_state(&leg.order.state);
        self.orders.insert(k, leg);
        proof {
            let os = self@.orders;
            assert(os =~= before.orders.update(k as int, os[k as int]));
            assert forall|a: int, b: int| 0 <= a < b < os.len() implies
                !same_leg(#[trigger] os[a], os[b].permit.stage_id, #[trigger] os[b].permit.leg_index) by {
                assert(!same_leg(before.orders[a], before.orders[b].permit.stage_id, before.orders[b].permit.leg_index));
            }
        }
        decide(id, PairedExecutionStatus::Applied, PairedExecutionReason::CancelRequested, stage_id, leg_index, Some(state),
            None)
    }

    /// Forwards one command to the owned placement policy. `stage` is what the
    /// staging runtime holds for the pair an authorization names.
    pub fn apply_policy(
        &mut self,
        id: PairedExecutionCommandId,
        command: &PairedPolicyCommand,
        stage: Option<&StageView>,
        at: i64,
    ) -> (r: Result<PairedExecutionDecision, Error>)
        requires
            old(self).wf(),
        ensures
            final(self).wf(),
            policy_command_step(old(self)@, id, *command, match stage { Some(s) => Some(*s), None => None }, at,
                final(self)@, r),
            final(self).exec_book() == old(self).exec_book(),
    {
        let observe = match command {
            PairedPolicyCommand::ObserveLeg { .. } => true,
            _ => false,
        };
        if command.recorded_at_ns() != at || observe {
            return Err(Error::Boundary);
        }
        let ghost before = self@;
        let pr = self.policy.apply(command, stage);
        let ghost answer = pr;
        assert(policy_apply_spec(before.mode, before.records, before.book, *command,
            match stage { Some(s) => Some(*s), None => None }, self@.mode, self@.records, self@.book, answer));
        match pr {
            Err(e) => Err(Error::Policy(e)),
            Ok(d) => {
                let status = if d.status == PairedPolicyStatus::Accepted {
                    PairedExecutionStatus::Applied
                } else {
                    PairedExecutionStatus::Denied
                };
                let leg_index = match &d.permit {
                    Some(p) => Some(p.leg_index),
                    None => None,
                };
                Ok(PairedExecutionDecision {
                    command_id: id,
                    status,
                    reason: PairedExecutionReason::PolicyApplied,
                    stage_id: d.stage_id,
                    leg_index,
                    state: None,
                    policy_decision: Some(d),
                    new_handoff: None,
                    decision_digest: [0u8; 32],
                })
            },
        }
    }

    /// Forwards the staging runtime's answer to a staging request to the
    /// owned policy: `None` when the pair was not traded, else the staged pair.
    pub fn record_staged(
        &mut self,
        id: PairedExecutionCommandId,
        command_id: PairedPolicyCommandId,
        staged: Option<&StageView>,
    ) -> (r: Result<PairedExecutionDecision, Error>)
        requires
            old(self).wf(),
        ensures
            final(self).wf(),
            same_books(old(self)@, final(self)@),
            final(self)@.mode == old(self)@.mode,
            final(self)@.book == old(self)@.book,
            final(self).exec_book() == old(self).exec_book(),
            exists|pr: Result<PairedPolicyDecision, PolicyError>| {
                &&& #[trigger] staging_recorded(old(self)@.records, command_id, stage_value(staged), final(self)@.records, pr)
                &&& match pr {
                    Err(e) => r == Err::<PairedExecutionDecision, Error>(Error::Policy(e)),
                    Ok(pd) => r matches Ok(d) && d.command_id == id && d.reason == PairedExecutionReason::PolicyApplied
                        && d.status == (if pd.status == PairedPolicyStatus::Accepted {
                            PairedExecutionStatus::Applied
                        } else {
                            PairedExecutionStatus::Denied
                        })
                        && d.stage_id == pd.stage_id && d.leg_index is None && d.state is None
                        && d.policy_decision == Some(pd) && d.new_handoff is None,
                }
            },
    {
        let ghost before = self@;
        let pr = self.policy.record_staged(command_id, staged);
        let ghost answer = pr;
        assert(staging_recorded(before.records, command_id, stage_value(staged), self@.records, answer));
        match pr {
            Err(e) => Err(Error::Policy(e)),
            Ok(d) => {
                let status = if d.status == PairedPolicyStatus::Accepted {
                    PairedExecutionStatus::Applied
                } else {
                    PairedExecutionStatus::Denied
                };
                Ok(PairedExecutionDecision {
                    command_id: id,
                    status,
                    reason: PairedExecutionReason::PolicyApplied,
                    stage_id: d.stage_id,
                    leg_index: None,
                    state: None,
                    policy_decision: Some(d),
                    new_handoff: None,
                    decision_digest: [0u8; 32],
                })
            },
        }
    }

    /// Applies one exchange observation to a leg's order.
    #[verifier::rlimit(100)]
    pub fn observe(
        &mut self,
        id: PairedExecutionCommandId,
        stage_id: PairStageId,
        leg_index: u8,
        observation: &ExchangeObservation,
        at: i64,
    ) -> (r: Result<PairedExecutionDecision, Error>)
        requires
            old(self).wf(),
        ensures
            final(self).wf(),
            observe_step(old(self)@, id, stage_id, leg_index, *observation, at, final(self)@, r),
            final(self).exec_book() == old(self).exec_book(),
    {
        let k = match self.find(&stage_id, leg_index) {
            None => {
                return Err(Error::Lifecycle);
            },
            Some(k) => k,
        };
        if !digest_eq(&observation.order_id.0, &self.orders[k].permit.order.order_id.0) {
            return Err(Error::Boundary);
        }
        if observation.source_sequence == 0 || observation.event_time_ns < 0
            || observation.received_time_ns < observation.event_time_ns || observation.received_time_ns > at {
            return Err(Error::SourceHistory);
        }
        match validate_source_history(&self.orders[k].order, observation) {
            Ok(_) => {},
            Err(_) => {
                return Err(Error::SourceHistory);
            },
        }
        let ghost before = self@;
        let ghost o = self@.orders[k as int];
        let mut leg = self.orders.remove(k);
        assert(leg == o);
        let h = match observe_order(&mut leg.order, observation) {
            Ok(h) => h,
            Err(e) => {
                self.orders.insert(k, leg);
                assert(self@.orders =~= before.orders);
                return Err(map_paper_error(e));
            },
        };
        let ghost n = leg.order;
        assert(order_observed(o.order, *observation, n, h));
        let state = policy_state_for(&leg.order, &observation.event);
        let order_state = copy_state(&leg.order.state);
        let permit = leg.permit.duplicate();
        self.orders.insert(k, leg);
        proof {
            let os = self@.orders;
            assert(os =~= before.orders.update(k as int, PairedPaperOrder { permit: o.permit, order: n }));
            assert forall|a: int, b: int| 0 <= a < b < os.len() implies
                !same_leg(#[trigger] os[a], os[b].permit.stage_id, #[trigger] os[b].permit.leg_index) by {
                assert(!same_leg(before.orders[a], before.orders[b].permit.stage_id, before.orders[b].permit.leg_index));
            }
        }
        let ghost advanced = self@;
        let digest = match &h {
            Some(x) => {
                let d = handoff_registration_digest(x);
                let by_digest = seen_digest(&self.handoff_digests, &d);
                let by_ledger = seen_digest(&self.ledger_command_ids, &x.intent.ledger_command_id);
                if by_digest || by_ledger {
                    proof {
                        assert(self.handoff_digests@ == before.handoff_digests);
                        assert(self.ledger_command_ids@ == before.ledger_command_ids);
                        if by_digest {
                            let i = choose|i: int| 0 <= i < self.handoff_digests@.len() && (#[trigger] self.handoff_digests@[i])@ == d@;
                            assert(before.handoff_digests[i]@ == handoff_registration_digest_spec(*x));
                        } else {
                            let i = choose|i: int| 0 <= i < self.ledger_command_ids@.len()
                                && (#[trigger] self.ledger_command_ids@[i])@ == x.intent.ledger_command_id@;
                            assert(before.ledger_command_ids[i]@ == x.intent.ledger_command_id@);
                        }
                        assert(handoff_seen(before, *x));
                    }
                    return Err(Error::Handoff);
                }
                proof {
                    assert(self.handoff_digests@ == before.handoff_digests);
                    assert(self.ledger_command_ids@ == before.ledger_command_ids);
                    assert(!handoff_seen(before, *x));
                }
                Some(d)
            },
            None => None,
        };
        proof {
            assert(h is Some <==> digest is Some);
            if h is Some {
                assert(digest->0@ == handoff_registration_digest_spec(h->0));
                assert(!handoff_seen(before, h->0));
            }
        }
        match self.sync_policy(id, &permit, state, observation.source_sequence, observation.event_time_ns, at) {
            Ok(_) => {},
            Err(e) => {
                assert(policy_synced(before.mode, before.records, before.book, id, o.permit,
                    leg_state_for(n.cumulative_quantity_micros, n.state, observation.event), observation.source_sequence,
                    observation.event_time_ns, at, self@.mode, self@.records, self@.book, Err::<(), Error>(e)));
                return Err(e);
            },
        }
        let ghost synced = self@;
        assert(policy_synced(before.mode, before.records, before.book, id, o.permit,
            leg_state_for(n.cumulative_quantity_micros, n.state, observation.event), observation.source_sequence,
            observation.event_time_ns, at, synced.mode, synced.records, synced.book, Ok(())));
        assert(self@.orders == advanced.orders && self@.used_permits == before.used_permits);
        match (&h, digest) {
            (Some(x), Some(d)) => {
                self.handoff_digests.push(d);
                self.ledger_command_ids.push(x.intent.ledger_command_id);
                assert(self@.handoff_digests.drop_last() =~= before.handoff_digests);
            },
            _ => {},
        }
        let d = decide(id, PairedExecutionStatus::Applied, PairedExecutionReason::ObservationApplied, stage_id, leg_index,
            Some(order_state), h);
        assert(leg_position(before.orders, stage_id, leg_index) == Some(k as int));
        assert(observation_in_order(o.order, *observation, at));
        assert(observe_error(o.order, *observation) is None);
        assert(self@.orders == before.orders.update(k as int, PairedPaperOrder { permit: o.permit, order: n }));
        assert(self@.mode == synced.mode && self@.records == synced.records && self@.book == synced.book);
        assert(answered(d, id, PairedExecutionStatus::Applied, PairedExecutionReason::ObservationApplied, stage_id,
            leg_index, Some(n.state), h));
        Ok(d)
    }
}

impl PairedPaperExecution {
    /// Whether an integrity failure has halted the executor.
    pub fn is_halted(&self) -> (r: bool)
        ensures
            r == self.exec_book().halted is Some,
    {
        self.halted.is_some()
    }

    /// How many fresh commands the executor has accepted.
    pub fn accepted_commands(&self) -> (r: u64)
        ensures
            r == self.exec_book().accepted_commands,
    {
        self.accepted_commands
    }

    fn lookup_entry(&self, id: &PairedExecutionCommandId) -> (r: Option<usize>)
        requires
            self.wf(),
        ensures
            match r {
                Some(i) => i < self.exec_book().processed.len()
                    && self.exec_book().processed[i as int] == exec_entry_for(self.exec_book().processed, *id)
                    && exec_remembers(self.exec_book().processed, *id),
                None => !exec_remembers(self.exec_book().processed, *id),
            },
    {
        let mut i: usize = 0;
        while i < self.processed.len()
            invariant
                i <= self.processed@.len(),
                exec_ids_unique(self.processed@),
                forall|j: int| 0 <= j < i ==> (#[trigger] self.processed@[j]).command_id.0@ != id.0@,
            decreases self.processed@.len() - i,
        {
            if digest_eq(&self.processed[i].command_id.0, &id.0) {
                proof {
                    let ps = self.processed@;
                    let k = choose|k: int| 0 <= k < ps.len() && (#[trigger] ps[k]).command_id.0@ == id.0@;
                    if k < i {
                        assert(ps[k].command_id.0@ != id.0@);
                    } else if k > i {
                        assert(ps[i as int].command_id.0@ != ps[k].command_id.0@);
                    }
                }
                return Some(i);
            }
            i = i + 1;
        }
        None
    }

    fn halt(&mut self, error: Error) -> (r: Result<PairedExecutionDecision, Error>)
        requires
            old(self).wf(),
        ensures
            final(self).wf(),
            final(self)@ == old(self)@,
            exec_halted_with(old(self).exec_book(), final(self).exec_book(), error),
            r == Err::<PairedExecutionDecision, Error>(error),
    {
        self.halted = Some(exec_halt_message(&error));
        Err(error)
    }

    /// Applies one command: a halted executor refuses everything; a replayed
    /// command gets its remembered decision; a reused id with other content, a
    /// clock regression, a full counter and any failure of a fresh command
    /// halt the executor. `stage` is what the staging runtime holds for the
    /// pair a forwarded authorization names; `reservation_active` is whether
    /// it holds a submitted leg's reservation as active.
    #[verifier::rlimit(60)]
    pub fn apply(
        &mut self,
        command: &PairedExecutionCommand,
        stage: Option<&StageView>,
        reservation_active: bool,
    ) -> (r: Result<PairedExecutionDecision, Error>)
        requires
            old(self).wf(),
        ensures
            final(self).wf(),
            exec_apply_spec(old(self)@, old(self).exec_book(), *command, stage_value(stage), reservation_active,
                final(self)@, final(self).exec_book(), r),
            r matches Ok(d) ==> decision_sealed(d),
    {
        if let Some(reason) = &self.halted {
            return Err(Error::Halted(reason.clone()));
        }
        let bytes = match encode_command(command) {
            Ok(b) => b,
            Err(e) => {
                return Err(e);
            },
        };
        let content = blake3_digest(bytes.as_slice());
        let id = command.command_id();
        if let Some(i) = self.lookup_entry(&id) {
            if digest_eq(&self.processed[i].content_digest, &content) {
                return Ok(copy_execution_decision(&self.processed[i].decision));
            }
            return self.halt(Error::IdempotencyConflict);
        }
        let at = command.recorded_at_ns();
        if let Some(previous) = self.last_recorded_at_ns {
            if at < previous {
                return self.halt(Error::ClockRegression);
            }
        }
        if self.accepted_commands == u64::MAX {
            return self.halt(Error::Overflow);
        }
        let ghost v0 = self@;
        let ghost b0 = self.exec_book();
        let fresh = match command {
            PairedExecutionCommand::Policy { command_id, command, recorded_at_ns } => self.apply_policy(*command_id,
                command, stage, *recorded_at_ns),
            PairedExecutionCommand::Submit { command_id, permit, local_submission_id, recorded_at_ns } => self.submit(
                *command_id, permit, local_submission_id.as_str(), reservation_active, *recorded_at_ns),
            PairedExecutionCommand::RequestCancel { command_id, stage_id, leg_index, recorded_at_ns } => Ok(
                self.request_cancel(*command_id, *stage_id, *leg_index, *recorded_at_ns)),
            PairedExecutionCommand::Observe { command_id, stage_id, leg_index, observation, recorded_at_ns } => self.observe(
                *command_id, *stage_id, *leg_index, observation, *recorded_at_ns),
        };
        let ghost answer = fresh;
        assert(fresh_step(v0, *command, stage_value(stage), reservation_active, self@, answer));
        assert(self.exec_book() == b0);
        let d = match fresh {
            Ok(d) => d,
            Err(e) => {
                return self.halt(e);
            },
        };
        let sealed = d.sealed();
        let entry = PairedExecutionEntry { command_id: id, content_digest: content, decision: copy_execution_decision(&sealed) };
        proof {
            let ps = self.processed@;
            assert forall|a: int, c: int| 0 <= a < c < ps.push(entry).len() implies
                (#[trigger] ps.push(entry)[a]).command_id.0@ != (#[trigger] ps.push(entry)[c]).command_id.0@ by {
                assert(ps.push(entry)[a] == ps[a]);
                if c < ps.len() {
                    assert(ps.push(entry)[c] == ps[c]);
                }
            }
            assert forall|a: int| 0 <= a < ps.push(entry).len() implies decision_sealed(#[trigger] ps.push(entry)[a].decision) by {
                if a < ps.len() {
                    assert(ps.push(entry)[a] == ps[a]);
                }
            }
        }
        self.processed.push(entry);
        self.accepted_commands = self.accepted_commands + 1;
        self.last_recorded_at_ns = Some(at);
        self.last_decision = Some(copy_execution_decision(&sealed));
        assert(self.exec_book().processed.drop_last() =~= b0.processed);
        Ok(sealed)
    }
}

/// A halted executor is absorbing: every command is refused with the recorded
/// reason and changes nothing.
pub proof fn law_halted_executor_absorbs(
    v: PairedExecutionView,
    b: ExecutionBook,
    cmd: PairedExecutionCommand,
    stage: Option<StageView>,
    reservation_active: bool,
    w: PairedExecutionView,
    b2: ExecutionBook,
    r: Result<PairedExecutionDecision, Error>,
)
    requires
        exec_apply_spec(v, b, cmd, stage, reservation_active, w, b2, r),
        b.halted is Some,
    ensures
        w == v,
        b2 == b,
        r matches Err(Error::Halted(s)) && s@ == b.halted->0,
{
}

/// Replaying an accepted command returns the same sealed decision and changes
/// nothing, whatever the staging runtime reports the second time.
pub proof fn law_executor_replay_is_idempotent(
    v0: PairedExecutionView,
    b0: ExecutionBook,
    cmd: PairedExecutionCommand,
    stage: Option<StageView>,
    active: bool,
    v1: PairedExecutionView,
    b1: ExecutionBook,
    d1: PairedExecutionDecision,
    stage2: Option<StageView>,
    active2: bool,
    v2: PairedExecutionView,
    b2: ExecutionBook,
    r2: Result<PairedExecutionDecision, Error>,
)
    requires
        exec_ids_unique(b1.processed),
        exec_apply_spec(v0, b0, cmd, stage, active, v1, b1, Ok(d1)),
        exec_apply_spec(v1, b1, cmd, stage2, active2, v2, b2, r2),
    ensures
        v2 == v1,
        b2 == b1,
        r2 == Ok::<PairedExecutionDecision, Error>(d1),
{
    let id = cmd.id_of();
    if !exec_remembers(b0.processed, id) {
        let last = b1.processed.len() - 1;
        assert(b1.processed[last].command_id.0@ == id.0@);
        assert(exec_remembers(b1.processed, id));
        let k = choose|k: int| 0 <= k < b1.processed.len() && (#[trigger] b1.processed[k]).command_id.0@ == id.0@;
        if k != last {
            assert(b1.processed[k].command_id.0@ != b1.processed[last].command_id.0@);
        }
    }
}

/// A leg is submitted only under a live, authentic, unspent permit the policy
/// issued for a leg it holds as authorized with an active reservation, and
/// only once: the permit is spent and the leg has its order afterwards.
pub proof fn law_submission_spends_its_permit_once(
    v: PairedExecutionView,
    id: PairedExecutionCommandId,
    permit: PairPermit,
    local: Seq<char>,
    reservation_active: bool,
    at: i64,
    w: PairedExecutionView,
    r: Result<PairedExecutionDecision, Error>,
)
    requires
        submit_step(v, id, permit, local, reservation_active, at, w, r),
        r matches Ok(d) && d.status == PairedExecutionStatus::Applied,
    ensures
        !permit_used(v.used_permits, permit.permit_digest),
        permit_used(w.used_permits, permit.permit_digest),
        !has_leg(v.orders, permit.stage_id, permit.leg_index),
        has_leg(w.orders, permit.stage_id, permit.leg_index),
        reservation_active,
        permit.valid_from_ns <= at < permit.valid_until_ns,
        lookup(v.records, permit.stage_id) matches Some(rec) && rec.legs[permit.leg_index as int] == LegState::Authorized,
{
    let k = w.used_permits.len() - 1;
    assert(w.used_permits[k] == permit.permit_digest);
    let j = w.orders.len() - 1;
    assert(same_leg(w.orders[j], permit.stage_id, permit.leg_index));
}

/// A fill is handed on to settlement only if settlement has neither its
/// hand-off digest nor its ledger command yet, and then it has both.
pub proof fn law_each_fill_is_handed_on_once(
    v: PairedExecutionView,
    id: PairedExecutionCommandId,
    stage_id: PairStageId,
    leg_index: u8,
    obs: ExchangeObservation,
    at: i64,
    w: PairedExecutionView,
    r: Result<PairedExecutionDecision, Error>,
)
    requires
        observe_step(v, id, stage_id, leg_index, obs, at, w, r),
        r matches Ok(d) && d.new_handoff is Some,
    ensures
        !handoff_seen(v, r->Ok_0.new_handoff->0),
        handoff_seen(w, r->Ok_0.new_handoff->0),
{
    let x = r->Ok_0.new_handoff->0;
    let k = w.handoff_digests.len() - 1;
    assert(w.handoff_digests[k]@ == handoff_registration_digest_spec(x));
}
} // verus!
