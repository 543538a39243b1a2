//! The paper execution engine: one record per order, each placement and
//! cancel permit spent once, every command remembered under its id.

use vstd::prelude::*;
use vstd::string::StringSliceAdditionalSpecFns;
use crate::digest::{blake3_digest, blake3_hash, digest_domain, digest_eq, domain_digest, le_bytes, push_le, Canonical};
use crate::execution::{
    bound_order, cancel_check, cancel_denial, copy_handoff, copy_state, handoff_digest, observation_check,
    observation_digest_spec, observe_error, observe_order, stepped, submission_check, submission_denial,
    submitted_order, text_ok, validate_observation, with_history, with_state, ActiveState, Error,
    ExecutionCommandId, ExecutionReason, ExecutionStatus, OrderState, PaperOrder, ReconciliationHandoff,
};
use crate::risk::types::{OrderExposure, RiskOrderId};
use super::types::{execution_decision_digest_spec, CancelView, ExecutionCommand, ExecutionDecision, PlacementView};

verus! {

broadcast use vstd::string::to_string_from_display_ensures_for_str;

/// Largest encoded command accepted.
pub const MAX_COMMAND_BYTES: usize = 262144;

/// Version of the command encoding.
pub const WIRE_VERSION: u16 = 1;

/// A command's timestamps are non-negative and agree with what it carries.
pub open spec fn command_timestamps_ok(cmd: ExecutionCommand) -> bool {
    &&& cmd.recorded_at() >= 0
    &&& match cmd {
        ExecutionCommand::RequestCancel { request, recorded_at_ns, .. } => request.evaluated_at_ns == recorded_at_ns,
        ExecutionCommand::Observe { observation, recorded_at_ns, .. } => observation.received_time_ns <= recorded_at_ns,
        _ => true,
    }
}

/// The versioned encoding of a command.
pub open spec fn wire_bytes(cmd: ExecutionCommand) -> Seq<u8> {
    le_bytes(WIRE_VERSION as nat, 2) + cmd.canon()
}

/// Encodes one versioned command after checking its timestamps and size.
pub fn encode_command(cmd: &ExecutionCommand) -> (r: Result<Vec<u8>, Error>)
    ensures
        match r {
            Err(e) => if !command_timestamps_ok(*cmd) {
                e == Error::Timestamp
            } else {
                e == Error::CommandBound && wire_bytes(*cmd).len() > MAX_COMMAND_BYTES
            },
            Ok(b) => command_timestamps_ok(*cmd) && b@ == wire_bytes(*cmd) && b@.len() <= MAX_COMMAND_BYTES,
        },
{
    let ok = match cmd {
        ExecutionCommand::Submit { recorded_at_ns, .. } => *recorded_at_ns >= 0,
        ExecutionCommand::RequestCancel { request, recorded_at_ns, .. } => *recorded_at_ns >= 0
            && request.evaluated_at_ns == *recorded_at_ns,
        ExecutionCommand::Observe { observation, recorded_at_ns, .. } => *recorded_at_ns >= 0
            && observation.received_time_ns <= *recorded_at_ns,
    };
    if !ok {
        return Err(Error::Timestamp);
    }
    let mut bytes: Vec<u8> = Vec::new();
    push_le(&mut bytes, 1u128, 2);
    cmd.encode_into(&mut bytes);
    if bytes.len() > MAX_COMMAND_BYTES {
        return Err(Error::CommandBound);
    }
    Ok(bytes)
}

/// The content digest under which a command id is remembered.
pub open spec fn command_digest(cmd: ExecutionCommand) -> Seq<u8> {
    blake3_hash(wire_bytes(cmd))
}

/// One remembered command.
#[derive(Clone, Debug)]
pub struct ExecutionEntry {
    pub command_id: ExecutionCommandId,
    pub content_digest: [u8; 32],
    pub decision: ExecutionDecision,
}

/// The engine as values.
pub struct ExecutionEngineView {
    pub orders: Seq<PaperOrder>,
    pub used_placement_permits: Seq<[u8; 32]>,
    pub used_cancel_permits: Seq<[u8; 32]>,
    pub processed: Seq<ExecutionEntry>,
    pub accepted_commands: u64,
    pub last_recorded_at_ns: Option<i64>,
    pub last_decision: Option<ExecutionDecision>,
    pub halted: Option<Seq<char>>,
}

/// Two order ids name the same order.
pub open spec fn same_order(a: RiskOrderId, b: RiskOrderId) -> bool {
    a.0@ == b.0@
}

pub open spec fn has_order(os: Seq<PaperOrder>, id: RiskOrderId) -> bool {
    exists|i: int| 0 <= i < os.len() && same_order(#[trigger] os[i].placement.order_id, id)
}

/// Where the order `id` stands, if the engine has it.
pub open spec fn order_index(os: Seq<PaperOrder>, id: RiskOrderId) -> Option<int> {
    if has_order(os, id) {
        Some(choose|i: int| 0 <= i < os.len() && same_order(#[trigger] os[i].placement.order_id, id))
    } else {
        None
    }
}

pub open spec fn order_ids_unique(os: Seq<PaperOrder>) -> bool {
    forall|i: int, j: int| 0 <= i < j < os.len() ==> !same_order(#[trigger] os[i].placement.order_id, #[trigger] os[j].placement.order_id)
}

pub open spec fn command_ids_unique(ps: Seq<ExecutionEntry>) -> bool {
    forall|i: int, j: int| 0 <= i < j < ps.len() ==> (#[trigger] ps[i]).command_id.0@ != (#[trigger] ps[j]).command_id.0@
}

pub open spec fn remembers(ps: Seq<ExecutionEntry>, id: ExecutionCommandId) -> bool {
    exists|i: int| 0 <= i < ps.len() && (#[trigger] ps[i]).command_id.0@ == id.0@
}

pub open spec fn entry_for(ps: Seq<ExecutionEntry>, id: ExecutionCommandId) -> ExecutionEntry {
    ps[choose|i: int| 0 <= i < ps.len() && (#[trigger] ps[i]).command_id.0@ == id.0@]
}

/// `d` answers `command_id` with these values, under its own digest.
pub open spec fn decided(
    d: ExecutionDecision,
    command_id: ExecutionCommandId,
    status: ExecutionStatus,
    reason: ExecutionReason,
    order_id: Option<RiskOrderId>,
    state: Option<OrderState>,
    handoff: Option<ReconciliationHandoff>,
) -> bool {
    &&& d.command_id == command_id
    &&& d.status == status
    &&& d.reason == reason
    &&& d.order_id == order_id
    &&& d.state == state
    &&& d.new_handoff == handoff
    &&& d.decision_digest@ == execution_decision_digest_spec(d)
}

/// `n` is the freshly submitted order for `placement`.
pub open spec fn fresh_order(n: PaperOrder, placement: OrderExposure, local: Seq<char>, policy_digest: [u8; 32]) -> bool {
    &&& n.placement == placement
    &&& n.local_submission_id@ == local
    &&& n.placement_policy_digest == policy_digest
    &&& n.exchange_order_id is None
    &&& n.state == OrderState::Active(ActiveState::Submitted)
    &&& n.last_source_sequence is None && n.last_event_time_ns is None && n.last_received_time_ns is None
    &&& n.cumulative_quantity_micros == 0 && n.cumulative_consideration_micros == 0 && n.cumulative_fee_micros == 0
    &&& n.fills@.len() == 0 && n.handoffs@.len() == 0
}

/// The orders and spent permits are unchanged.
pub open spec fn same_books(v: ExecutionEngineView, w: ExecutionEngineView) -> bool {
    &&& w.orders == v.orders
    &&& w.used_placement_permits == v.used_placement_permits
    &&& w.used_cancel_permits == v.used_cancel_permits
}

/// What one fresh command does to the orders and permits, and what it answers.
pub open spec fn fresh_step(v: ExecutionEngineView, cmd: ExecutionCommand, w: ExecutionEngineView, r: Result<ExecutionDecision, Error>) -> bool {
    match cmd {
        ExecutionCommand::Submit { command_id, policy_decision, placement, local_submission_id, recorded_at_ns } => {
            let o = placement.order;
            match submission_denial(policy_decision, placement.subject_digest, o.order_id, placement.evaluated_at_ns,
                placement.authorization_expires_at_ns, recorded_at_ns, v.used_placement_permits, has_order(v.orders, o.order_id)) {
                Some(reason) => same_books(v, w) && (r matches Ok(d)
                    && decided(d, command_id, ExecutionStatus::Denied, reason, Some(o.order_id), None, None)),
                None => if !text_ok(local_submission_id@) {
                    same_books(v, w) && r == Err::<ExecutionDecision, Error>(Error::Identifier)
                } else {
                    &&& w.used_placement_permits == v.used_placement_permits.push(policy_decision.decision_digest)
                    &&& w.used_cancel_permits == v.used_cancel_permits
                    &&& w.orders.len() == v.orders.len() + 1 && w.orders.drop_last() == v.orders
                    &&& fresh_order(w.orders.last(), o, local_submission_id@, policy_decision.decision_digest)
                    &&& r matches Ok(d) && decided(d, command_id, ExecutionStatus::Applied, ExecutionReason::SubmissionAccepted,
                        Some(o.order_id), Some(OrderState::Active(ActiveState::Submitted)), None)
                },
            }
        },
        ExecutionCommand::RequestCancel { command_id, policy_decision, request, .. } => {
            let i = order_index(v.orders, request.order_id);
            let state = match i {
                Some(k) => Some(v.orders[k].state),
                None => None,
            };
            match cancel_denial(policy_decision, request.subject_digest, request.order_id, v.used_cancel_permits, state) {
                Some(reason) => same_books(v, w) && (r matches Ok(d)
                    && decided(d, command_id, ExecutionStatus::Denied, reason, Some(request.order_id), state, None)),
                None => {
                    let k = i->0;
                    let n = with_state(v.orders[k], OrderState::CancelPending { resume: v.orders[k].state->Active_0 });
                    &&& w.orders == v.orders.update(k, n)
                    &&& w.used_cancel_permits == v.used_cancel_permits.push(policy_decision.decision_digest)
                    &&& w.used_placement_permits == v.used_placement_permits
                    &&& r matches Ok(d) && decided(d, command_id, ExecutionStatus::Applied, ExecutionReason::CancelRequested,
                        Some(request.order_id), Some(n.state), None)
                },
            }
        },
        ExecutionCommand::Observe { command_id, observation, .. } => match observation_check(observation) {
            Err(e) => same_books(v, w) && r == Err::<ExecutionDecision, Error>(e),
            Ok(_) => match order_index(v.orders, observation.order_id) {
                None => same_books(v, w) && r == Err::<ExecutionDecision, Error>(Error::LifecycleTransition),
                Some(k) => match observe_error(v.orders[k], observation) {
                    Some(e) => same_books(v, w) && r == Err::<ExecutionDecision, Error>(e),
                    None => {
                        let o = v.orders[k];
                        let n = w.orders[k];
                        &&& w.orders == v.orders.update(k, n)
                        &&& w.used_placement_permits == v.used_placement_permits
                        &&& w.used_cancel_permits == v.used_cancel_permits
                        &&& r matches Ok(d) && decided(d, command_id, ExecutionStatus::Applied, ExecutionReason::ObservationApplied,
                            Some(observation.order_id), Some(n.state), d.new_handoff)
                            && stepped(bound_order(o, observation), observation, handoff_digest(d.new_handoff),
                                with_history(n, o.last_source_sequence, o.last_event_time_ns, o.last_received_time_ns), d.new_handoff)
                            && (d.new_handoff matches Some(x) ==> x.source_observation_digest@ == observation_digest_spec(observation))
                        &&& n.last_source_sequence == Some(observation.source_sequence)
                        &&& n.last_event_time_ns == Some(observation.event_time_ns)
                        &&& n.last_received_time_ns == Some(observation.received_time_ns)
                    },
                },
            },
        },
    }
}

impl ExecutionDecision {
    /// A copy with the same fields.
    pub fn duplicate(&self) -> (r: ExecutionDecision)
        ensures
            r == *self,
    {
        ExecutionDecision {
            command_id: self.command_id,
            status: self.status,
            reason: self.reason,
            order_id: self.order_id,
            state: match &self.state {
                Some(s) => Some(copy_state(s)),
                None => None,
            },
            new_handoff: match &self.new_handoff {
                Some(h) => Some(copy_handoff(h)),
                None => None,
            },
            decision_digest: self.decision_digest,
        }
    }
}

fn decide(
    command_id: ExecutionCommandId,
    status: ExecutionStatus,
    reason: ExecutionReason,
    order_id: Option<RiskOrderId>,
    state: Option<OrderState>,
    handoff: Option<ReconciliationHandoff>,
) -> (d: ExecutionDecision)
    ensures
        decided(d, command_id, status, reason, order_id, state, handoff),
{
    ExecutionDecision { command_id, status, reason, order_id, state, new_handoff: handoff, decision_digest: [0u8; 32] }.sealed()
}

/// The paper execution engine.
#[derive(Debug)]
pub struct PaperExecutionEngine {
    orders: Vec<PaperOrder>,
    used_placement_permits: Vec<[u8; 32]>,
    used_cancel_permits: Vec<[u8; 32]>,
    processed: Vec<ExecutionEntry>,
    accepted_commands: u64,
    last_recorded_at_ns: Option<i64>,
    last_decision: Option<ExecutionDecision>,
    halted: Option<String>,
}

impl View for PaperExecutionEngine {
    type V = ExecutionEngineView;

    closed spec fn view(&self) -> ExecutionEngineView {
        ExecutionEngineView {
            orders: self.orders@,
            used_placement_permits: self.used_placement_permits@,
            used_cancel_permits: self.used_cancel_permits@,
            processed: self.processed@,
            accepted_commands: self.accepted_commands,
            last_recorded_at_ns: self.last_recorded_at_ns,
            last_decision: self.last_decision,
            halted: match self.halted {
                Some(s) => Some(s@),
                None => None,
            },
        }
    }
}

/// Each order and each remembered command appears once.
pub open spec fn engine_wf(v: ExecutionEngineView) -> bool {
    order_ids_unique(v.orders) && command_ids_unique(v.processed)
}

proof fn lemma_orders_update(os: Seq<PaperOrder>, k: int, n: PaperOrder)
    requires
        order_ids_unique(os),
        0 <= k < os.len(),
        n.placement.order_id == os[k].placement.order_id,
    ensures
        order_ids_unique(os.update(k, n)),
{
    let u = os.update(k, n);
    assert forall|a: int, b: int| 0 <= a < b < u.len() implies !same_order(#[trigger] u[a].placement.order_id, #[trigger] u[b].placement.order_id) by {
        assert(u[a].placement.order_id == os[a].placement.order_id);
        assert(u[b].placement.order_id == os[b].placement.order_id);
    }
}

proof fn lemma_orders_push(os: Seq<PaperOrder>, n: PaperOrder)
    requires
        order_ids_unique(os),
        !has_order(os, n.placement.order_id),
    ensures
        order_ids_unique(os.push(n)),
{
    let u = os.push(n);
    assert forall|a: int, b: int| 0 <= a < b < u.len() implies !same_order(#[trigger] u[a].placement.order_id, #[trigger] u[b].placement.order_id) by {
        assert(u[a] == os[a]);
        if b < os.len() {
            assert(u[b] == os[b]);
        } else if same_order(os[a].placement.order_id, n.placement.order_id) {
            assert(has_order(os, n.placement.order_id));
        }
    }
}

impl PaperExecutionEngine {
    pub open spec fn wf(&self) -> bool {
        engine_wf(self@)
    }

    /// An engine that has seen nothing.
    pub fn new() -> (e: Self)
        ensures
            e.wf(),
            e@.orders.len() == 0,
            e@.used_placement_permits.len() == 0,
            e@.used_cancel_permits.len() == 0,
            e@.processed.len() == 0,
            e@.accepted_commands == 0,
            e@.last_recorded_at_ns is None,
            e@.last_decision is None,
            e@.halted is None,
    {
        PaperExecutionEngine {
            orders: Vec::new(),
            used_placement_permits: Vec::new(),
            used_cancel_permits: Vec::new(),
            processed: Vec::new(),
            accepted_commands: 0,
            last_recorded_at_ns: None,
            last_decision: None,
            halted: None,
        }
    }

    pub fn is_halted(&self) -> (r: bool)
        ensures
            r == (self@.halted is Some),
    {
        self.halted.is_some()
    }

    fn find(&self, id: &RiskOrderId) -> (r: Option<usize>)
        requires
            self.wf(),
        ensures
            match r {
                Some(i) => order_index(self@.orders, *id) == Some(i as int) && i < self@.orders.len(),
                None => order_index(self@.orders, *id) is None,
            },
    {
        let mut i: usize = 0;
        while i < self.orders.len()
            invariant
                i <= self.orders@.len(),
                order_ids_unique(self.orders@),
                forall|k: int| 0 <= k < i ==> !same_order(#[trigger] self.orders@[k].placement.order_id, *id),
            decreases self.orders@.len() - i,
        {
            if digest_eq(&self.orders[i].placement.order_id.0, &id.0) {
                let ghost os = self.orders@;
                assert(has_order(os, *id));
                let ghost c = choose|j: int| 0 <= j < os.len() && same_order(#[trigger] os[j].placement.order_id, *id);
                assert(c == i as int) by {
                    if c > i as int {
                        assert(same_order(os[i as int].placement.order_id, os[c].placement.order_id));
                    }
                }
                return Some(i);
            }
            i = i + 1;
        }
        None
    }

    /// The order `id`, if the engine has it.
    pub fn order(&self, id: &RiskOrderId) -> (r: Option<&PaperOrder>)
        requires
            self.wf(),
        ensures
            match r {
                Some(o) => order_index(self@.orders, *id) matches Some(k) && *o == self@.orders[k],
                None => order_index(self@.orders, *id) is None,
            },
    {
        match self.find(id) {
            Some(i) => Some(&self.orders[i]),
            None => None,
        }
    }

    fn submit(
        &mut self,
        command_id: ExecutionCommandId,
        policy: &crate::execution::PolicyView,
        placement: &PlacementView,
        local_submission_id: &String,
        at: i64,
    ) -> (r: Result<ExecutionDecision, Error>)
        requires
            old(self).wf(),
        ensures
            final(self).wf(),
            fresh_step(old(self)@, ExecutionCommand::Submit {
                command_id, policy_decision: *policy, placement: *placement, local_submission_id: *local_submission_id,
                recorded_at_ns: at }, final(self)@, r),
            final(self)@.processed == old(self)@.processed,
            final(self)@.accepted_commands == old(self)@.accepted_commands,
            final(self)@.last_recorded_at_ns == old(self)@.last_recorded_at_ns,
            final(self)@.last_decision == old(self)@.last_decision,
            final(self)@.halted == old(self)@.halted,
    {
        let order_id = placement.order.order_id;
        let exists = self.find(&order_id).is_some();
        match submission_check(policy, &placement.subject_digest, order_id, placement.evaluated_at_ns,
            placement.authorization_expires_at_ns, at, &self.used_placement_permits, exists) {
            Some(reason) => {
                return Ok(decide(command_id, ExecutionStatus::Denied, reason, Some(order_id), None, None));
            },
            None => {},
        }
        let order = submitted_order(placement.order.duplicate(), local_submission_id.as_str(), policy.decision_digest)?;
        proof {
            lemma_orders_push(self.orders@, order);
        }
        self.used_placement_permits.push(policy.decision_digest);
        self.orders.push(order);
        assert(self.orders@.drop_last() =~= old(self)@.orders);
        Ok(decide(command_id, ExecutionStatus::Applied, ExecutionReason::SubmissionAccepted, Some(order_id),
            Some(OrderState::Active(ActiveState::Submitted)), None))
    }

    fn request_cancel(
        &mut self,
        command_id: ExecutionCommandId,
        policy: &crate::execution::PolicyView,
        request: &CancelView,
        at: i64,
    ) -> (r: Result<ExecutionDecision, Error>)
        requires
            old(self).wf(),
        ensures
            final(self).wf(),
            fresh_step(old(self)@, ExecutionCommand::RequestCancel {
                command_id, policy_decision: *policy, request: *request, recorded_at_ns: at }, final(self)@, r),
            final(self)@.processed == old(self)@.processed,
            final(self)@.accepted_commands == old(self)@.accepted_commands,
            final(self)@.last_recorded_at_ns == old(self)@.last_recorded_at_ns,
            final(self)@.last_decision == old(self)@.last_decision,
            final(self)@.halted == old(self)@.halted,
    {
        let found = self.find(&request.order_id);
        let denial = match found {
            Some(k) => cancel_check(policy, &request.subject_digest, request.order_id, &self.used_cancel_permits,
                Some(&self.orders[k].state)),
            None => cancel_check(policy, &request.subject_digest, request.order_id, &self.used_cancel_permits, None),
        };
        match denial {
            Some(reason) => {
                let state = match found {
                    Some(k) => Some(copy_state(&self.orders[k].state)),
                    None => None,
                };
                return Ok(decide(command_id, ExecutionStatus::Denied, reason, Some(request.order_id), state, None));
            },
            None => {},
        }
        let k = match found {
            Some(k) => k,
            None => {
                return Err(Error::LifecycleTransition);
            },
        };
        let ghost before = self.orders@;
        let mut o = self.orders.remove(k);
        let resume = match &o.state {
            OrderState::Active(a) => *a,
            _ => {
                self.orders.insert(k, o);
                assert(self.orders@ =~= before);
                return Err(Error::LifecycleTransition);
            },
        };
        o.state = OrderState::CancelPending { resume };
        let state = copy_state(&o.state);
        self.orders.insert(k, o);
        proof {
            assert(self.orders@ =~= before.update(k as int, self.orders@[k as int]));
            lemma_orders_update(before, k as int, self.orders@[k as int]);
        }
        self.used_cancel_permits.push(policy.decision_digest);
        Ok(decide(command_id, ExecutionStatus::Applied, ExecutionReason::CancelRequested, Some(request.order_id),
            Some(state), None))
    }

    fn observe(&mut self, command_id: ExecutionCommandId, observation: &crate::execution::ExchangeObservation, at: i64) -> (r: Result<ExecutionDecision, Error>)
        requires
            old(self).wf(),
        ensures
            final(self).wf(),
            fresh_step(old(self)@, ExecutionCommand::Observe { command_id, observation: *observation, recorded_at_ns: at },
                final(self)@, r),
            final(self)@.processed == old(self)@.processed,
            final(self)@.accepted_commands == old(self)@.accepted_commands,
            final(self)@.last_recorded_at_ns == old(self)@.last_recorded_at_ns,
            final(self)@.last_decision == old(self)@.last_decision,
            final(self)@.halted == old(self)@.halted,
    {
        validate_observation(observation)?;
        let k = match self.find(&observation.order_id) {
            Some(k) => k,
            None => {
                return Err(Error::LifecycleTransition);
            },
        };
        let ghost before = self.orders@;
        let mut o = self.orders.remove(k);
        let result = observe_order(&mut o, observation);
        let state = copy_state(&o.state);
        self.orders.insert(k, o);
        proof {
            assert(self.orders@ =~= before.update(k as int, self.orders@[k as int]));
            lemma_orders_update(before, k as int, self.orders@[k as int]);
        }
        match result {
            Ok(h) => Ok(decide(command_id, ExecutionStatus::Applied, ExecutionReason::ObservationApplied,
                Some(observation.order_id), Some(state), h)),
            Err(e) => {
                assert(self.orders@ =~= before);
                Err(e)
            },
        }
    }

    /// Applies one fresh command to the orders and permits.
    pub fn apply_fresh(&mut self, command: &ExecutionCommand) -> (r: Result<ExecutionDecision, Error>)
        requires
            old(self).wf(),
        ensures
            final(self).wf(),
            fresh_step(old(self)@, *command, final(self)@, r),
            final(self)@.processed == old(self)@.processed,
            final(self)@.accepted_commands == old(self)@.accepted_commands,
            final(self)@.last_recorded_at_ns == old(self)@.last_recorded_at_ns,
            final(self)@.last_decision == old(self)@.last_decision,
            final(self)@.halted == old(self)@.halted,
    {
        match command {
            ExecutionCommand::Submit { command_id, policy_decision, placement, local_submission_id, recorded_at_ns } => {
                self.submit(*command_id, policy_decision, placement, local_submission_id, *recorded_at_ns)
            },
            ExecutionCommand::RequestCancel { command_id, policy_decision, request, recorded_at_ns } => {
                self.request_cancel(*command_id, policy_decision, request, *recorded_at_ns)
            },
            ExecutionCommand::Observe { command_id, observation, recorded_at_ns } => {
                self.observe(*command_id, observation, *recorded_at_ns)
            },
        }
    }
}

/// The errors that halt the engine: every failure of a fresh command and
/// every integrity failure.
pub open spec fn halt_text(e: Error) -> Seq<char> {
    match e {
        Error::Timestamp => "execution command timestamp is invalid"@,
        Error::CommandBound => "execution command exceeds its canonical bound"@,
        Error::IdempotencyConflict => "execution command id was reused for different content"@,
        Error::ClockRegression => "execution command clock regressed"@,
        Error::SourceHistory => "paper source history regressed or equivocated"@,
        Error::ExchangeOrderIdentity => "paper observation changed immutable exchange order identity"@,
        Error::LifecycleTransition => "paper order lifecycle transition is impossible"@,
        Error::FillInvariant => "paper fill facts are invalid or inconsistent"@,
        Error::Identifier => "paper identifier is invalid"@,
        Error::Overflow => "paper arithmetic overflow"@,
        Error::Json(_) => "execution command JSON is invalid"@,
        Error::Version(_) => "unsupported execution command version"@,
        Error::Halted(_) => "paper execution engine is halted"@,
    }
}

fn halt_message(e: &Error) -> (s: String)
    ensures
        s@ == halt_text(*e),
{
    match e {
        Error::Timestamp => "execution command timestamp is invalid".to_string(),
        Error::CommandBound => "execution command exceeds its canonical bound".to_string(),
        Error::IdempotencyConflict => "execution command id was reused for different content".to_string(),
        Error::ClockRegression => "execution command clock regressed".to_string(),
        Error::SourceHistory => "paper source history regressed or equivocated".to_string(),
        Error::ExchangeOrderIdentity => "paper observation changed immutable exchange order identity".to_string(),
        Error::LifecycleTransition => "paper order lifecycle transition is impossible".to_string(),
        Error::FillInvariant => "paper fill facts are invalid or inconsistent".to_string(),
        Error::Identifier => "paper identifier is invalid".to_string(),
        Error::Overflow => "paper arithmetic overflow".to_string(),
        Error::Json(_) => "execution command JSON is invalid".to_string(),
        Error::Version(_) => "unsupported execution command version".to_string(),
        Error::Halted(_) => "paper execution engine is halted".to_string(),
    }
}

/// `w` is `v` halted with the reason of `e`.
pub open spec fn halted_with(v: ExecutionEngineView, w: ExecutionEngineView, e: Error) -> bool {
    w == ExecutionEngineView { halted: Some(halt_text(e)), ..v }
}

/// `w` records decision `d` for command `cmd` on top of the books `b`.
pub open spec fn recorded(v: ExecutionEngineView, b: ExecutionEngineView, cmd: ExecutionCommand, d: ExecutionDecision, w: ExecutionEngineView) -> bool {
    &&& same_books(b, w)
    &&& w.processed.len() == v.processed.len() + 1
    &&& w.processed.drop_last() == v.processed
    &&& w.processed.last().command_id == cmd.id_of()
    &&& w.processed.last().content_digest@ == command_digest(cmd)
    &&& w.processed.last().decision == d
    &&& w.accepted_commands == v.accepted_commands + 1
    &&& w.last_recorded_at_ns == Some(cmd.recorded_at())
    &&& w.last_decision == Some(d)
    &&& w.halted == v.halted
}

/// The complete effect of applying one command to an engine in state `v`.
pub open spec fn apply_spec(v: ExecutionEngineView, cmd: ExecutionCommand, w: ExecutionEngineView, r: Result<ExecutionDecision, Error>) -> bool {
    let id = cmd.id_of();
    if v.halted is Some {
        w == v && (r matches Err(Error::Halted(s)) && s@ == v.halted->0)
    } else if !command_timestamps_ok(cmd) {
        w == v && r == Err::<ExecutionDecision, Error>(Error::Timestamp)
    } else if wire_bytes(cmd).len() > MAX_COMMAND_BYTES {
        w == v && r == Err::<ExecutionDecision, Error>(Error::CommandBound)
    } else if remembers(v.processed, id) {
        let e = entry_for(v.processed, id);
        if e.content_digest@ == command_digest(cmd) {
            w == v && r == Ok::<ExecutionDecision, Error>(e.decision)
        } else {
            r == Err::<ExecutionDecision, Error>(Error::IdempotencyConflict) && halted_with(v, w, Error::IdempotencyConflict)
        }
    } else if v.last_recorded_at_ns matches Some(p) && cmd.recorded_at() < p {
        r == Err::<ExecutionDecision, Error>(Error::ClockRegression) && halted_with(v, w, Error::ClockRegression)
    } else if v.accepted_commands == u64::MAX {
        r == Err::<ExecutionDecision, Error>(Error::Overflow) && halted_with(v, w, Error::Overflow)
    } else {
        match r {
            Ok(d) => fresh_step(v, cmd, ExecutionEngineView { processed: v.processed,
                accepted_commands: v.accepted_commands, last_recorded_at_ns: v.last_recorded_at_ns,
                last_decision: v.last_decision, halted: v.halted, ..w }, Ok(d))
                && recorded(v, w, cmd, d, w),
            Err(e) => halted_with(v, w, e) && fresh_step(v, cmd, v, Err(e)),
        }
    }
}

impl PaperExecutionEngine {
    fn lookup(&self, id: &ExecutionCommandId) -> (r: Option<usize>)
        requires
            self.wf(),
        ensures
            match r {
                Some(i) => i < self@.processed.len() && self@.processed[i as int] == entry_for(self@.processed, *id)
                    && remembers(self@.processed, *id),
                None => !remembers(self@.processed, *id),
            },
    {
        let mut i: usize = 0;
        while i < self.processed.len()
            invariant
                i <= self.processed@.len(),
                command_ids_unique(self.processed@),
                forall|j: int| 0 <= j < i ==> (#[trigger] self.processed@[j]).command_id.0@ != id.0@,
            decreases self.processed@.len() - i,
        {
            if digest_eq(&self.processed[i].command_id.0, &id.0) {
                proof {
                    let ps = self.processed@;
                    let k = choose|k: int| 0 <= k < ps.len() && (#[trigger] ps[k]).command_id.0@ == id.0@;
                    if k > i {
                        assert(ps[i as int].command_id.0@ != ps[k].command_id.0@);
                    }
                }
                return Some(i);
            }
            i = i + 1;
        }
        None
    }

    fn install_halt(&mut self, error: Error) -> (r: Result<ExecutionDecision, Error>)
        ensures
            r == Err::<ExecutionDecision, Error>(error),
            halted_with(old(self)@, final(self)@, error),
    {
        self.halted = Some(halt_message(&error));
        Err(error)
    }

    /// Applies one command: a halted engine refuses everything; a replayed
    /// command gets its remembered decision; a reused id with other content,
    /// a clock regression and any failure of a fresh command halt the engine,
    /// which then keeps its orders and permits as they were.
    pub fn apply(&mut self, command: &ExecutionCommand) -> (r: Result<ExecutionDecision, Error>)
        requires
            old(self).wf(),
        ensures
            final(self).wf(),
            apply_spec(old(self)@, *command, final(self)@, r),
    {
        if let Some(reason) = &self.halted {
            return Err(Error::Halted(reason.clone()));
        }
        let bytes = encode_command(command)?;
        let digest = blake3_digest(bytes.as_slice());
        let id = command.command_id();
        if let Some(i) = self.lookup(&id) {
            if digest_eq(&self.processed[i].content_digest, &digest) {
                return Ok(self.processed[i].decision.duplicate());
            }
            return self.install_halt(Error::IdempotencyConflict);
        }
        let at = command.recorded_at_ns();
        if let Some(previous) = self.last_recorded_at_ns {
            if at < previous {
                return self.install_halt(Error::ClockRegression);
            }
        }
        if self.accepted_commands == u64::MAX {
            return self.install_halt(Error::Overflow);
        }
        let ghost before = self@;
        let decision = match self.apply_fresh(command) {
            Ok(d) => d,
            Err(e) => {
                return self.install_halt(e);
            },
        };
        let entry = ExecutionEntry { command_id: id, content_digest: digest, decision: decision.duplicate() };
        proof {
            let ps = self.processed@;
            assert forall|a: int, b: int| 0 <= a < b < ps.push(entry).len() implies
                (#[trigger] ps.push(entry)[a]).command_id.0@ != (#[trigger] ps.push(entry)[b]).command_id.0@ by {
                assert(ps.push(entry)[a] == ps[a]);
                if b < ps.len() {
                    assert(ps.push(entry)[b] == ps[b]);
                }
            }
        }
        self.processed.push(entry);
        self.accepted_commands = self.accepted_commands + 1;
        self.last_recorded_at_ns = Some(at);
        self.last_decision = Some(decision.duplicate());
        assert(self@.processed.drop_last() =~= before.processed);
        Ok(decision)
    }
}

/// A halted engine is absorbing: every further command is refused with the
/// recorded halt reason and changes nothing.
pub proof fn law_halted_engine_absorbs(v: ExecutionEngineView, cmd: ExecutionCommand, w: ExecutionEngineView, r: Result<ExecutionDecision, Error>)
    requires
        apply_spec(v, cmd, w, r),
        v.halted is Some,
    ensures
        w == v,
        r matches Err(Error::Halted(s)) && s@ == v.halted->0,
{
}

/// Replaying an accepted command returns the same decision and changes nothing.
pub proof fn law_replay_is_idempotent(
    v: ExecutionEngineView,
    cmd: ExecutionCommand,
    w: ExecutionEngineView,
    d: ExecutionDecision,
    w2: ExecutionEngineView,
    r2: Result<ExecutionDecision, Error>,
)
    requires
        engine_wf(v),
        apply_spec(v, cmd, w, Ok(d)),
        apply_spec(w, cmd, w2, r2),
    ensures
        w2 == w,
        r2 == Ok::<ExecutionDecision, Error>(d),
{
    let id = cmd.id_of();
    if !remembers(v.processed, id) {
        let ps = w.processed;
        let last = ps.len() - 1;
        assert(ps[last] == ps.last());
        assert(remembers(ps, id));
        let k = choose|k: int| 0 <= k < ps.len() && (#[trigger] ps[k]).command_id.0@ == id.0@;
        if k != last {
            assert(ps[k] == v.processed[k]);
            assert(remembers(v.processed, id));
        }
    }
}

/// A refused or failed command never changes an engine's orders or permits.
pub proof fn law_failure_keeps_books(v: ExecutionEngineView, cmd: ExecutionCommand, w: ExecutionEngineView, e: Error)
    requires
        apply_spec(v, cmd, w, Err(e)),
    ensures
        same_books(v, w),
{
}

/// Every order's fills are consistent (see `fills_consistent`).
pub open spec fn books_consistent(os: Seq<PaperOrder>) -> bool {
    forall|i: int| 0 <= i < os.len() ==> crate::execution::fills_consistent(#[trigger] os[i])
}

/// Accepted commands keep every order's cumulative totals the exact sums of
/// its fills, within what was placed, with one hand-off per fill; a newly
/// submitted order starts so when its quantity and fee bound are non-negative.
pub proof fn law_accepted_commands_keep_fills_consistent(
    v: ExecutionEngineView,
    cmd: ExecutionCommand,
    w: ExecutionEngineView,
    d: ExecutionDecision,
)
    requires
        books_consistent(v.orders),
        apply_spec(v, cmd, w, Ok(d)),
        cmd matches ExecutionCommand::Submit { placement, .. } ==> placement.order.quantity_micros >= 0
            && placement.order.max_fee_micros >= 0,
    ensures
        books_consistent(w.orders),
{
    if v.halted is None && command_timestamps_ok(cmd) && wire_bytes(cmd).len() <= MAX_COMMAND_BYTES
        && !remembers(v.processed, cmd.id_of()) && !(v.last_recorded_at_ns matches Some(p) && cmd.recorded_at() < p)
        && v.accepted_commands < u64::MAX {
        match cmd {
            ExecutionCommand::Submit { .. } => {
                assert forall|i: int| 0 <= i < w.orders.len() implies crate::execution::fills_consistent(#[trigger] w.orders[i]) by {
                    if i < v.orders.len() && w.orders.len() == v.orders.len() + 1 {
                        assert(w.orders[i] == w.orders.drop_last()[i]);
                    }
                }
            },
            ExecutionCommand::RequestCancel { .. } => {
                assert forall|i: int| 0 <= i < w.orders.len() implies crate::execution::fills_consistent(#[trigger] w.orders[i]) by {
                    assert(crate::execution::fills_consistent(v.orders[i]));
                }
            },
            ExecutionCommand::Observe { observation, .. } => {
                if observation_check(observation) is Ok {
                    if let Some(k) = order_index(v.orders, observation.order_id) {
                        if observe_error(v.orders[k], observation) is None {
                            let o = v.orders[k];
                            let n = w.orders[k];
                            crate::execution::law_observation_keeps_fills_consistent(o, observation, handoff_digest(d.new_handoff),
                                with_history(n, o.last_source_sequence, o.last_event_time_ns, o.last_received_time_ns), d.new_handoff);
                            assert forall|i: int| 0 <= i < w.orders.len() implies crate::execution::fills_consistent(#[trigger] w.orders[i]) by {
                                assert(crate::execution::fills_consistent(v.orders[i]));
                            }
                        }
                    }
                }
            },
        }
    }
}

impl Canonical for ExecutionEntry {
    open spec fn canon(&self) -> Seq<u8> {
        self.command_id.canon() + self.content_digest.canon() + self.decision.canon()
    }

    fn encode_into(&self, out: &mut Vec<u8>) {
        let ghost start = out@;
        self.command_id.encode_into(out);
        self.content_digest.encode_into(out);
        self.decision.encode_into(out);
        assert(out@ =~= start + self.canon());
    }
}

/// Domain of the engine state digest.
pub open spec fn state_domain() -> Seq<u8> {
    "paper-execution-state-v1".spec_bytes()
}

/// The canonical encoding of an optional text.
pub open spec fn text_canon(t: Option<Seq<char>>) -> Seq<u8> {
    match t {
        None => seq![0u8],
        Some(s) => seq![1u8] + le_bytes(vstd::utf8::encode_utf8(s).len(), 8) + vstd::utf8::encode_utf8(s),
    }
}

/// The canonical encoding of an engine state.
pub open spec fn state_canon(v: ExecutionEngineView) -> Seq<u8> {
    le_bytes(v.orders.len(), 8) + crate::digest::seq_canon(v.orders)
        + le_bytes(v.used_placement_permits.len(), 8) + crate::digest::seq_canon(v.used_placement_permits)
        + le_bytes(v.used_cancel_permits.len(), 8) + crate::digest::seq_canon(v.used_cancel_permits)
        + le_bytes(v.accepted_commands as nat, 8) + v.last_recorded_at_ns.canon() + v.last_decision.canon()
        + le_bytes(v.processed.len(), 8) + crate::digest::seq_canon(v.processed) + text_canon(v.halted)
}

/// The digest of an engine state.
pub open spec fn state_digest_spec(v: ExecutionEngineView) -> Seq<u8> {
    domain_digest(state_domain(), state_canon(v))
}

/// Counts and digest that summarize an execution engine.
#[derive(Clone, Debug, PartialEq, Eq)]
pub struct ExecutionSnapshot {
    pub accepted_commands: u64,
    pub order_count: usize,
    pub used_placement_permits: usize,
    pub used_cancel_permits: usize,
    pub handoff_count: usize,
    pub last_recorded_at_ns: Option<i64>,
    pub last_decision: Option<ExecutionDecision>,
    pub halted: bool,
    pub halt_reason: Option<String>,
    pub digest: [u8; 32],
}

/// How many hand-offs the orders hold between them.
pub open spec fn handoff_total(os: Seq<PaperOrder>) -> int
    decreases os.len(),
{
    if os.len() == 0 { 0 } else { handoff_total(os.drop_last()) + os.last().handoffs@.len() }
}

impl PaperExecutionEngine {
    #[verifier::rlimit(40)]
    fn state_digest(&self) -> (r: [u8; 32])
        ensures
            r@ == state_digest_spec(self@),
    {
        let mut body: Vec<u8> = Vec::new();
        self.orders.encode_into(&mut body);
        let ghost a = body@;
        self.used_placement_permits.encode_into(&mut body);
        self.used_cancel_permits.encode_into(&mut body);
        let ghost b = body@;
        assert(b =~= a + self.used_placement_permits.canon() + self.used_cancel_permits.canon());
        push_le(&mut body, self.accepted_commands as u128, 8);
        self.last_recorded_at_ns.encode_into(&mut body);
        self.last_decision.encode_into(&mut body);
        let ghost c = body@;
        self.processed.encode_into(&mut body);
        self.halted.encode_into(&mut body);
        assert(self.halted.canon() == text_canon(self@.halted));
        assert(body@ =~= c + self.processed.canon() + text_canon(self@.halted));
        assert(body@ =~= state_canon(self@));
        digest_domain("paper-execution-state-v1".as_bytes(), body.as_slice())
    }

    fn count_handoffs(&self) -> (r: Option<usize>)
        ensures
            match r {
                Some(n) => n == handoff_total(self@.orders),
                None => handoff_total(self@.orders) > usize::MAX,
            },
    {
        let mut total: usize = 0;
        let mut i: usize = 0;
        assert(self.orders@.take(0) =~= Seq::<PaperOrder>::empty());
        while i < self.orders.len()
            invariant
                i <= self.orders@.len(),
                total == handoff_total(self.orders@.take(i as int)),
            decreases self.orders@.len() - i,
        {
            assert(self.orders@.take(i + 1).drop_last() =~= self.orders@.take(i as int));
            match total.checked_add(self.orders[i].handoffs.len()) {
                Some(t) => {
                    total = t;
                },
                None => {
                    proof {
                        lemma_handoff_total_mono(self.orders@, i + 1);
                    }
                    return None;
                },
            }
            i = i + 1;
        }
        assert(self.orders@.take(self.orders@.len() as int) =~= self.orders@);
        Some(total)
    }

    /// The engine's counts and digest; the hand-off count saturates at the
    /// largest `usize`.
    pub fn snapshot(&self) -> (s: ExecutionSnapshot)
        ensures
            s.accepted_commands == self@.accepted_commands,
            s.order_count == self@.orders.len(),
            s.used_placement_permits == self@.used_placement_permits.len(),
            s.used_cancel_permits == self@.used_cancel_permits.len(),
            s.handoff_count == (if handoff_total(self@.orders) > usize::MAX { usize::MAX as int } else { handoff_total(self@.orders) }),
            s.last_recorded_at_ns == self@.last_recorded_at_ns,
            s.last_decision == self@.last_decision,
            s.halted == (self@.halted is Some),
            (match s.halt_reason { Some(t) => Some(t@), None => None }) == self@.halted,
            s.digest@ == state_digest_spec(self@),
    {
        ExecutionSnapshot {
            accepted_commands: self.accepted_commands,
            order_count: self.orders.len(),
            used_placement_permits: self.used_placement_permits.len(),
            used_cancel_permits: self.used_cancel_permits.len(),
            handoff_count: match self.count_handoffs() {
                Some(n) => n,
                None => usize::MAX,
            },
            last_recorded_at_ns: self.last_recorded_at_ns,
            last_decision: match &self.last_decision {
                Some(d) => Some(d.duplicate()),
                None => None,
            },
            halted: self.halted.is_some(),
            halt_reason: self.halted.clone(),
            digest: self.state_digest(),
        }
    }
}

proof fn lemma_handoff_total_mono(os: Seq<PaperOrder>, i: int)
    requires
        0 <= i <= os.len(),
    ensures
        handoff_total(os) >= handoff_total(os.take(i)),
    decreases os.len() - i,
{
    if i < os.len() {
        lemma_handoff_total_mono(os, i + 1);
        assert(os.take(i + 1).drop_last() =~= os.take(i));
    } else {
        assert(os.take(i) =~= os);
    }
}
} // verus!
