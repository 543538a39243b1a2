//! The commands, decisions and remembered entries of the paper execution
//! engine, with their canonical encodings.

use vstd::prelude::*;
use vstd::string::StringSliceAdditionalSpecFns;
use crate::digest::{blake3_digest, blake3_hash, digest_domain, digest_eq, domain_digest, push_bytes, zero32, Canonical};
use crate::execution::{
    ExecutionReason, ExecutionStatus, ExchangeObservation, ExecutionCommandId, OrderState, PaperOrder, PolicyAction,
    PolicyReason, PolicyStatus, PolicyView, ReconciliationHandoff, TradeIntent,
};
use crate::risk::types::{OrderExposure, RiskOrderId};

verus! {

/// What the execution engine reads of a placement request; `subject_digest`
/// is the request's digest as the intent policy computed it.
#[derive(Clone, Debug, PartialEq, Eq)]
pub struct PlacementView {
    pub order: OrderExposure,
    pub evaluated_at_ns: i64,
    pub authorization_expires_at_ns: i64,
    pub subject_digest: [u8; 32],
}

/// What the execution engine reads of a cancel request.
#[derive(Clone, Copy, Debug, PartialEq, Eq)]
pub struct CancelView {
    pub order_id: RiskOrderId,
    pub evaluated_at_ns: i64,
    pub subject_digest: [u8; 32],
}

#[derive(Clone, Debug, PartialEq, Eq)]
pub enum ExecutionCommand {
    Submit {
        command_id: ExecutionCommandId,
        policy_decision: PolicyView,
        placement: PlacementView,
        local_submission_id: String,
        recorded_at_ns: i64,
    },
    RequestCancel { command_id: ExecutionCommandId, policy_decision: PolicyView, request: CancelView, recorded_at_ns: i64 },
    Observe { command_id: ExecutionCommandId, observation: ExchangeObservation, recorded_at_ns: i64 },
}

impl ExecutionCommand {
    pub open spec fn id_of(&self) -> ExecutionCommandId {
        match self {
            ExecutionCommand::Submit { command_id, .. } => *command_id,
            ExecutionCommand::RequestCancel { command_id, .. } => *command_id,
            ExecutionCommand::Observe { command_id, .. } => *command_id,
        }
    }

    pub open spec fn recorded_at(&self) -> i64 {
        match self {
            ExecutionCommand::Submit { recorded_at_ns, .. } => *recorded_at_ns,
            ExecutionCommand::RequestCancel { recorded_at_ns, .. } => *recorded_at_ns,
            ExecutionCommand::Observe { recorded_at_ns, .. } => *recorded_at_ns,
        }
    }

    pub fn command_id(&self) -> (r: ExecutionCommandId)
        ensures
            r == self.id_of(),
    {
        match self {
            ExecutionCommand::Submit { command_id, .. } => *command_id,
            ExecutionCommand::RequestCancel { command_id, .. } => *command_id,
            ExecutionCommand::Observe { command_id, .. } => *command_id,
        }
    }

    pub fn recorded_at_ns(&self) -> (r: i64)
        ensures
            r == self.recorded_at(),
    {
        match self {
            ExecutionCommand::Submit { recorded_at_ns, .. } => *recorded_at_ns,
            ExecutionCommand::RequestCancel { recorded_at_ns, .. } => *recorded_at_ns,
            ExecutionCommand::Observe { recorded_at_ns, .. } => *recorded_at_ns,
        }
    }
}

/// The sealed answer to one accepted execution command.
#[derive(Clone, Debug, PartialEq, Eq)]
pub struct ExecutionDecision {
    pub command_id: ExecutionCommandId,
    pub status: ExecutionStatus,
    pub reason: ExecutionReason,
    pub order_id: Option<RiskOrderId>,
    pub state: Option<OrderState>,
    pub new_handoff: Option<ReconciliationHandoff>,
    pub decision_digest: [u8; 32],
}

impl Canonical for ExecutionCommandId {
    open spec fn canon(&self) -> Seq<u8> {
        self.0.canon()
    }

    fn encode_into(&self, out: &mut Vec<u8>) {
        let ghost start = out@;
        self.0.encode_into(out);
        assert(out@ =~= start + self.canon());
    }
}

impl Canonical for PolicyStatus {
    open spec fn canon(&self) -> Seq<u8> {
        match self {
            PolicyStatus::Permit => seq![0u8],
            PolicyStatus::Deny => seq![1u8],
        }
    }

    fn encode_into(&self, out: &mut Vec<u8>) {
        let ghost start = out@;
        match self {
            PolicyStatus::Permit => {
                out.push(0u8);
            },
            PolicyStatus::Deny => {
                out.push(1u8);
            },
        }
        assert(out@ =~= start + self.canon());
    }
}

impl Canonical for PolicyAction {
    open spec fn canon(&self) -> Seq<u8> {
        match self {
            PolicyAction::Place => seq![0u8],
            PolicyAction::Cancel => seq![1u8],
        }
    }

    fn encode_into(&self, out: &mut Vec<u8>) {
        let ghost start = out@;
        match self {
            PolicyAction::Place => {
                out.push(0u8);
            },
            PolicyAction::Cancel => {
                out.push(1u8);
            },
        }
        assert(out@ =~= start + self.canon());
    }
}

impl Canonical for PolicyReason {
    open spec fn canon(&self) -> Seq<u8> {
        match self {
            PolicyReason::PlacementPermitted => seq![0u8],
            PolicyReason::CancelPermitted => seq![1u8],
            PolicyReason::Other => seq![2u8],
        }
    }

    fn encode_into(&self, out: &mut Vec<u8>) {
        let ghost start = out@;
        match self {
            PolicyReason::PlacementPermitted => {
                out.push(0u8);
            },
            PolicyReason::CancelPermitted => {
                out.push(1u8);
            },
            PolicyReason::Other => {
                out.push(2u8);
            },
        }
        assert(out@ =~= start + self.canon());
    }
}

impl Canonical for PolicyView {
    open spec fn canon(&self) -> Seq<u8> {
        self.digest_valid.canon() + self.status.canon() + self.action.canon() + self.reason.canon() + self.subject_digest.canon() + self.order_id.canon() + self.decision_digest.canon()
    }

    fn encode_into(&self, out: &mut Vec<u8>) {
        let ghost start = out@;
        self.digest_valid.encode_into(out);
        self.status.encode_into(out);
        self.action.encode_into(out);
        self.reason.encode_into(out);
        self.subject_digest.encode_into(out);
        self.order_id.encode_into(out);
        self.decision_digest.encode_into(out);
        assert(out@ =~= start + self.canon());
    }
}

impl Canonical for PlacementView {
    open spec fn canon(&self) -> Seq<u8> {
        self.order.canon() + self.evaluated_at_ns.canon() + self.authorization_expires_at_ns.canon() + self.subject_digest.canon()
    }

    fn encode_into(&self, out: &mut Vec<u8>) {
        let ghost start = out@;
        self.order.encode_into(out);
        self.evaluated_at_ns.encode_into(out);
        self.authorization_expires_at_ns.encode_into(out);
        self.subject_digest.encode_into(out);
        assert(out@ =~= start + self.canon());
    }
}

impl Canonical for CancelView {
    open spec fn canon(&self) -> Seq<u8> {
        self.order_id.canon() + self.evaluated_at_ns.canon() + self.subject_digest.canon()
    }

    fn encode_into(&self, out: &mut Vec<u8>) {
        let ghost start = out@;
        self.order_id.encode_into(out);
        self.evaluated_at_ns.encode_into(out);
        self.subject_digest.encode_into(out);
        assert(out@ =~= start + self.canon());
    }
}

impl Canonical for ExecutionCommand {
    open spec fn canon(&self) -> Seq<u8> {
        match self {
            ExecutionCommand::Submit { command_id, policy_decision, placement, local_submission_id, recorded_at_ns } => seq![0u8] + command_id.canon() + policy_decision.canon() + placement.canon() + local_submission_id.canon() + recorded_at_ns.canon(),
            ExecutionCommand::RequestCancel { command_id, policy_decision, request, recorded_at_ns } => seq![1u8] + command_id.canon() + policy_decision.canon() + request.canon() + recorded_at_ns.canon(),
            ExecutionCommand::Observe { command_id, observation, recorded_at_ns } => seq![2u8] + command_id.canon() + observation.canon() + recorded_at_ns.canon(),
        }
    }

    fn encode_into(&self, out: &mut Vec<u8>) {
        let ghost start = out@;
        match self {
            ExecutionCommand::Submit { command_id, policy_decision, placement, local_submission_id, recorded_at_ns } => {
                out.push(0u8);
                command_id.encode_into(out);
                policy_decision.encode_into(out);
                placement.encode_into(out);
                local_submission_id.encode_into(out);
                recorded_at_ns.encode_into(out);
            },
            ExecutionCommand::RequestCancel { command_id, policy_decision, request, recorded_at_ns } => {
                out.push(1u8);
                command_id.encode_into(out);
                policy_decision.encode_into(out);
                request.encode_into(out);
                recorded_at_ns.encode_into(out);
            },
            ExecutionCommand::Observe { command_id, observation, recorded_at_ns } => {
                out.push(2u8);
                command_id.encode_into(out);
                observation.encode_into(out);
                recorded_at_ns.encode_into(out);
            },
        }
        assert(out@ =~= start + self.canon());
    }
}

impl Canonical for ExecutionStatus {
    open spec fn canon(&self) -> Seq<u8> {
        match self {
            ExecutionStatus::Applied => seq![0u8],
            ExecutionStatus::Denied => seq![1u8],
        }
    }

    fn encode_into(&self, out: &mut Vec<u8>) {
        let ghost start = out@;
        match self {
            ExecutionStatus::Applied => {
                out.push(0u8);
            },
            ExecutionStatus::Denied => {
                out.push(1u8);
            },
        }
        assert(out@ =~= start + self.canon());
    }
}

impl Canonical for ExecutionReason {
    open spec fn canon(&self) -> Seq<u8> {
        match self {
            ExecutionReason::SubmissionAccepted => seq![0u8],
            ExecutionReason::CancelRequested => seq![1u8],
            ExecutionReason::ObservationApplied => seq![2u8],
            ExecutionReason::PolicyDigestInvalid => seq![3u8],
            ExecutionReason::PolicyNotPermitted => seq![4u8],
            ExecutionReason::PolicySubjectMismatch => seq![5u8],
            ExecutionReason::PolicyOrderMismatch => seq![6u8],
            ExecutionReason::AuthorizationExpired => seq![7u8],
            ExecutionReason::AuthorizationNotYetValid => seq![8u8],
            ExecutionReason::PolicyAlreadyUsed => seq![9u8],
            ExecutionReason::OrderAlreadyExists => seq![10u8],
            ExecutionReason::OrderUnknown => seq![11u8],
            ExecutionReason::OrderTerminal => seq![12u8],
            ExecutionReason::CancelAlreadyPending => seq![13u8],
        }
    }

    fn encode_into(&self, out: &mut Vec<u8>) {
        let ghost start = out@;
        match self {
            ExecutionReason::SubmissionAccepted => {
                out.push(0u8);
            },
            ExecutionReason::CancelRequested => {
                out.push(1u8);
            },
            ExecutionReason::ObservationApplied => {
                out.push(2u8);
            },
            ExecutionReason::PolicyDigestInvalid => {
                out.push(3u8);
            },
            ExecutionReason::PolicyNotPermitted => {
                out.push(4u8);
            },
            ExecutionReason::PolicySubjectMismatch => {
                out.push(5u8);
            },
            ExecutionReason::PolicyOrderMismatch => {
                out.push(6u8);
            },
            ExecutionReason::AuthorizationExpired => {
                out.push(7u8);
            },
            ExecutionReason::AuthorizationNotYetValid => {
                out.push(8u8);
            },
            ExecutionReason::PolicyAlreadyUsed => {
                out.push(9u8);
            },
            ExecutionReason::OrderAlreadyExists => {
                out.push(10u8);
            },
            ExecutionReason::OrderUnknown => {
                out.push(11u8);
            },
            ExecutionReason::OrderTerminal => {
                out.push(12u8);
            },
            ExecutionReason::CancelAlreadyPending => {
                out.push(13u8);
            },
        }
        assert(out@ =~= start + self.canon());
    }
}

impl Canonical for TradeIntent {
    open spec fn canon(&self) -> Seq<u8> {
        self.intent_id.canon() + self.trade_id.canon() + self.order_id.canon() + self.token.canon() + self.side.canon() + self.quantity_micros.canon() + self.consideration_micros.canon() + self.fee_micros.canon() + self.ledger_command_id.canon()
    }

    fn encode_into(&self, out: &mut Vec<u8>) {
        let ghost start = out@;
        self.intent_id.encode_into(out);
        let ghost a0 = self.intent_id.canon();
        assert(out@ == start + a0);
        self.trade_id.encode_into(out);
        let ghost a1 = a0 + self.trade_id.canon();
        assert(out@ =~= start + a1);
        self.order_id.encode_into(out);
        let ghost a2 = a1 + self.order_id.canon();
        assert(out@ =~= start + a2);
        self.token.encode_into(out);
        let ghost a3 = a2 + self.token.canon();
        assert(out@ =~= start + a3);
        self.side.encode_into(out);
        let ghost a4 = a3 + self.side.canon();
        assert(out@ =~= start + a4);
        self.quantity_micros.encode_into(out);
        let ghost a5 = a4 + self.quantity_micros.canon();
        assert(out@ =~= start + a5);
        self.consideration_micros.encode_into(out);
        let ghost a6 = a5 + self.consideration_micros.canon();
        assert(out@ =~= start + a6);
        self.fee_micros.encode_into(out);
        let ghost a7 = a6 + self.fee_micros.canon();
        assert(out@ =~= start + a7);
        self.ledger_command_id.encode_into(out);
        let ghost a8 = a7 + self.ledger_command_id.canon();
        assert(out@ =~= start + a8);
        assert(out@ =~= start + self.canon());
    }
}

impl Canonical for ReconciliationHandoff {
    open spec fn canon(&self) -> Seq<u8> {
        self.intent.canon() + self.source_sequence.canon() + self.placement_policy_digest.canon() + self.source_observation_digest.canon()
    }

    fn encode_into(&self, out: &mut Vec<u8>) {
        let ghost start = out@;
        self.intent.encode_into(out);
        self.source_sequence.encode_into(out);
        self.placement_policy_digest.encode_into(out);
        self.source_observation_digest.encode_into(out);
        assert(out@ =~= start + self.canon());
    }
}

/// The digest under which a hand-off is registered downstream: the BLAKE3
/// digest of its canonical encoding.
pub open spec fn handoff_registration_digest_spec(h: ReconciliationHandoff) -> Seq<u8> {
    blake3_hash(h.canon())
}

pub fn handoff_registration_digest(h: &ReconciliationHandoff) -> (r: [u8; 32])
    ensures
        r@ == handoff_registration_digest_spec(*h),
{
    let mut bytes: Vec<u8> = Vec::new();
    h.encode_into(&mut bytes);
    assert(bytes@ =~= h.canon());
    blake3_digest(bytes.as_slice())
}

pub open spec fn paper_order_canon_0(v: &PaperOrder) -> Seq<u8> {
    v.placement.canon() + v.local_submission_id.canon() + v.placement_policy_digest.canon() + v.exchange_order_id.canon() + v.state.canon() + v.last_source_sequence.canon() + v.last_event_time_ns.canon()
}

fn paper_order_encode_0(v: &PaperOrder, out: &mut Vec<u8>)
    ensures
        final(out)@ == old(out)@ + paper_order_canon_0(v),
{
    let ghost start = out@;
    v.placement.encode_into(out);
    v.local_submission_id.encode_into(out);
    v.placement_policy_digest.encode_into(out);
    v.exchange_order_id.encode_into(out);
    v.state.encode_into(out);
    v.last_source_sequence.encode_into(out);
    v.last_event_time_ns.encode_into(out);
    assert(out@ =~= start + paper_order_canon_0(v));
}

pub open spec fn paper_order_canon_1(v: &PaperOrder) -> Seq<u8> {
    v.last_received_time_ns.canon() + v.cumulative_quantity_micros.canon() + v.cumulative_consideration_micros.canon() + v.cumulative_fee_micros.canon() + v.fills.canon() + v.handoffs.canon()
}

fn paper_order_encode_1(v: &PaperOrder, out: &mut Vec<u8>)
    ensures
        final(out)@ == old(out)@ + paper_order_canon_1(v),
{
    let ghost start = out@;
    v.last_received_time_ns.encode_into(out);
    v.cumulative_quantity_micros.encode_into(out);
    v.cumulative_consideration_micros.encode_into(out);
    v.cumulative_fee_micros.encode_into(out);
    v.fills.encode_into(out);
    v.handoffs.encode_into(out);
    assert(out@ =~= start + paper_order_canon_1(v));
}

impl Canonical for PaperOrder {
    open spec fn canon(&self) -> Seq<u8> {
        paper_order_canon_0(self) + paper_order_canon_1(self)
    }

    fn encode_into(&self, out: &mut Vec<u8>) {
        let ghost start = out@;
        paper_order_encode_0(self, out);
        paper_order_encode_1(self, out);
        assert(out@ =~= start + self.canon());
    }
}

pub open spec fn execution_decision_body_0(v: &ExecutionDecision) -> Seq<u8> {
    v.command_id.canon() + v.status.canon() + v.reason.canon() + v.order_id.canon() + v.state.canon() + v.new_handoff.canon()
}

fn execution_decision_encode_body_0(v: &ExecutionDecision, out: &mut Vec<u8>)
    ensures
        final(out)@ == old(out)@ + execution_decision_body_0(v),
{
    let ghost start = out@;
    v.command_id.encode_into(out);
    v.status.encode_into(out);
    v.reason.encode_into(out);
    v.order_id.encode_into(out);
    v.state.encode_into(out);
    v.new_handoff.encode_into(out);
    assert(out@ =~= start + execution_decision_body_0(v));
}

/// The encoding of every field but the digest.
pub open spec fn execution_decision_body(v: &ExecutionDecision) -> Seq<u8> {
    execution_decision_body_0(v)
}

pub fn execution_decision_encode_body(v: &ExecutionDecision, out: &mut Vec<u8>)
    ensures
        final(out)@ == old(out)@ + execution_decision_body(v),
{
    let ghost start = out@;
    execution_decision_encode_body_0(v, out);
    assert(out@ =~= start + execution_decision_body(v));
}

impl Canonical for ExecutionDecision {
    open spec fn canon(&self) -> Seq<u8> {
        execution_decision_body(self) + self.decision_digest.canon()
    }

    fn encode_into(&self, out: &mut Vec<u8>) {
        let ghost start = out@;
        execution_decision_encode_body(self, out);
        self.decision_digest.encode_into(out);
        assert(out@ =~= start + self.canon());
    }
}

/// Domain of the digest of an execution decision.
pub open spec fn execution_decision_digest_domain() -> Seq<u8> {
    "paper-execution-decision-v1".spec_bytes()
}

/// The digest of an execution decision: every field, with the digest itself zeroed.
pub open spec fn execution_decision_digest_spec(v: ExecutionDecision) -> Seq<u8> {
    domain_digest(execution_decision_digest_domain(), execution_decision_body(&v) + zero32())
}

pub fn execution_decision_digest(v: &ExecutionDecision) -> (r: [u8; 32])
    ensures
        r@ == execution_decision_digest_spec(*v),
{
    let mut body: Vec<u8> = Vec::new();
    execution_decision_encode_body(v, &mut body);
    let zero = [0u8; 32];
    push_bytes(&mut body, zero.as_slice());
    assert(zero@ =~= zero32());
    digest_domain("paper-execution-decision-v1".as_bytes(), body.as_slice())
}

impl ExecutionDecision {
    /// This value with its digest field set to its own digest.
    pub fn sealed(self) -> (r: Self)
        ensures
            r == (ExecutionDecision { decision_digest: r.decision_digest, ..self }),
            r.decision_digest@ == execution_decision_digest_spec(self),
            r.decision_digest@ == execution_decision_digest_spec(r),
    {
        let mut v = self;
        let d = execution_decision_digest(&v);
        v.decision_digest = d;
        assert(execution_decision_body(&v) == execution_decision_body(&self));
        v
    }

    /// Whether the digest field matches the content.
    pub fn verify_digest(&self) -> (r: bool)
        ensures
            r == (self.decision_digest@ == execution_decision_digest_spec(*self)),
    {
        let d = execution_decision_digest(self);
        digest_eq(&self.decision_digest, &d)
    }
}

} // verus!
