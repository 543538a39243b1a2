//! Composition of a complete-set opportunity with its combined portfolio
//! risk: each detector decision is consumed once, a plan must hold exactly two
//! validated legs bound to the evaluated context, and the pair is eligible
//! exactly when the risk engine approves both legs together.

use vstd::prelude::*;
use vstd::string::StringSliceAdditionalSpecFns;
use crate::digest::{blake3_digest, blake3_hash, digest_eq, le_bytes, push_bytes, push_le};
use crate::risk::engine::{apply_spec, PortfolioRiskEngine, RiskEngineView};
use crate::risk::types::{
    BinaryMarketRisk, DecisionStatus, Error as RiskError, LedgerRiskView, OrderExposure, ReconciliationRiskGate,
    RiskCommand, RiskCommandId, RiskDecision, RiskLimits, RiskRequest, ShockProfile,
};

verus! {

#[derive(Clone, Copy, Debug, PartialEq, Eq)]
pub struct PairedCommandId(pub [u8; 32]);

#[derive(Clone, Copy, Debug, PartialEq, Eq, Structural)]
pub enum PairedStatus {
    RiskEligible,
    NoTrade,
}

#[derive(Clone, Copy, Debug, PartialEq, Eq, Structural)]
pub enum PairedReason {
    CombinedRiskApproved,
    DetectorNoOpportunity,
    CombinedRiskNoTrade,
}

/// The portfolio facts against which both legs are evaluated together.
#[derive(Clone, Debug)]
pub struct PairRiskFrame {
    pub reconciliation: ReconciliationRiskGate,
    pub ledger: LedgerRiskView,
    pub markets: Vec<BinaryMarketRisk>,
    pub open_orders: Vec<OrderExposure>,
    pub shocks: Vec<ShockProfile>,
    pub limits: RiskLimits,
    pub evaluated_at_ns: i64,
}

/// What the runtime reads of a detector's plan; `digest_valid` says that the
/// plan's own digest checked out where the plan was read.
#[derive(Clone, Copy, Debug)]
pub struct PlanView {
    pub digest_valid: bool,
    pub plan_digest: [u8; 32],
    pub intent_count: u64,
}

/// What the runtime reads of one complete-set detector decision.
#[derive(Clone, Copy, Debug)]
pub struct ArbitrageView {
    pub decision_digest: [u8; 32],
    pub opportunity: bool,
    pub context_digest: [u8; 32],
    pub plan: Option<PlanView>,
}

#[derive(Clone, Debug, PartialEq, Eq)]
pub enum Error {
    Timestamp,
    CommandBound,
    Json(String),
    Version(u16),
    IdempotencyConflict,
    ClockRegression,
    Boundary,
    Arbitrage(String),
    Proposal(String),
    Risk(RiskError),
    Overflow,
    Halted(String),
}

/// The decision digest was already consumed.
pub open spec fn consumed_before(consumed: Seq<[u8; 32]>, d: [u8; 32]) -> bool {
    exists|i: int| 0 <= i < consumed.len() && (#[trigger] consumed[i])@ == d@
}

/// The verdict on one detector decision: `Ok(None)` when it found no
/// opportunity, `Ok(Some(plan digest))` when its plan may go to validation.
pub open spec fn detection_check(
    consumed: Seq<[u8; 32]>,
    arb: ArbitrageView,
    request_context_digest: [u8; 32],
    frame_evaluated_at_ns: i64,
    recorded_at_ns: i64,
) -> Result<Option<[u8; 32]>, Error> {
    if consumed_before(consumed, arb.decision_digest) {
        Err(Error::Boundary)
    } else if !arb.opportunity {
        Ok(None)
    } else {
        match arb.plan {
            None => Err(Error::Boundary),
            Some(p) => if !p.digest_valid || p.intent_count != 2 || request_context_digest@ != arb.context_digest@
                || frame_evaluated_at_ns != recorded_at_ns {
                Err(Error::Boundary)
            } else {
                Ok(Some(p.plan_digest))
            },
        }
    }
}

fn already_consumed(consumed: &Vec<[u8; 32]>, d: &[u8; 32]) -> (r: bool)
    ensures
        r == consumed_before(consumed@, *d),
{
    let mut i: usize = 0;
    while i < consumed.len()
        invariant
            i <= consumed@.len(),
            forall|k: int| 0 <= k < i ==> (#[trigger] consumed@[k])@ != d@,
        decreases consumed@.len() - i,
    {
        if digest_eq(&consumed[i], d) {
            return true;
        }
        i = i + 1;
    }
    false
}

/// Domain of the ids of derived proposal commands.
pub open spec fn proposal_domain() -> Seq<u8> {
    "paired-runtime-proposal-command-v1".spec_bytes()
}

/// Domain of the ids of derived risk commands.
pub open spec fn risk_domain() -> Seq<u8> {
    "paired-runtime-risk-command-v1".spec_bytes()
}

/// The id under which leg `index` of a plan is validated.
pub open spec fn proposal_command_id_spec(command_id: PairedCommandId, index: u64, plan_digest: [u8; 32]) -> Seq<u8> {
    blake3_hash(proposal_domain() + command_id.0@ + plan_digest@ + le_bytes(index as nat, 8))
}

pub fn derived_proposal_command_id(command_id: PairedCommandId, index: u64, plan_digest: [u8; 32]) -> (r: [u8; 32])
    ensures
        r@ == proposal_command_id_spec(command_id, index, plan_digest),
{
    let mut bytes: Vec<u8> = Vec::new();
    push_bytes(&mut bytes, "paired-runtime-proposal-command-v1".as_bytes());
    push_bytes(&mut bytes, command_id.0.as_slice());
    push_bytes(&mut bytes, plan_digest.as_slice());
    push_le(&mut bytes, index as u128, 8);
    blake3_digest(bytes.as_slice())
}

/// The id under which both legs of a plan are evaluated together.
pub open spec fn risk_command_id_spec(command_id: PairedCommandId, plan_digest: [u8; 32]) -> Seq<u8> {
    blake3_hash(risk_domain() + command_id.0@ + plan_digest@)
}

pub fn derived_risk_command_id(command_id: PairedCommandId, plan_digest: [u8; 32]) -> (r: RiskCommandId)
    ensures
        r.0@ == risk_command_id_spec(command_id, plan_digest),
{
    let mut bytes: Vec<u8> = Vec::new();
    push_bytes(&mut bytes, "paired-runtime-risk-command-v1".as_bytes());
    push_bytes(&mut bytes, command_id.0.as_slice());
    push_bytes(&mut bytes, plan_digest.as_slice());
    RiskCommandId(blake3_digest(bytes.as_slice()))
}

/// The combined request: the frame's facts with the first leg as candidate
/// and the second as its companion.
pub open spec fn combined(frame: PairRiskFrame, first: OrderExposure, second: OrderExposure, r: RiskRequest) -> bool {
    &&& r.reconciliation == frame.reconciliation
    &&& r.ledger == frame.ledger
    &&& r.markets@ == frame.markets@
    &&& r.open_orders@ == frame.open_orders@
    &&& r.candidate == first
    &&& r.additional_candidates@ == seq![second]
    &&& r.shocks@ == frame.shocks@
    &&& r.limits == frame.limits
    &&& r.evaluated_at_ns == frame.evaluated_at_ns
}

/// Builds the combined request; both legs must have passed validation.
pub fn combined_request(frame: PairRiskFrame, first: Option<OrderExposure>, second: Option<OrderExposure>) -> (r: Result<RiskRequest, Error>)
    ensures
        match r {
            Ok(q) => first matches Some(a) && second matches Some(b) && combined(frame, a, b, q),
            Err(e) => (first is None || second is None) && e == Error::Boundary,
        },
{
    let a = match first {
        Some(a) => a,
        None => {
            return Err(Error::Boundary);
        },
    };
    let b = match second {
        Some(b) => b,
        None => {
            return Err(Error::Boundary);
        },
    };
    let mut others: Vec<OrderExposure> = Vec::new();
    others.push(b);
    Ok(RiskRequest {
        reconciliation: frame.reconciliation,
        ledger: frame.ledger,
        markets: frame.markets,
        open_orders: frame.open_orders,
        candidate: a,
        additional_candidates: others,
        shocks: frame.shocks,
        limits: frame.limits,
        evaluated_at_ns: frame.evaluated_at_ns,
    })
}

/// The eligibility a combined risk decision gives the pair.
pub open spec fn eligibility(d: RiskDecision) -> (PairedStatus, PairedReason) {
    if d.status == DecisionStatus::Approve {
        (PairedStatus::RiskEligible, PairedReason::CombinedRiskApproved)
    } else {
        (PairedStatus::NoTrade, PairedReason::CombinedRiskNoTrade)
    }
}

/// The paired runtime: its own risk engine, the detector decisions it has
/// consumed, and how many pairs it found eligible or not.
pub struct PairedRuntime {
    risk: PortfolioRiskEngine,
    consumed: Vec<[u8; 32]>,
    risk_eligible_count: u64,
    no_trade_count: u64,
}

impl PairedRuntime {
    pub closed spec fn risk_view(&self) -> RiskEngineView {
        self.risk@
    }

    pub closed spec fn consumed_view(&self) -> Seq<[u8; 32]> {
        self.consumed@
    }

    pub closed spec fn eligible_count(&self) -> u64 {
        self.risk_eligible_count
    }

    pub closed spec fn no_trade_total(&self) -> u64 {
        self.no_trade_count
    }

    pub fn new() -> (r: Self)
        ensures
            r.consumed_view().len() == 0,
            r.eligible_count() == 0,
            r.no_trade_total() == 0,
            r.risk_view().processed.len() == 0,
            r.risk_view().halted is None,
    {
        PairedRuntime { risk: PortfolioRiskEngine::default(), consumed: Vec::new(), risk_eligible_count: 0, no_trade_count: 0 }
    }

    /// Consumes one detector decision: refused if it was consumed before or
    /// its plan does not hold together; otherwise remembered, and its plan
    /// digest returned when it found an opportunity.
    pub fn detect(
        &mut self,
        arb: &ArbitrageView,
        request_context_digest: &[u8; 32],
        frame_evaluated_at_ns: i64,
        recorded_at_ns: i64,
    ) -> (r: Result<Option<[u8; 32]>, Error>)
        ensures
            r == detection_check(old(self).consumed_view(), *arb, *request_context_digest, frame_evaluated_at_ns, recorded_at_ns),
            final(self).consumed_view() == (if r is Ok { old(self).consumed_view().push(arb.decision_digest) } else { old(self).consumed_view() }),
            final(self).risk_view() == old(self).risk_view(),
            final(self).eligible_count() == old(self).eligible_count(),
            final(self).no_trade_total() == old(self).no_trade_total(),
    {
        if already_consumed(&self.consumed, &arb.decision_digest) {
            return Err(Error::Boundary);
        }
        let outcome = if !arb.opportunity {
            None
        } else {
            match arb.plan {
                None => {
                    return Err(Error::Boundary);
                },
                Some(p) => {
                    if !p.digest_valid || p.intent_count != 2 || !digest_eq(request_context_digest, &arb.context_digest)
                        || frame_evaluated_at_ns != recorded_at_ns {
                        return Err(Error::Boundary);
                    }
                    Some(p.plan_digest)
                },
            }
        };
        self.consumed.push(arb.decision_digest);
        Ok(outcome)
    }

    /// Evaluates both validated legs together through the runtime's risk
    /// engine, under the id derived from the command and plan.
    #[verifier::rlimit(40)]
    pub fn evaluate_combined(
        &mut self,
        command_id: PairedCommandId,
        plan_digest: [u8; 32],
        request: RiskRequest,
    ) -> (r: Result<(PairedStatus, PairedReason, RiskDecision), Error>)
        ensures
            exists|rid: RiskCommandId, res: Result<RiskDecision, RiskError>| {
                &&& rid.0@ == risk_command_id_spec(command_id, plan_digest)
                &&& apply_spec(old(self).risk_view(), RiskCommand::Evaluate { command_id: rid, request, recorded_at_ns: request.evaluated_at_ns },
                    final(self).risk_view(), res)
                &&& match res {
                    Ok(d) => r matches Ok(x) && x.2 == d && (x.0, x.1) == eligibility(d),
                    Err(e) => r == Err::<(PairedStatus, PairedReason, RiskDecision), Error>(Error::Risk(e)),
                }
            },
            final(self).consumed_view() == old(self).consumed_view(),
            final(self).eligible_count() == old(self).eligible_count(),
            final(self).no_trade_total() == old(self).no_trade_total(),
    {
        let rid = derived_risk_command_id(command_id, plan_digest);
        let at = request.evaluated_at_ns;
        let command = RiskCommand::Evaluate { command_id: rid, request, recorded_at_ns: at };
        let res = self.risk.apply(&command);
        let ghost answer = res;
        assert(apply_spec(old(self).risk_view(), command, self.risk_view(), answer));
        match res {
            Ok(d) => {
                let (status, reason) = if d.status == DecisionStatus::Approve {
                    (PairedStatus::RiskEligible, PairedReason::CombinedRiskApproved)
                } else {
                    (PairedStatus::NoTrade, PairedReason::CombinedRiskNoTrade)
                };
                Ok((status, reason, d))
            },
            Err(e) => Err(Error::Risk(e)),
        }
    }

    /// Counts one decided pair, refusing on counter overflow.
    pub fn count(&mut self, status: PairedStatus) -> (r: Result<(), Error>)
        ensures
            match status {
                PairedStatus::RiskEligible => if old(self).eligible_count() == u64::MAX {
                    r == Err::<(), Error>(Error::Overflow) && final(self).eligible_count() == old(self).eligible_count()
                } else {
                    r is Ok && final(self).eligible_count() == old(self).eligible_count() + 1
                },
                PairedStatus::NoTrade => if old(self).no_trade_total() == u64::MAX {
                    r == Err::<(), Error>(Error::Overflow) && final(self).no_trade_total() == old(self).no_trade_total()
                } else {
                    r is Ok && final(self).no_trade_total() == old(self).no_trade_total() + 1
                },
            },
            status is RiskEligible ==> final(self).no_trade_total() == old(self).no_trade_total(),
            status is NoTrade ==> final(self).eligible_count() == old(self).eligible_count(),
            final(self).consumed_view() == old(self).consumed_view(),
            final(self).risk_view() == old(self).risk_view(),
    {
        match status {
            PairedStatus::RiskEligible => match self.risk_eligible_count.checked_add(1) {
                Some(v) => {
                    self.risk_eligible_count = v;
                    Ok(())
                },
                None => Err(Error::Overflow),
            },
            PairedStatus::NoTrade => match self.no_trade_count.checked_add(1) {
                Some(v) => {
                    self.no_trade_count = v;
                    Ok(())
                },
                None => Err(Error::Overflow),
            },
        }
    }
}

/// A detector decision is consumed at most once: once accepted, the same
/// decision is refused.
pub proof fn law_detector_decision_consumed_once(
    consumed: Seq<[u8; 32]>,
    arb: ArbitrageView,
    context: [u8; 32],
    frame_at: i64,
    at: i64,
    context2: [u8; 32],
    frame_at2: i64,
    at2: i64,
)
    requires
        detection_check(consumed, arb, context, frame_at, at) is Ok,
    ensures
        detection_check(consumed.push(arb.decision_digest), arb, context2, frame_at2, at2) == Err::<Option<[u8; 32]>, Error>(Error::Boundary),
{
    let c2 = consumed.push(arb.decision_digest);
    assert(c2[consumed.len() as int] == arb.decision_digest);
}

/// A pair is eligible exactly when the combined risk decision approves.
pub proof fn law_eligible_iff_combined_approval(d: RiskDecision)
    ensures
        (eligibility(d).0 == PairedStatus::RiskEligible) <==> (d.status == DecisionStatus::Approve),
{
}
} // verus!
