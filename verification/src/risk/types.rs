use vstd::prelude::*;
use crate::digest::Canonical;

verus! {

/// Identity of one risk evaluation command.
#[derive(Clone, Copy, Debug, PartialEq, Eq)]
pub struct RiskCommandId(pub [u8; 32]);

/// Identity of one exchange order whose exposure is evaluated.
#[derive(Clone, Copy, Debug, PartialEq, Eq)]
pub struct RiskOrderId(pub [u8; 32]);

#[derive(Clone, Copy, Debug, PartialEq, Eq, Structural)]
pub enum OrderSide {
    Buy,
    Sell,
}

/// One outcome token of a binary condition.
#[derive(Clone, Debug, PartialEq, Eq)]
pub struct TokenKey {
    pub condition_id: String,
    pub token_id: String,
}

/// A strictly positive confirmed token balance from the ledger.
#[derive(Clone, Debug, PartialEq, Eq)]
pub struct ConfirmedTokenBalance {
    pub token: TokenKey,
    pub balance_micros: i128,
}

/// The ledger facts that risk evaluation reads.
#[derive(Clone, Debug, PartialEq, Eq)]
pub struct LedgerRiskView {
    pub ledger_digest: [u8; 32],
    pub halted: bool,
    pub cash_available_micros: i128,
    pub cash_reserved_micros: i128,
    pub available_tokens: Vec<ConfirmedTokenBalance>,
    pub reserved_tokens: Vec<ConfirmedTokenBalance>,
    pub locked_tokens: Vec<ConfirmedTokenBalance>,
}

/// The reconciliation facts that gate risk evaluation.
#[derive(Clone, Debug, PartialEq, Eq)]
pub struct ReconciliationRiskGate {
    pub reconciliation_digest: [u8; 32],
    pub ready: bool,
    pub evaluated_at_ns: Option<i64>,
    pub ledger_digest: Option<[u8; 32]>,
    pub chain_block_number: Option<u64>,
}

#[derive(Clone, Debug, PartialEq, Eq)]
pub struct BinaryMarketRisk {
    pub condition_id: String,
    pub up: TokenKey,
    pub down: TokenKey,
    pub shock_group: String,
}

#[derive(Clone, Debug, PartialEq, Eq)]
pub struct OrderExposure {
    pub order_id: RiskOrderId,
    pub token: TokenKey,
    pub side: OrderSide,
    pub quantity_micros: i128,
    pub partial_fill_micros: i128,
    pub limit_price_micros: i64,
    pub max_fee_micros: i128,
}

#[derive(Clone, Debug, PartialEq, Eq)]
pub struct GroupMultiplier {
    pub shock_group: String,
    pub multiplier_bps: u16,
}

#[derive(Clone, Debug, PartialEq, Eq)]
pub struct ShockProfile {
    pub shock_id: String,
    pub group_multipliers: Vec<GroupMultiplier>,
}

#[derive(Clone, Debug, PartialEq, Eq)]
pub struct RiskLimits {
    pub capital_floor_micros: i128,
    pub operational_reserve_micros: i128,
    pub pending_settlement_reserve_micros: i128,
    pub max_gross_exposure_micros: i128,
    pub max_condition_exposure_micros: i128,
    pub max_group_exposure_micros: i128,
    pub reserved_cash_haircut_bps: u16,
    pub available_token_haircut_bps: u16,
    pub reserved_token_haircut_bps: u16,
    pub locked_token_haircut_bps: u16,
    pub max_reconciliation_age_ns: i64,
    pub max_open_orders: usize,
    pub max_scenarios: u64,
}

#[derive(Clone, Debug, PartialEq, Eq)]
pub struct RiskRequest {
    pub reconciliation: ReconciliationRiskGate,
    pub ledger: LedgerRiskView,
    pub markets: Vec<BinaryMarketRisk>,
    pub open_orders: Vec<OrderExposure>,
    pub candidate: OrderExposure,
    pub additional_candidates: Vec<OrderExposure>,
    pub shocks: Vec<ShockProfile>,
    pub limits: RiskLimits,
    pub evaluated_at_ns: i64,
}

#[derive(Clone, Debug, PartialEq, Eq)]
pub enum RiskCommand {
    Evaluate { command_id: RiskCommandId, request: RiskRequest, recorded_at_ns: i64 },
}

impl RiskCommand {
    pub fn command_id(&self) -> (r: RiskCommandId)
        ensures
            r == self->command_id,
    {
        match self {
            RiskCommand::Evaluate { command_id, .. } => *command_id,
        }
    }

    pub fn recorded_at_ns(&self) -> (r: i64)
        ensures
            r == self->recorded_at_ns,
    {
        match self {
            RiskCommand::Evaluate { recorded_at_ns, .. } => *recorded_at_ns,
        }
    }
}

/// Why a risk command failed. Every failure but `Timestamp`,
/// `CommandBound` and `Halted` halts the engine.
#[derive(Clone, Debug, PartialEq, Eq)]
pub enum Error {
    Timestamp,
    CommandBound,
    Json(String),
    Version(u16),
    IdempotencyConflict,
    ReconciliationHistory,
    Overflow,
    Halted(String),
}

#[derive(Clone, Copy, Debug, PartialEq, Eq, Structural)]
pub enum DecisionStatus {
    Approve,
    NoTrade,
}

#[derive(Clone, Copy, Debug, PartialEq, Eq, Structural)]
pub enum DecisionReason {
    AllLimitsSatisfied,
    ReconciliationNotReady,
    ReconciliationStale,
    ProvenanceMismatch,
    LedgerHalted,
    InvalidFrame,
    ReservationMismatch,
    CandidateCapacity,
    ScenarioBudget,
    CapitalFloor,
    GrossExposure,
    ConditionExposure,
    GroupExposure,
}

/// The scenario that decided an evaluation.
#[derive(Clone, Debug, PartialEq, Eq)]
pub struct ScenarioWitness {
    pub fill_quantities_micros: Vec<i128>,
    pub outcome_bits: Vec<u8>,
    pub shock_id: String,
    pub terminal_wealth_micros: i128,
    pub gross_exposure_micros: i128,
    pub max_condition_exposure_micros: i128,
    pub max_group_exposure_micros: i128,
}

#[derive(Clone, Debug, PartialEq, Eq)]
pub struct RiskDecision {
    pub command_id: RiskCommandId,
    pub evaluated_at_ns: i64,
    pub status: DecisionStatus,
    pub reason: DecisionReason,
    pub minimum_terminal_wealth_micros: Option<i128>,
    pub scenario_count: u64,
    pub witness: Option<ScenarioWitness>,
    pub reconciliation_digest: [u8; 32],
    pub ledger_digest: [u8; 32],
    pub candidate_order_digest: [u8; 32],
    pub decision_digest: [u8; 32],
}

impl Canonical for RiskCommandId {
    open spec fn canon(&self) -> Seq<u8> {
        self.0.canon()
    }

    fn encode_into(&self, out: &mut Vec<u8>) {
        let ghost start = out@;
        self.0.encode_into(out);
        assert(out@ =~= start + self.canon());
    }
}

impl Canonical for RiskOrderId {
    open spec fn canon(&self) -> Seq<u8> {
        self.0.canon()
    }

    fn encode_into(&self, out: &mut Vec<u8>) {
        let ghost start = out@;
        self.0.encode_into(out);
        assert(out@ =~= start + self.canon());
    }
}

impl Canonical for OrderSide {
    open spec fn canon(&self) -> Seq<u8> {
        match self {
            OrderSide::Buy => seq![0u8],
            OrderSide::Sell => seq![1u8],
        }
    }

    fn encode_into(&self, out: &mut Vec<u8>) {
        let ghost start = out@;
        match self {
            OrderSide::Buy => {
                out.push(0u8);
            },
            OrderSide::Sell => {
                out.push(1u8);
            },
        }
        assert(out@ =~= start + self.canon());
    }
}

impl Canonical for TokenKey {
    open spec fn canon(&self) -> Seq<u8> {
        self.condition_id.canon() + self.token_id.canon()
    }

    fn encode_into(&self, out: &mut Vec<u8>) {
        let ghost start = out@;
        self.condition_id.encode_into(out);
        self.token_id.encode_into(out);
        assert(out@ =~= start + self.canon());
    }
}

impl Canonical for ConfirmedTokenBalance {
    open spec fn canon(&self) -> Seq<u8> {
        self.token.canon() + self.balance_micros.canon()
    }

    fn encode_into(&self, out: &mut Vec<u8>) {
        let ghost start = out@;
        self.token.encode_into(out);
        self.balance_micros.encode_into(out);
        assert(out@ =~= start + self.canon());
    }
}

impl Canonical for LedgerRiskView {
    open spec fn canon(&self) -> Seq<u8> {
        self.ledger_digest.canon() + self.halted.canon() + self.cash_available_micros.canon() + self.cash_reserved_micros.canon() + self.available_tokens.canon() + self.reserved_tokens.canon() + self.locked_tokens.canon()
    }

    fn encode_into(&self, out: &mut Vec<u8>) {
        let ghost start = out@;
        self.ledger_digest.encode_into(out);
        self.halted.encode_into(out);
        self.cash_available_micros.encode_into(out);
        self.cash_reserved_micros.encode_into(out);
        self.available_tokens.encode_into(out);
        self.reserved_tokens.encode_into(out);
        self.locked_tokens.encode_into(out);
        assert(out@ =~= start + self.canon());
    }
}

impl Canonical for ReconciliationRiskGate {
    open spec fn canon(&self) -> Seq<u8> {
        self.reconciliation_digest.canon() + self.ready.canon() + self.evaluated_at_ns.canon() + self.ledger_digest.canon() + self.chain_block_number.canon()
    }

    fn encode_into(&self, out: &mut Vec<u8>) {
        let ghost start = out@;
        self.reconciliation_digest.encode_into(out);
        self.ready.encode_into(out);
        self.evaluated_at_ns.encode_into(out);
        self.ledger_digest.encode_into(out);
        self.chain_block_number.encode_into(out);
        assert(out@ =~= start + self.canon());
    }
}

impl Canonical for BinaryMarketRisk {
    open spec fn canon(&self) -> Seq<u8> {
        self.condition_id.canon() + self.up.canon() + self.down.canon() + self.shock_group.canon()
    }

    fn encode_into(&self, out: &mut Vec<u8>) {
        let ghost start = out@;
        self.condition_id.encode_into(out);
        self.up.encode_into(out);
        self.down.encode_into(out);
        self.shock_group.encode_into(out);
        assert(out@ =~= start + self.canon());
    }
}

impl Canonical for OrderExposure {
    open spec fn canon(&self) -> Seq<u8> {
        self.order_id.canon() + self.token.canon() + self.side.canon() + self.quantity_micros.canon() + self.partial_fill_micros.canon() + self.limit_price_micros.canon() + self.max_fee_micros.canon()
    }

    fn encode_into(&self, out: &mut Vec<u8>) {
        let ghost start = out@;
        self.order_id.encode_into(out);
        self.token.encode_into(out);
        self.side.encode_into(out);
        self.quantity_micros.encode_into(out);
        self.partial_fill_micros.encode_into(out);
        self.limit_price_micros.encode_into(out);
        self.max_fee_micros.encode_into(out);
        assert(out@ =~= start + self.canon());
    }
}

impl Canonical for GroupMultiplier {
    open spec fn canon(&self) -> Seq<u8> {
        self.shock_group.canon() + self.multiplier_bps.canon()
    }

    fn encode_into(&self, out: &mut Vec<u8>) {
        let ghost start = out@;
        self.shock_group.encode_into(out);
        self.multiplier_bps.encode_into(out);
        assert(out@ =~= start + self.canon());
    }
}

impl Canonical for ShockProfile {
    open spec fn canon(&self) -> Seq<u8> {
        self.shock_id.canon() + self.group_multipliers.canon()
    }

    fn encode_into(&self, out: &mut Vec<u8>) {
        let ghost start = out@;
        self.shock_id.encode_into(out);
        self.group_multipliers.encode_into(out);
        assert(out@ =~= start + self.canon());
    }
}

impl Canonical for RiskLimits {
    open spec fn canon(&self) -> Seq<u8> {
        self.capital_floor_micros.canon() + self.operational_reserve_micros.canon() + self.pending_settlement_reserve_micros.canon() + self.max_gross_exposure_micros.canon() + self.max_condition_exposure_micros.canon() + self.max_group_exposure_micros.canon() + self.reserved_cash_haircut_bps.canon() + self.available_token_haircut_bps.canon() + self.reserved_token_haircut_bps.canon() + self.locked_token_haircut_bps.canon() + self.max_reconciliation_age_ns.canon() + self.max_open_orders.canon() + self.max_scenarios.canon()
    }

    fn encode_into(&self, out: &mut Vec<u8>) {
        let ghost start = out@;
        self.capital_floor_micros.encode_into(out);
        self.operational_reserve_micros.encode_into(out);
        self.pending_settlement_reserve_micros.encode_into(out);
        self.max_gross_exposure_micros.encode_into(out);
        self.max_condition_exposure_micros.encode_into(out);
        self.max_group_exposure_micros.encode_into(out);
        self.reserved_cash_haircut_bps.encode_into(out);
        self.available_token_haircut_bps.encode_into(out);
        self.reserved_token_haircut_bps.encode_into(out);
        self.locked_token_haircut_bps.encode_into(out);
        self.max_reconciliation_age_ns.encode_into(out);
        self.max_open_orders.encode_into(out);
        self.max_scenarios.encode_into(out);
        assert(out@ =~= start + self.canon());
    }
}

impl Canonical for RiskRequest {
    open spec fn canon(&self) -> Seq<u8> {
        self.reconciliation.canon() + self.ledger.canon() + self.markets.canon() + self.open_orders.canon() + self.candidate.canon() + self.additional_candidates.canon() + self.shocks.canon() + self.limits.canon() + self.evaluated_at_ns.canon()
    }

    #[verifier::rlimit(40)]
    fn encode_into(&self, out: &mut Vec<u8>) {
        let ghost start = out@;
        self.reconciliation.encode_into(out);
        self.ledger.encode_into(out);
        self.markets.encode_into(out);
        self.open_orders.encode_into(out);
        self.candidate.encode_into(out);
        self.additional_candidates.encode_into(out);
        self.shocks.encode_into(out);
        self.limits.encode_into(out);
        self.evaluated_at_ns.encode_into(out);
        assert(out@ =~= start + self.canon());
    }
}

impl Canonical for RiskCommand {
    open spec fn canon(&self) -> Seq<u8> {
        match self {
            RiskCommand::Evaluate { command_id, request, recorded_at_ns } => seq![0u8] + command_id.canon() + request.canon() + recorded_at_ns.canon(),
        }
    }

    #[verifier::rlimit(50)]
    fn encode_into(&self, out: &mut Vec<u8>) {
        let ghost start = out@;
        match self {
            RiskCommand::Evaluate { command_id, request, recorded_at_ns } => {
                out.push(0u8);
                command_id.encode_into(out);
                let ghost mid = out@;
                request.encode_into(out);
                assert(out@ == mid + request.canon());
                recorded_at_ns.encode_into(out);
                assert(out@ =~= start + (seq![0u8] + command_id.canon() + request.canon() + recorded_at_ns.canon()));
            },
        }
    }
}

impl Canonical for DecisionStatus {
    open spec fn canon(&self) -> Seq<u8> {
        match self {
            DecisionStatus::Approve => seq![0u8],
            DecisionStatus::NoTrade => seq![1u8],
        }
    }

    fn encode_into(&self, out: &mut Vec<u8>) {
        let ghost start = out@;
        match self {
            DecisionStatus::Approve => {
                out.push(0u8);
            },
            DecisionStatus::NoTrade => {
                out.push(1u8);
            },
        }
        assert(out@ =~= start + self.canon());
    }
}

impl Canonical for DecisionReason {
    open spec fn canon(&self) -> Seq<u8> {
        match self {
            DecisionReason::AllLimitsSatisfied => seq![0u8],
            DecisionReason::ReconciliationNotReady => seq![1u8],
            DecisionReason::ReconciliationStale => seq![2u8],
            DecisionReason::ProvenanceMismatch => seq![3u8],
            DecisionReason::LedgerHalted => seq![4u8],
            DecisionReason::InvalidFrame => seq![5u8],
            DecisionReason::ReservationMismatch => seq![6u8],
            DecisionReason::CandidateCapacity => seq![7u8],
            DecisionReason::ScenarioBudget => seq![8u8],
            DecisionReason::CapitalFloor => seq![9u8],
            DecisionReason::GrossExposure => seq![10u8],
            DecisionReason::ConditionExposure => seq![11u8],
            DecisionReason::GroupExposure => seq![12u8],
        }
    }

    fn encode_into(&self, out: &mut Vec<u8>) {
        let ghost start = out@;
        match self {
            DecisionReason::AllLimitsSatisfied => {
                out.push(0u8);
            },
            DecisionReason::ReconciliationNotReady => {
                out.push(1u8);
            },
            DecisionReason::ReconciliationStale => {
                out.push(2u8);
            },
            DecisionReason::ProvenanceMismatch => {
                out.push(3u8);
            },
            DecisionReason::LedgerHalted => {
                out.push(4u8);
            },
            DecisionReason::InvalidFrame => {
                out.push(5u8);
            },
            DecisionReason::ReservationMismatch => {
                out.push(6u8);
            },
            DecisionReason::CandidateCapacity => {
                out.push(7u8);
            },
            DecisionReason::ScenarioBudget => {
                out.push(8u8);
            },
            DecisionReason::CapitalFloor => {
                out.push(9u8);
            },
            DecisionReason::GrossExposure => {
                out.push(10u8);
            },
            DecisionReason::ConditionExposure => {
                out.push(11u8);
            },
            DecisionReason::GroupExposure => {
                out.push(12u8);
            },
        }
        assert(out@ =~= start + self.canon());
    }
}

impl Canonical for ScenarioWitness {
    open spec fn canon(&self) -> Seq<u8> {
        self.fill_quantities_micros.canon() + self.outcome_bits.canon() + self.shock_id.canon() + self.terminal_wealth_micros.canon() + self.gross_exposure_micros.canon() + self.max_condition_exposure_micros.canon() + self.max_group_exposure_micros.canon()
    }

    fn encode_into(&self, out: &mut Vec<u8>) {
        let ghost start = out@;
        self.fill_quantities_micros.encode_into(out);
        self.outcome_bits.encode_into(out);
        self.shock_id.encode_into(out);
        self.terminal_wealth_micros.encode_into(out);
        self.gross_exposure_micros.encode_into(out);
        self.max_condition_exposure_micros.encode_into(out);
        self.max_group_exposure_micros.encode_into(out);
        assert(out@ =~= start + self.canon());
    }
}

impl Canonical for RiskDecision {
    open spec fn canon(&self) -> Seq<u8> {
        self.command_id.canon() + self.evaluated_at_ns.canon() + self.status.canon() + self.reason.canon() + self.minimum_terminal_wealth_micros.canon() + self.scenario_count.canon() + self.witness.canon() + self.reconciliation_digest.canon() + self.ledger_digest.canon() + self.candidate_order_digest.canon() + self.decision_digest.canon()
    }

    fn encode_into(&self, out: &mut Vec<u8>) {
        let ghost start = out@;
        self.command_id.encode_into(out);
        self.evaluated_at_ns.encode_into(out);
        self.status.encode_into(out);
        self.reason.encode_into(out);
        self.minimum_terminal_wealth_micros.encode_into(out);
        self.scenario_count.encode_into(out);
        self.witness.encode_into(out);
        self.reconciliation_digest.encode_into(out);
        self.ledger_digest.encode_into(out);
        self.candidate_order_digest.encode_into(out);
        self.decision_digest.encode_into(out);
        assert(out@ =~= start + self.canon());
    }
}


impl TokenKey {
    /// A copy with the same condition and token ids.
    pub fn duplicate(&self) -> (r: TokenKey)
        ensures
            r == *self,
    {
        TokenKey { condition_id: self.condition_id.clone(), token_id: self.token_id.clone() }
    }
}

impl OrderExposure {
    /// A copy with the same fields.
    pub fn duplicate(&self) -> (r: OrderExposure)
        ensures
            r == *self,
    {
        OrderExposure {
            order_id: self.order_id,
            token: self.token.duplicate(),
            side: self.side,
            quantity_micros: self.quantity_micros,
            partial_fill_micros: self.partial_fill_micros,
            limit_price_micros: self.limit_price_micros,
            max_fee_micros: self.max_fee_micros,
        }
    }
}
} // verus!
