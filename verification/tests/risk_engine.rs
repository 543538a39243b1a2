use paper_trading_core::checkpoint::RiskCheckpoint;
use paper_trading_core::risk::arith::{buy_cost, partial_fee, sale_proceeds};
use paper_trading_core::risk::durable::{DurableRiskEngine, RiskRecovery, RiskReplay, StorageError};
use paper_trading_core::risk::engine::{encode_command, PortfolioRiskEngine};
use paper_trading_core::risk::evaluate::{candidate_set_digest, order_exposure_digest};
use paper_trading_core::risk::prepare::Holdings;
use paper_trading_core::risk::scenario::terminal_wealth;
use paper_trading_core::risk::types::{
    BinaryMarketRisk, ConfirmedTokenBalance, DecisionReason, DecisionStatus, Error, GroupMultiplier, LedgerRiskView,
    OrderExposure, OrderSide, ReconciliationRiskGate, RiskCommand, RiskCommandId, RiskDecision, RiskLimits, RiskOrderId,
    RiskRequest, ShockProfile, TokenKey,
};

fn cid(value: u8) -> RiskCommandId {
    RiskCommandId([value; 32])
}

fn oid(value: u8) -> RiskOrderId {
    RiskOrderId([value; 32])
}

fn up(condition: &str) -> TokenKey {
    TokenKey { condition_id: condition.to_owned(), token_id: format!("{condition}-up") }
}

fn down(condition: &str) -> TokenKey {
    TokenKey { condition_id: condition.to_owned(), token_id: format!("{condition}-down") }
}

fn market(condition: &str, group: &str) -> BinaryMarketRisk {
    BinaryMarketRisk { condition_id: condition.to_owned(), up: up(condition), down: down(condition), shock_group: group.to_owned() }
}

fn balance(token: TokenKey, amount: i128) -> ConfirmedTokenBalance {
    ConfirmedTokenBalance { token, balance_micros: amount }
}

fn ledger() -> LedgerRiskView {
    LedgerRiskView {
        ledger_digest: [2; 32],
        halted: false,
        cash_available_micros: 1_000_000,
        cash_reserved_micros: 0,
        available_tokens: Vec::new(),
        reserved_tokens: Vec::new(),
        locked_tokens: Vec::new(),
    }
}

fn gate() -> ReconciliationRiskGate {
    ReconciliationRiskGate {
        reconciliation_digest: [1; 32],
        ready: true,
        evaluated_at_ns: Some(100),
        ledger_digest: Some([2; 32]),
        chain_block_number: Some(10),
    }
}

fn candidate() -> OrderExposure {
    OrderExposure {
        order_id: oid(9),
        token: up("btc"),
        side: OrderSide::Buy,
        quantity_micros: 100_000,
        partial_fill_micros: 50_000,
        limit_price_micros: 400_000,
        max_fee_micros: 0,
    }
}

fn limits() -> RiskLimits {
    RiskLimits {
        capital_floor_micros: 950_000,
        operational_reserve_micros: 0,
        pending_settlement_reserve_micros: 0,
        max_gross_exposure_micros: 10_000_000,
        max_condition_exposure_micros: 10_000_000,
        max_group_exposure_micros: 10_000_000,
        reserved_cash_haircut_bps: 10_000,
        available_token_haircut_bps: 10_000,
        reserved_token_haircut_bps: 10_000,
        locked_token_haircut_bps: 10_000,
        max_reconciliation_age_ns: 100,
        max_open_orders: 8,
        max_scenarios: 100_000,
    }
}

fn request() -> RiskRequest {
    RiskRequest {
        reconciliation: gate(),
        ledger: ledger(),
        markets: vec![market("btc", "crypto")],
        open_orders: Vec::new(),
        candidate: candidate(),
        additional_candidates: Vec::new(),
        shocks: vec![ShockProfile { shock_id: "baseline".to_owned(), group_multipliers: Vec::new() }],
        limits: limits(),
        evaluated_at_ns: 110,
    }
}

fn command(id: u8, request: RiskRequest) -> RiskCommand {
    let at = request.evaluated_at_ns;
    RiskCommand::Evaluate { command_id: cid(id), request, recorded_at_ns: at }
}

fn evaluate_request(request: RiskRequest) -> RiskDecision {
    PortfolioRiskEngine::default().apply(&command(1, request)).expect("decision")
}

#[test]
fn approves_only_after_all_fill_outcome_and_shock_scenarios_pass() {
    let decision = evaluate_request(request());
    assert_eq!(decision.status, DecisionStatus::Approve);
    assert_eq!(decision.reason, DecisionReason::AllLimitsSatisfied);
    assert_eq!(decision.scenario_count, 6);
    assert_eq!(decision.minimum_terminal_wealth_micros, Some(960_000));
    let witness = decision.witness.expect("witness");
    assert_eq!(witness.fill_quantities_micros, vec![100_000]);
    assert_eq!(witness.outcome_bits, vec![1]);
}

#[test]
fn paired_candidates_share_capacity_and_expand_fill_scenarios() {
    let mut value = request();
    value.additional_candidates = vec![OrderExposure {
        order_id: oid(10),
        token: down("btc"),
        side: OrderSide::Buy,
        quantity_micros: 100_000,
        partial_fill_micros: 50_000,
        limit_price_micros: 400_000,
        max_fee_micros: 0,
    }];
    let decision = evaluate_request(value.clone());
    assert_eq!(decision.status, DecisionStatus::Approve);
    assert_eq!(decision.scenario_count, 18);
    assert_eq!(decision.candidate_order_digest, candidate_set_digest(&value));
    assert_ne!(decision.candidate_order_digest, order_exposure_digest(&value.candidate));

    value.ledger.cash_available_micros = 70_000;
    value.limits.capital_floor_micros = 0;
    assert_eq!(evaluate_request(value).reason, DecisionReason::CandidateCapacity);
}

#[test]
fn capital_floor_is_inclusive_and_one_micro_above_returns_no_trade() {
    let mut boundary = request();
    boundary.limits.capital_floor_micros = 960_000;
    assert_eq!(evaluate_request(boundary).status, DecisionStatus::Approve);

    let mut rejected = request();
    rejected.limits.capital_floor_micros = 960_001;
    let decision = evaluate_request(rejected);
    assert_eq!(decision.status, DecisionStatus::NoTrade);
    assert_eq!(decision.reason, DecisionReason::CapitalFloor);
}

#[test]
fn reconciliation_readiness_freshness_and_digest_are_non_bypassable() {
    let mut unavailable = request();
    unavailable.reconciliation.ready = false;
    assert_eq!(evaluate_request(unavailable).reason, DecisionReason::ReconciliationNotReady);

    let mut stale = request();
    stale.evaluated_at_ns = 201;
    assert_eq!(evaluate_request(stale).reason, DecisionReason::ReconciliationStale);

    let mut provenance = request();
    provenance.ledger.ledger_digest = [8; 32];
    assert_eq!(evaluate_request(provenance).reason, DecisionReason::ProvenanceMismatch);

    let mut halted = request();
    halted.ledger.halted = true;
    assert_eq!(evaluate_request(halted).reason, DecisionReason::LedgerHalted);
}

#[test]
fn open_orders_must_exactly_back_reserved_cash_and_tokens() {
    let mut backed = request();
    backed.ledger.cash_available_micros = 959_000;
    backed.ledger.cash_reserved_micros = 41_000;
    backed.open_orders.push(OrderExposure {
        order_id: oid(1),
        token: up("btc"),
        side: OrderSide::Buy,
        quantity_micros: 100_000,
        partial_fill_micros: 50_000,
        limit_price_micros: 400_000,
        max_fee_micros: 1_000,
    });
    backed.limits.capital_floor_micros = 900_000;
    let decision = evaluate_request(backed.clone());
    assert_ne!(decision.reason, DecisionReason::ReservationMismatch);
    assert_eq!(decision.scenario_count, 18);

    backed.ledger.cash_reserved_micros -= 1;
    assert_eq!(evaluate_request(backed).reason, DecisionReason::ReservationMismatch);

    let mut sell = request();
    sell.ledger.available_tokens = vec![balance(up("btc"), 200_000)];
    sell.ledger.reserved_tokens = vec![balance(down("btc"), 100_000)];
    sell.open_orders.push(OrderExposure {
        order_id: oid(1),
        token: down("btc"),
        side: OrderSide::Sell,
        quantity_micros: 100_000,
        partial_fill_micros: 50_000,
        limit_price_micros: 600_000,
        max_fee_micros: 0,
    });
    assert_ne!(evaluate_request(sell.clone()).reason, DecisionReason::ReservationMismatch);
    sell.ledger.reserved_tokens[0].balance_micros += 1;
    assert_eq!(evaluate_request(sell).reason, DecisionReason::ReservationMismatch);
}

#[test]
fn partial_fill_fee_and_price_rounding_are_conservative() {
    assert_eq!(partial_fee(1, 1, 3), Ok(1));
    assert_eq!(buy_cost(333_333, 1), Ok(1));
    assert_eq!(sale_proceeds(333_333, 1), Ok(0));
}

#[test]
fn candidate_uses_only_available_assets() {
    let mut buy = request();
    buy.ledger.cash_available_micros = 39_999;
    buy.ledger.cash_reserved_micros = 0;
    assert_eq!(evaluate_request(buy).reason, DecisionReason::CandidateCapacity);

    let mut sell = request();
    sell.candidate.side = OrderSide::Sell;
    sell.candidate.quantity_micros = 100_000;
    sell.candidate.partial_fill_micros = 50_000;
    sell.ledger.reserved_tokens = vec![balance(up("btc"), 100_000)];
    sell.open_orders.push(OrderExposure {
        order_id: oid(1),
        token: up("btc"),
        side: OrderSide::Sell,
        quantity_micros: 100_000,
        partial_fill_micros: 0,
        limit_price_micros: 500_000,
        max_fee_micros: 0,
    });
    assert_eq!(evaluate_request(sell).reason, DecisionReason::CandidateCapacity);
}

#[test]
fn each_exposure_limit_has_an_exact_no_trade_reason() {
    let mut gross = request();
    gross.limits.capital_floor_micros = 0;
    gross.limits.max_gross_exposure_micros = 99_999;
    assert_eq!(evaluate_request(gross).reason, DecisionReason::GrossExposure);

    let mut condition = request();
    condition.limits.capital_floor_micros = 0;
    condition.limits.max_condition_exposure_micros = 99_999;
    assert_eq!(evaluate_request(condition).reason, DecisionReason::ConditionExposure);

    let mut group = request();
    group.limits.capital_floor_micros = 0;
    group.limits.max_group_exposure_micros = 99_999;
    assert_eq!(evaluate_request(group).reason, DecisionReason::GroupExposure);
}

#[test]
fn all_market_outcomes_and_correlated_shocks_are_counted() {
    let mut value = request();
    value.markets.push(market("eth", "crypto"));
    value.shocks.push(ShockProfile {
        shock_id: "crypto-crisis".to_owned(),
        group_multipliers: vec![GroupMultiplier { shock_group: "crypto".to_owned(), multiplier_bps: 5_000 }],
    });
    let decision = evaluate_request(value);
    assert_eq!(decision.scenario_count, 24);
}

#[test]
fn haircuts_and_operational_reserves_reduce_worst_case_wealth() {
    let mut base = request();
    base.ledger.cash_available_micros = 0;
    base.ledger.locked_tokens = vec![balance(down("btc"), 1_000_000), balance(up("btc"), 1_000_000)];
    base.candidate.quantity_micros = 1;
    base.candidate.partial_fill_micros = 0;
    base.candidate.limit_price_micros = 0;
    base.limits.capital_floor_micros = 0;
    let full = evaluate_request(base.clone()).minimum_terminal_wealth_micros.expect("wealth");
    base.limits.locked_token_haircut_bps = 9_000;
    base.limits.operational_reserve_micros = 10_000;
    let reduced = evaluate_request(base).minimum_terminal_wealth_micros.expect("wealth");
    assert_eq!(full, 1_000_000);
    assert_eq!(reduced, 890_000);
}

#[test]
fn every_asset_accessibility_category_has_an_independent_haircut() {
    let mut value = request();
    value.limits.capital_floor_micros = 0;
    value.candidate.quantity_micros = 1;
    value.candidate.partial_fill_micros = 0;
    value.candidate.limit_price_micros = 0;
    let one_token = vec![100_000, 0];
    let empty = vec![0, 0];
    let shock = value.shocks[0].clone();
    let outcome = vec![0u8];
    let cases = [
        (Holdings { available_cash: 0, reserved_cash: 100_000, available: empty.clone(), reserved: empty.clone(), locked: empty.clone() }, 0),
        (Holdings { available_cash: 0, reserved_cash: 0, available: one_token.clone(), reserved: empty.clone(), locked: empty.clone() }, 1),
        (Holdings { available_cash: 0, reserved_cash: 0, available: empty.clone(), reserved: one_token.clone(), locked: empty.clone() }, 2),
        (Holdings { available_cash: 0, reserved_cash: 0, available: empty.clone(), reserved: empty.clone(), locked: one_token.clone() }, 3),
    ];
    for (holdings, haircut_index) in cases {
        let full = terminal_wealth(&holdings, &value, &outcome, &shock).expect("full haircut");
        let mut reduced = value.clone();
        match haircut_index {
            0 => reduced.limits.reserved_cash_haircut_bps = 9_000,
            1 => reduced.limits.available_token_haircut_bps = 9_000,
            2 => reduced.limits.reserved_token_haircut_bps = 9_000,
            _ => reduced.limits.locked_token_haircut_bps = 9_000,
        }
        assert_eq!(full, 100_000);
        assert_eq!(terminal_wealth(&holdings, &reduced, &outcome, &shock), Ok(90_000));
    }
}

#[test]
fn scenario_budget_fails_before_enumeration() {
    let mut value = request();
    value.limits.max_scenarios = 5;
    let decision = evaluate_request(value);
    assert_eq!(decision.status, DecisionStatus::NoTrade);
    assert_eq!(decision.reason, DecisionReason::ScenarioBudget);
    assert_eq!(decision.scenario_count, 0);
}

#[test]
fn idempotency_and_history_equivocation_halt() {
    let mut engine = PortfolioRiskEngine::default();
    let original = command(1, request());
    let first = engine.apply(&original).expect("decision");
    assert_eq!(engine.apply(&original), Ok(first));
    let mut conflict_request = request();
    conflict_request.limits.capital_floor_micros = 1;
    assert_eq!(engine.apply(&command(1, conflict_request)), Err(Error::IdempotencyConflict));
    assert!(engine.is_halted());

    let mut history = PortfolioRiskEngine::default();
    history.apply(&command(1, request())).expect("first");
    let mut equivocal = request();
    equivocal.reconciliation.reconciliation_digest = [9; 32];
    assert_eq!(history.apply(&command(2, equivocal)), Err(Error::ReconciliationHistory));

    let mut regression = PortfolioRiskEngine::default();
    regression.apply(&command(1, request())).expect("first");
    let mut older = request();
    older.evaluated_at_ns = 120;
    older.reconciliation.evaluated_at_ns = Some(99);
    assert_eq!(regression.apply(&command(2, older)), Err(Error::ReconciliationHistory));
}

/// Runs one command through the durable engine as a journal writer would:
/// prepare, append, then install.
fn journal_apply(durable: &mut DurableRiskEngine, journal: &mut Vec<RiskCommand>, cmd: RiskCommand) -> RiskDecision {
    let prepared = durable.prepare(&cmd).expect("prepare");
    assert_eq!(prepared.sequence as usize, journal.len());
    journal.push(cmd.clone());
    durable.append_answered(prepared.sequence, Ok(())).expect("append");
    durable.install(&cmd).expect("install")
}

#[test]
fn codec_replay_and_checkpoint_are_deterministic() {
    let encoded = encode_command(&command(1, request())).expect("encode");
    assert_eq!(encode_command(&command(1, request())).expect("again"), encoded);

    let recovery = RiskRecovery { engine: PortfolioRiskEngine::default(), last_sequence: None };
    let mut durable = DurableRiskEngine::new(None, recovery).expect("durable");
    let mut journal = Vec::new();
    journal_apply(&mut durable, &mut journal, command(1, request()));
    let checkpoint = RiskCheckpoint { sequence: 0, risk_digest: durable.engine().snapshot().digest };
    let mut second = request();
    second.evaluated_at_ns = 120;
    second.reconciliation.evaluated_at_ns = Some(110);
    journal_apply(&mut durable, &mut journal, command(2, second));
    let online = durable.engine().snapshot().digest;

    let mut replay = RiskReplay::start(Some(checkpoint));
    for (sequence, cmd) in journal.iter().enumerate() {
        let RiskCommand::Evaluate { recorded_at_ns, .. } = cmd;
        replay.step(sequence as u64, true, *recorded_at_ns, *recorded_at_ns, cmd).expect("replay");
    }
    let recovered = replay.finish().expect("recover");
    assert_eq!(recovered.last_sequence, Some(1));
    assert_eq!(recovered.engine.snapshot().digest, online);
}

#[test]
fn checkpoint_file_and_sync_failure_are_fail_closed() {
    let checkpoint = RiskCheckpoint { sequence: 3, risk_digest: [4; 32] };
    let bytes = checkpoint.encode();
    assert_eq!(RiskCheckpoint::decode(&bytes), Ok(checkpoint));
    let mut corrupt = bytes.clone();
    corrupt[24] ^= 1;
    assert!(RiskCheckpoint::decode(&corrupt).is_err());

    let mut durable = DurableRiskEngine::new(
        None,
        RiskRecovery { engine: PortfolioRiskEngine::default(), last_sequence: None },
    )
    .expect("durable");
    let prepared = durable.prepare(&command(1, request())).expect("prepare");
    durable.append_answered(prepared.sequence, Ok(())).expect("append");
    assert_eq!(durable.last_sequence(), Some(prepared.sequence));
    assert_eq!(durable.sync_answered(Err("sync failed".to_owned())), Err(StorageError::Journal("sync failed".to_owned())));
    assert_eq!(durable.sync(), Err(StorageError::Halted("risk journal error: sync failed".to_owned())));
    assert_eq!(durable.engine().snapshot().accepted_commands, 0);
    assert!(matches!(durable.prepare(&command(2, request())), Err(StorageError::Halted(_))));
    assert!(matches!(durable.sync(), Err(StorageError::Halted(_))));
}

#[test]
fn recovery_must_agree_with_the_journal_writer() {
    let recovery = RiskRecovery { engine: PortfolioRiskEngine::default(), last_sequence: None };
    assert!(matches!(DurableRiskEngine::new(Some(0), recovery), Err(StorageError::RecoveryMismatch)));
}

#[test]
fn replay_refuses_gaps_foreign_envelopes_and_events_after_a_halt() {
    let mut gap = RiskReplay::start(None);
    assert_eq!(
        gap.step(1, true, 110, 110, &command(1, request())),
        Err(StorageError::Sequence { expected: 0, actual: 1 })
    );
    let mut foreign = RiskReplay::start(None);
    assert_eq!(foreign.step(0, false, 110, 110, &command(1, request())), Err(StorageError::EnvelopeIdentity));
    let mut skewed = RiskReplay::start(None);
    assert_eq!(skewed.step(0, true, 111, 110, &command(1, request())), Err(StorageError::EnvelopeTimestamp));

    let mut halted = RiskReplay::start(None);
    halted.step(0, true, 110, 110, &command(1, request())).expect("first");
    let mut conflict = request();
    conflict.limits.capital_floor_micros = 1;
    halted.step(1, true, 110, 110, &command(1, conflict)).expect("halting event");
    assert_eq!(halted.step(2, true, 110, 110, &command(3, request())), Err(StorageError::PostHaltEvent));

    let missing = RiskReplay::start(Some(RiskCheckpoint { sequence: 7, risk_digest: [0; 32] }));
    assert!(matches!(missing.finish(), Err(StorageError::CheckpointSequenceMissing)));
}

#[test]
fn checkpoint_frame_ends_with_the_blake3_digest_of_its_body() {
    let bytes = RiskCheckpoint { sequence: 7, risk_digest: [3; 32] }.encode();
    assert_eq!(bytes.len(), 88);
    assert_eq!(&bytes[0..8], b"POLYRKP1");
    assert_eq!(&bytes[16..24], &7u64.to_le_bytes());
    assert_eq!(&bytes[56..88], blake3::hash(&bytes[..56]).as_bytes());
}
