use paper_trading_core::execution::{
    ActiveState, ExchangeEvent, ExchangeObservation, MatchFill, OrderState,
};
use paper_trading_core::paired_execution::{
    Error, PairedExecutionCommand, PairedExecutionCommandId, PairedExecutionReason, PairedExecutionStatus,
    PairedPaperExecution,
};
use paper_trading_core::paired_policy::book::PairedPolicyCommand;
use paper_trading_core::paired_policy::types::{
    ExchangeMode, LegState, ModeObservation, PairPermit, PairStageId, PairedPolicyCommandId, StageView,
    MAX_PERMISSION_NS,
};
use paper_trading_core::risk::types::{OrderExposure, OrderSide, RiskOrderId, TokenKey};

const ACTIVE_NS: i64 = 3_600_000 * 1_000_000;

fn bytes(value: u8) -> [u8; 32] {
    [value; 32]
}

fn eid(value: u8) -> PairedExecutionCommandId {
    PairedExecutionCommandId(bytes(value))
}

fn leg(order: u8, token: &str) -> OrderExposure {
    OrderExposure {
        order_id: RiskOrderId(bytes(order)),
        token: TokenKey { condition_id: "btc".to_owned(), token_id: token.to_owned() },
        side: OrderSide::Buy,
        quantity_micros: 1_000_000,
        partial_fill_micros: 0,
        limit_price_micros: 450_000,
        max_fee_micros: 5_000,
    }
}

fn stage() -> StageView {
    StageView {
        stage_id: PairStageId(bytes(20)),
        record_digest: bytes(21),
        fully_reserved: true,
        boundary_ok: true,
        staged_at_ns: ACTIVE_NS,
        candidate_expires_at_ns: [ACTIVE_NS + MAX_PERMISSION_NS, ACTIVE_NS + MAX_PERMISSION_NS],
        candidates: [leg(30, "up"), leg(31, "down")],
        candidate_digests: [bytes(32), bytes(33)],
        reservation_ids: [bytes(34), bytes(35)],
    }
}

fn authorized() -> (PairedPaperExecution, PairPermit) {
    let mut executor = PairedPaperExecution::new();
    executor.record_staged(eid(1), PairedPolicyCommandId(bytes(2)), Some(&stage())).expect("stage");
    executor
        .apply_policy(
            eid(3),
            &PairedPolicyCommand::ObserveMode {
                command_id: PairedPolicyCommandId(bytes(3)),
                observation: ModeObservation {
                    sequence: 1,
                    mode: ExchangeMode::Normal,
                    observed_at_ns: ACTIVE_NS,
                    valid_until_ns: ACTIVE_NS + MAX_PERMISSION_NS,
                },
                recorded_at_ns: ACTIVE_NS,
            },
            None,
            ACTIVE_NS,
        )
        .expect("mode");
    let decision = executor
        .apply_policy(
            eid(4),
            &PairedPolicyCommand::AuthorizeFirst {
                command_id: PairedPolicyCommandId(bytes(4)),
                stage_id: stage().stage_id,
                leg_index: 0,
                max_mode_age_ns: MAX_PERMISSION_NS,
                valid_until_ns: ACTIVE_NS + 50,
                recorded_at_ns: ACTIVE_NS,
            },
            Some(&stage()),
            ACTIVE_NS,
        )
        .expect("authorize");
    assert_eq!(decision.status, PairedExecutionStatus::Applied);
    assert_eq!(decision.leg_index, Some(0));
    let permit = decision.policy_decision.expect("policy decision").permit.expect("permit");
    (executor, permit)
}

fn observation(sequence: u64, at: i64, event: ExchangeEvent) -> ExchangeObservation {
    ExchangeObservation {
        order_id: RiskOrderId(bytes(30)),
        source_sequence: sequence,
        exchange_order_id: Some("exchange-1".to_owned()),
        event,
        event_time_ns: at,
        received_time_ns: at,
    }
}

fn full_fill() -> ExchangeEvent {
    ExchangeEvent::Match {
        fill: MatchFill {
            fill_id: "fill-1".to_owned(),
            quantity_micros: 1_000_000,
            consideration_micros: 450_000,
            fee_micros: 1_000,
            cumulative_quantity_micros: 1_000_000,
            cumulative_consideration_micros: 450_000,
            cumulative_fee_micros: 1_000,
            ledger_command_id: bytes(77),
        },
        fully_matched: true,
    }
}

#[test]
fn a_leg_is_submitted_once_under_its_own_live_permit() {
    let (mut executor, permit) = authorized();
    let stage_id = stage().stage_id;
    let denied = executor.submit(eid(5), &permit, "local-1", false, ACTIVE_NS + 1).expect("deny");
    assert_eq!(denied.reason, PairedExecutionReason::PermitInvalid);
    let late = executor.submit(eid(5), &permit, "local-1", true, ACTIVE_NS + 50).expect("deny");
    assert_eq!(late.reason, PairedExecutionReason::PermitExpired);
    assert_eq!(executor.submit(eid(5), &permit, "", true, ACTIVE_NS + 1).map(|_| ()), Err(Error::Identifier));
    let accepted = executor.submit(eid(5), &permit, "local-1", true, ACTIVE_NS + 1).expect("submit");
    assert_eq!(accepted.status, PairedExecutionStatus::Applied);
    assert_eq!(accepted.reason, PairedExecutionReason::SubmissionAccepted);
    assert_eq!(accepted.state, Some(OrderState::Active(ActiveState::Submitted)));
    assert_eq!(executor.policy().record(&stage_id).expect("record").legs[0], LegState::Submitted);
    let order = executor.order(&stage_id, 0).expect("order");
    assert_eq!(order.permit, permit);
    assert_eq!(order.order.placement_policy_digest, permit.permit_digest);
    let again = executor.submit(eid(6), &permit, "local-1", true, ACTIVE_NS + 2).expect("deny");
    assert_eq!(again.reason, PairedExecutionReason::PermitAlreadyUsed);
    assert_eq!(again.state, Some(OrderState::Active(ActiveState::Submitted)));
}

#[test]
fn observations_mirror_the_leg_lifecycle_and_hand_each_fill_on_once() {
    let (mut executor, permit) = authorized();
    let stage_id = stage().stage_id;
    executor.submit(eid(5), &permit, "local-1", true, ACTIVE_NS + 1).expect("submit");
    let mut foreign = observation(1, ACTIVE_NS + 2, ExchangeEvent::Acknowledged);
    foreign.order_id = RiskOrderId(bytes(99));
    assert_eq!(executor.observe(eid(6), stage_id, 0, &foreign, ACTIVE_NS + 2).map(|_| ()), Err(Error::Boundary));
    let future = observation(1, ACTIVE_NS + 9, ExchangeEvent::Acknowledged);
    assert_eq!(executor.observe(eid(6), stage_id, 0, &future, ACTIVE_NS + 2).map(|_| ()), Err(Error::SourceHistory));
    assert_eq!(
        executor.observe(eid(6), stage_id, 1, &observation(1, ACTIVE_NS + 2, ExchangeEvent::Live), ACTIVE_NS + 2).map(|_| ()),
        Err(Error::Lifecycle)
    );
    let live = executor
        .observe(eid(6), stage_id, 0, &observation(1, ACTIVE_NS + 2, ExchangeEvent::Acknowledged), ACTIVE_NS + 2)
        .expect("ack");
    assert_eq!(live.reason, PairedExecutionReason::ObservationApplied);
    assert_eq!(executor.policy().record(&stage_id).expect("record").legs[0], LegState::Live);
    let filled = executor.observe(eid(7), stage_id, 0, &observation(2, ACTIVE_NS + 3, full_fill()), ACTIVE_NS + 3).expect("fill");
    assert_eq!(filled.state, Some(OrderState::FullyMatched));
    let handoff = filled.new_handoff.expect("handoff");
    assert_eq!(handoff.intent.ledger_command_id, bytes(77));
    assert_eq!(handoff.placement_policy_digest, permit.permit_digest);
    assert_eq!(executor.policy().record(&stage_id).expect("record").legs[0], LegState::FullyMatched);
    assert_eq!(
        executor.observe(eid(8), stage_id, 0, &observation(2, ACTIVE_NS + 4, ExchangeEvent::Live), ACTIVE_NS + 4).map(|_| ()),
        Err(Error::SourceHistory)
    );
}

#[test]
fn cancels_respect_the_order_state_and_policy_bypasses_are_refused() {
    let (mut executor, permit) = authorized();
    let stage_id = stage().stage_id;
    let missing = executor.request_cancel(eid(5), stage_id, 0, ACTIVE_NS + 1);
    assert_eq!(missing.reason, PairedExecutionReason::CancelDenied);
    assert_eq!(missing.state, None);
    executor.submit(eid(6), &permit, "local-1", true, ACTIVE_NS + 1).expect("submit");
    let cancel = executor.request_cancel(eid(7), stage_id, 0, ACTIVE_NS + 2);
    assert_eq!(cancel.reason, PairedExecutionReason::CancelRequested);
    assert_eq!(cancel.state, Some(OrderState::CancelPending { resume: ActiveState::Submitted }));
    let twice = executor.request_cancel(eid(8), stage_id, 0, ACTIVE_NS + 3);
    assert_eq!(twice.reason, PairedExecutionReason::CancelDenied);
    let bypass = PairedPolicyCommand::ObserveLeg {
        command_id: PairedPolicyCommandId(bytes(9)),
        stage_id,
        leg_index: 0,
        permit_id: permit.permit_id,
        state: LegState::Live,
        source_sequence: 1,
        observed_at_ns: ACTIVE_NS + 3,
        recorded_at_ns: ACTIVE_NS + 3,
    };
    assert_eq!(executor.apply_policy(eid(9), &bypass, None, ACTIVE_NS + 3).map(|_| ()), Err(Error::Boundary));
    let expire = PairedPolicyCommand::Expire {
        command_id: PairedPolicyCommandId(bytes(10)),
        stage_id,
        recorded_at_ns: ACTIVE_NS + 3,
    };
    assert_eq!(executor.apply_policy(eid(10), &expire, None, ACTIVE_NS + 4).map(|_| ()), Err(Error::Boundary));
}

#[test]
fn commands_are_answered_once_sealed_and_replayed_from_memory() {
    let (mut executor, permit) = authorized();
    let submit = PairedExecutionCommand::Submit {
        command_id: eid(40),
        permit: permit.clone(),
        local_submission_id: "local-1".to_owned(),
        recorded_at_ns: ACTIVE_NS + 1,
    };
    let first = executor.apply(&submit, None, true).expect("submit");
    assert_eq!(first.reason, PairedExecutionReason::SubmissionAccepted);
    assert_eq!(first.status, PairedExecutionStatus::Applied);
    assert!(first.verify_digest());
    assert_ne!(first.decision_digest, [0; 32]);
    assert_eq!(executor.accepted_commands(), 1);
    let again = executor.apply(&submit, None, false).expect("replay");
    assert_eq!(again.reason, PairedExecutionReason::SubmissionAccepted);
    assert_eq!(again.decision_digest, first.decision_digest);
    assert_eq!(executor.accepted_commands(), 1);
    let mut forged = again;
    forged.decision_digest = [7; 32];
    assert!(!forged.verify_digest());
}

#[test]
fn a_reused_id_with_other_content_halts_the_executor() {
    let (mut executor, _permit) = authorized();
    let stage_id = stage().stage_id;
    let cancel = |at: i64| PairedExecutionCommand::RequestCancel { command_id: eid(50), stage_id, leg_index: 0, recorded_at_ns: at };
    let denied = executor.apply(&cancel(ACTIVE_NS + 5), None, true).expect("cancel");
    assert_eq!(denied.reason, PairedExecutionReason::CancelDenied);
    assert_eq!(denied.status, PairedExecutionStatus::Denied);
    assert!(denied.verify_digest());
    assert!(!executor.is_halted());
    assert_eq!(executor.apply(&cancel(ACTIVE_NS + 6), None, true).map(|_| ()), Err(Error::IdempotencyConflict));
    assert!(executor.is_halted());
    assert!(matches!(executor.apply(&cancel(ACTIVE_NS + 5), None, true), Err(Error::Halted(_))));
}

#[test]
fn a_regressed_clock_halts_the_executor_and_a_negative_time_is_refused() {
    let mut executor = PairedPaperExecution::new();
    let stage_id = stage().stage_id;
    let cancel = |id: u8, at: i64| PairedExecutionCommand::RequestCancel { command_id: eid(id), stage_id, leg_index: 1, recorded_at_ns: at };
    assert_eq!(executor.apply(&cancel(60, -1), None, true).map(|_| ()), Err(Error::Timestamp));
    assert!(!executor.is_halted());
    assert_eq!(executor.accepted_commands(), 0);
    let denied = executor.apply(&cancel(61, 10), None, true).expect("cancel");
    assert_eq!(denied.reason, PairedExecutionReason::CancelDenied);
    assert_eq!(executor.apply(&cancel(62, 9), None, true).map(|_| ()), Err(Error::ClockRegression));
    assert!(executor.is_halted());
    assert_eq!(executor.accepted_commands(), 1);
}
