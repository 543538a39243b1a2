use paper_trading_core::execution::{
    ActiveState, Error, ExchangeEvent, ExchangeObservation, ExecutionCommandId, ExecutionReason, ExecutionStatus,
    MatchFill, OrderState, PolicyAction, PolicyReason, PolicyStatus, PolicyView, RetryClass, UnknownReason,
};
use paper_trading_core::checkpoint::{CheckpointError, ExecutionCheckpoint};
use paper_trading_core::execution_engine::durable::{
    DurableExecutionEngine, ExecutionRecovery, ExecutionReplay, StorageError,
};
use paper_trading_core::execution_engine::engine::{encode_command, PaperExecutionEngine};
use paper_trading_core::execution_engine::types::{CancelView, ExecutionCommand, PlacementView};
use paper_trading_core::risk::types::{OrderExposure, OrderSide, RiskOrderId, TokenKey};

fn eid(value: u8) -> ExecutionCommandId {
    ExecutionCommandId([value; 32])
}

fn oid() -> RiskOrderId {
    RiskOrderId([9; 32])
}

fn placement() -> PlacementView {
    PlacementView {
        order: OrderExposure {
            order_id: oid(),
            token: TokenKey { condition_id: "btc".to_owned(), token_id: "up".to_owned() },
            side: OrderSide::Buy,
            quantity_micros: 100_000,
            partial_fill_micros: 50_000,
            limit_price_micros: 400_000,
            max_fee_micros: 1_000,
        },
        evaluated_at_ns: 120,
        authorization_expires_at_ns: 500,
        subject_digest: [3; 32],
    }
}

fn permit() -> PolicyView {
    PolicyView {
        digest_valid: true,
        status: PolicyStatus::Permit,
        action: PolicyAction::Place,
        reason: PolicyReason::PlacementPermitted,
        subject_digest: Some([3; 32]),
        order_id: Some(oid()),
        decision_digest: [5; 32],
    }
}

fn cancel() -> CancelView {
    CancelView { order_id: oid(), evaluated_at_ns: 140, subject_digest: [6; 32] }
}

fn cancel_permit() -> PolicyView {
    PolicyView {
        digest_valid: true,
        status: PolicyStatus::Permit,
        action: PolicyAction::Cancel,
        reason: PolicyReason::CancelPermitted,
        subject_digest: Some([6; 32]),
        order_id: Some(oid()),
        decision_digest: [8; 32],
    }
}

fn submit(id: u8, placement: PlacementView, decision: PolicyView, at: i64) -> ExecutionCommand {
    ExecutionCommand::Submit {
        command_id: eid(id),
        policy_decision: decision,
        placement,
        local_submission_id: "local-1".to_owned(),
        recorded_at_ns: at,
    }
}

fn request_cancel(id: u8, at: i64) -> ExecutionCommand {
    ExecutionCommand::RequestCancel {
        command_id: eid(id),
        policy_decision: cancel_permit(),
        request: CancelView { evaluated_at_ns: at, ..cancel() },
        recorded_at_ns: at,
    }
}

fn observe(id: u8, sequence: u64, at: i64, event: ExchangeEvent) -> ExecutionCommand {
    ExecutionCommand::Observe {
        command_id: eid(id),
        observation: ExchangeObservation {
            order_id: oid(),
            source_sequence: sequence,
            exchange_order_id: Some("exchange-1".to_owned()),
            event,
            event_time_ns: at,
            received_time_ns: at,
        },
        recorded_at_ns: at,
    }
}

fn fill(id: &str, quantity: i128, cumulative: i128, fully: bool) -> ExchangeEvent {
    ExchangeEvent::Match {
        fill: MatchFill {
            fill_id: id.to_owned(),
            quantity_micros: quantity,
            consideration_micros: quantity * 4 / 10,
            fee_micros: 0,
            cumulative_quantity_micros: cumulative,
            cumulative_consideration_micros: cumulative * 4 / 10,
            cumulative_fee_micros: 0,
            ledger_command_id: [id.as_bytes()[0]; 32],
        },
        fully_matched: fully,
    }
}

fn submitted() -> PaperExecutionEngine {
    let mut engine = PaperExecutionEngine::new();
    engine.apply(&submit(1, placement(), permit(), 130)).expect("submit");
    engine
}

fn state(engine: &PaperExecutionEngine) -> OrderState {
    engine.order(&oid()).expect("order").state.clone()
}

#[test]
fn submission_requires_exact_authentic_unexpired_policy_subject() {
    let mut engine = PaperExecutionEngine::new();
    let decision = engine.apply(&submit(1, placement(), permit(), 130)).expect("submit");
    assert_eq!(decision.status, ExecutionStatus::Applied);
    assert!(decision.verify_digest());
    assert!(matches!(state(&engine), OrderState::Active(ActiveState::Submitted)));

    let mut tampered = permit();
    tampered.digest_valid = false;
    assert_eq!(
        PaperExecutionEngine::new().apply(&submit(1, placement(), tampered, 130)).expect("deny").reason,
        ExecutionReason::PolicyDigestInvalid
    );
    let mut substituted = placement();
    substituted.subject_digest = [4; 32];
    assert_eq!(
        PaperExecutionEngine::new().apply(&submit(1, substituted, permit(), 130)).expect("deny").reason,
        ExecutionReason::PolicySubjectMismatch
    );
    assert_eq!(
        PaperExecutionEngine::new().apply(&submit(1, placement(), permit(), 500)).expect("deny").reason,
        ExecutionReason::AuthorizationExpired
    );
    assert_eq!(
        PaperExecutionEngine::new().apply(&submit(1, placement(), permit(), 119)).expect("deny").reason,
        ExecutionReason::AuthorizationNotYetValid
    );
}

#[test]
fn placement_permit_and_order_are_single_use() {
    let mut engine = submitted();
    assert_eq!(
        engine.apply(&submit(2, placement(), permit(), 131)).expect("deny").reason,
        ExecutionReason::PolicyAlreadyUsed
    );
    let mut fresh_permit = permit();
    fresh_permit.decision_digest = [15; 32];
    assert_eq!(
        engine.apply(&submit(3, placement(), fresh_permit, 132)).expect("deny").reason,
        ExecutionReason::OrderAlreadyExists
    );
}

#[test]
fn delayed_order_cannot_go_live_early_and_can_reject_after_delay() {
    let mut early = submitted();
    early
        .apply(&observe(2, 0, 150, ExchangeEvent::Delayed { release_at_ns: 170, uncancellable_until_ns: 170 }))
        .expect("delay");
    assert_eq!(early.apply(&observe(3, 1, 169, ExchangeEvent::Live)), Err(Error::LifecycleTransition));
    assert!(early.is_halted());

    let mut rejected = submitted();
    rejected
        .apply(&observe(2, 0, 150, ExchangeEvent::Delayed { release_at_ns: 170, uncancellable_until_ns: 180 }))
        .expect("delay");
    rejected
        .apply(&observe(3, 1, 170, ExchangeEvent::Rejected { class: RetryClass::DelayedCheck, code: "balance".to_owned() }))
        .expect("reject");
    assert!(matches!(state(&rejected), OrderState::Rejected { class: RetryClass::DelayedCheck, .. }));
}

#[test]
fn acknowledgement_live_and_exchange_identity_are_immutable() {
    let mut engine = submitted();
    engine.apply(&observe(2, 0, 135, ExchangeEvent::Acknowledged)).expect("ack");
    engine.apply(&observe(3, 1, 151, ExchangeEvent::Live)).expect("live");
    let mut changed = observe(4, 2, 152, ExchangeEvent::Live);
    if let ExecutionCommand::Observe { observation, .. } = &mut changed {
        observation.exchange_order_id = Some("other".to_owned());
    }
    assert_eq!(engine.apply(&changed), Err(Error::ExchangeOrderIdentity));
}

#[test]
fn unknown_is_nonterminal_and_newer_observation_recovers() {
    let mut engine = submitted();
    engine.apply(&observe(2, 0, 150, ExchangeEvent::Unknown { reason: UnknownReason::SubmitTimeout })).expect("unknown");
    assert!(!state(&engine).is_terminal());
    engine.apply(&observe(3, 1, 151, ExchangeEvent::Acknowledged)).expect("recover");
    assert!(matches!(state(&engine), OrderState::Active(ActiveState::Acknowledged)));
}

#[test]
fn partial_and_full_matches_emit_exact_reconciliation_handoffs() {
    let mut engine = submitted();
    engine.apply(&observe(2, 0, 150, ExchangeEvent::Acknowledged)).expect("ack");
    let first = engine.apply(&observe(3, 1, 151, fill("a", 50_000, 50_000, false))).expect("partial");
    let handoff = first.new_handoff.expect("handoff");
    assert_eq!(handoff.intent.quantity_micros, 50_000);
    assert_eq!(handoff.intent.consideration_micros, 20_000);
    assert_eq!(handoff.intent.order_id, "exchange-1");
    let second = engine.apply(&observe(4, 2, 152, fill("b", 50_000, 100_000, true))).expect("full");
    assert!(second.new_handoff.is_some());
    let order = engine.order(&oid()).expect("order");
    assert_eq!(order.handoffs.len(), 2);
    assert_eq!(order.handoffs.iter().map(|value| value.intent.quantity_micros).sum::<i128>(), 100_000);
    assert_eq!(order.state, OrderState::FullyMatched);
    assert_eq!(engine.snapshot().handoff_count, 2);
}

#[test]
fn invalid_cumulative_limit_fee_and_duplicate_fill_halt() {
    for case in 0..5 {
        let mut engine = submitted();
        engine.apply(&observe(2, 0, 150, ExchangeEvent::Acknowledged)).expect("ack");
        let mut event = fill("a", 50_000, 50_000, false);
        if let ExchangeEvent::Match { fill: fill_data, .. } = &mut event {
            match case {
                0 => fill_data.cumulative_quantity_micros += 1,
                1 => fill_data.consideration_micros = 20_001,
                2 => fill_data.fee_micros = 1_001,
                _ => {}
            }
        }
        if case < 3 {
            assert!(matches!(engine.apply(&observe(3, 1, 151, event)), Err(Error::FillInvariant)));
        } else {
            engine.apply(&observe(3, 1, 151, event)).expect("first");
            let mut repeated = fill(if case == 3 { "a" } else { "b" }, 50_000, 100_000, true);
            if case == 4 {
                if let ExchangeEvent::Match { fill, .. } = &mut repeated {
                    fill.ledger_command_id = [b'a'; 32];
                }
            }
            assert!(matches!(engine.apply(&observe(4, 2, 152, repeated)), Err(Error::FillInvariant)));
        }
        assert!(engine.is_halted());
    }
}

#[test]
fn cancel_pending_can_partially_match_then_cancel() {
    let mut engine = submitted();
    engine.apply(&observe(2, 0, 135, ExchangeEvent::Acknowledged)).expect("ack");
    engine.apply(&request_cancel(3, 140)).expect("cancel request");
    engine.apply(&observe(4, 1, 151, fill("a", 50_000, 50_000, false))).expect("race fill");
    assert!(matches!(state(&engine), OrderState::CancelPending { resume: ActiveState::PartiallyMatched }));
    engine.apply(&observe(5, 2, 152, ExchangeEvent::CancelAccepted)).expect("canceled");
    assert_eq!(state(&engine), OrderState::Canceled);
}

#[test]
fn full_match_wins_cancel_race_and_cancel_rejection_restores_state() {
    let mut full = submitted();
    full.apply(&observe(2, 0, 135, ExchangeEvent::Acknowledged)).expect("ack");
    full.apply(&request_cancel(3, 140)).expect("cancel");
    full.apply(&observe(4, 1, 151, fill("a", 100_000, 100_000, true))).expect("full");
    assert_eq!(state(&full), OrderState::FullyMatched);

    let mut rejected = submitted();
    rejected.apply(&observe(2, 0, 135, ExchangeEvent::Live)).expect("live");
    rejected.apply(&request_cancel(3, 140)).expect("cancel");
    rejected.apply(&observe(4, 1, 151, ExchangeEvent::CancelRejected)).expect("rejected");
    assert!(matches!(state(&rejected), OrderState::Active(ActiveState::Live)));
}

#[test]
fn cancel_policy_binding_and_replay_are_enforced() {
    let mut denied = submitted();
    let mut substitute = request_cancel(2, 141);
    if let ExecutionCommand::RequestCancel { request, .. } = &mut substitute {
        request.subject_digest = [7; 32];
    }
    assert_eq!(denied.apply(&substitute).expect("deny").reason, ExecutionReason::PolicySubjectMismatch);

    let mut engine = submitted();
    engine.apply(&request_cancel(3, 140)).expect("cancel");
    assert_eq!(engine.apply(&request_cancel(4, 140)).expect("deny").reason, ExecutionReason::PolicyAlreadyUsed);
}

#[test]
fn source_regression_retry_classes_idempotency_and_codec_are_strict() {
    let command = submit(1, placement(), permit(), 130);
    let encoded = encode_command(&command).expect("encode");
    assert_eq!(encode_command(&command).expect("again"), encoded);
    let mut engine = PaperExecutionEngine::new();
    let first = engine.apply(&command).expect("first");
    assert_eq!(engine.apply(&command), Ok(first));
    engine.apply(&observe(2, 10, 150, ExchangeEvent::Acknowledged)).expect("ack");
    assert_eq!(engine.apply(&observe(3, 10, 151, ExchangeEvent::Live)), Err(Error::SourceHistory));

    let mut receive_history = submitted();
    let mut late_ack = observe(2, 10, 150, ExchangeEvent::Acknowledged);
    if let ExecutionCommand::Observe { observation, recorded_at_ns, .. } = &mut late_ack {
        observation.received_time_ns = 200;
        *recorded_at_ns = 200;
    }
    receive_history.apply(&late_ack).expect("ack");
    let mut receive_regression = observe(3, 11, 151, ExchangeEvent::Live);
    if let ExecutionCommand::Observe { observation, recorded_at_ns, .. } = &mut receive_regression {
        observation.received_time_ns = 199;
        *recorded_at_ns = 201;
    }
    assert_eq!(receive_history.apply(&receive_regression), Err(Error::SourceHistory));

    for class in [
        RetryClass::Permanent,
        RetryClass::Restart,
        RetryClass::RateLimit,
        RetryClass::BalanceOrAllowance,
        RetryClass::DelayedCheck,
        RetryClass::Unknown,
    ] {
        let mut value = submitted();
        value.apply(&observe(2, 0, 150, ExchangeEvent::Rejected { class, code: "x".to_owned() })).expect("reject");
        assert!(matches!(state(&value), OrderState::Rejected { class: actual, .. } if actual == class));
    }
}

#[test]
fn clock_regression_and_conflicting_reuse_halt_without_touching_orders() {
    let mut engine = submitted();
    assert_eq!(engine.apply(&observe(2, 0, 129, ExchangeEvent::Acknowledged)), Err(Error::ClockRegression));
    assert!(engine.is_halted());
    assert!(matches!(engine.apply(&observe(3, 0, 140, ExchangeEvent::Acknowledged)), Err(Error::Halted(_))));
    assert!(matches!(state(&engine), OrderState::Active(ActiveState::Submitted)));

    let mut conflict = submitted();
    assert_eq!(conflict.apply(&submit(1, placement(), permit(), 131)), Err(Error::IdempotencyConflict));
    assert_eq!(conflict.snapshot().accepted_commands, 1);
}

/// Runs one command through the durable engine as a journal writer would:
/// prepare, append, then install.
fn journal_apply(durable: &mut DurableExecutionEngine, journal: &mut Vec<ExecutionCommand>, cmd: ExecutionCommand) {
    let prepared = durable.prepare(&cmd).expect("prepare");
    assert_eq!(prepared.sequence as usize, journal.len());
    journal.push(cmd.clone());
    durable.append_answered(prepared.sequence, Ok(())).expect("append");
    durable.install(&cmd).expect("install");
}

#[test]
fn durable_replay_checkpoint_corruption_and_sync_failure_are_fail_closed() {
    let mut durable = DurableExecutionEngine::new(
        None,
        ExecutionRecovery { engine: PaperExecutionEngine::new(), last_sequence: None },
    )
    .expect("durable");
    let mut journal = Vec::new();
    journal_apply(&mut durable, &mut journal, submit(1, placement(), permit(), 130));
    let checkpoint = ExecutionCheckpoint { sequence: 0, execution_digest: durable.engine().snapshot().digest };
    journal_apply(&mut durable, &mut journal, observe(2, 0, 150, ExchangeEvent::Acknowledged));
    let online = durable.engine().snapshot().digest;

    let mut replay = ExecutionReplay::start(Some(checkpoint));
    for (sequence, cmd) in journal.iter().enumerate() {
        let at = cmd.recorded_at_ns();
        replay.step(sequence as u64, true, at, at, cmd).expect("replay");
    }
    let recovered = replay.finish().expect("recover");
    assert_eq!(recovered.last_sequence, Some(1));
    assert_eq!(recovered.engine.snapshot().digest, online);

    let mut bytes = checkpoint.encode();
    bytes[24] ^= 1;
    assert_eq!(ExecutionCheckpoint::decode(&bytes), Err(CheckpointError::Checksum));

    let mut failed = DurableExecutionEngine::new(
        None,
        ExecutionRecovery { engine: PaperExecutionEngine::new(), last_sequence: None },
    )
    .expect("failed");
    let prepared = failed.prepare(&submit(1, placement(), permit(), 130)).expect("prepare");
    failed.append_answered(prepared.sequence, Ok(())).expect("append");
    assert_eq!(failed.sync_answered(Err("sync".to_owned())), Err(StorageError::Journal("sync".to_owned())));
    assert_eq!(failed.sync(), Err(StorageError::Halted("paper journal error: sync".to_owned())));
    assert_eq!(failed.last_sequence(), Some(prepared.sequence));
    assert_eq!(failed.engine().snapshot().accepted_commands, 0);
    assert!(matches!(failed.prepare(&submit(1, placement(), permit(), 130)), Err(StorageError::Halted(_))));
}

#[test]
fn execution_replay_rejects_a_diverging_checkpoint_and_a_writer_mismatch() {
    let mut durable = DurableExecutionEngine::new(
        None,
        ExecutionRecovery { engine: PaperExecutionEngine::new(), last_sequence: None },
    )
    .expect("durable");
    let mut journal = Vec::new();
    journal_apply(&mut durable, &mut journal, submit(1, placement(), permit(), 130));
    assert_eq!(durable.last_sequence(), Some(0));
    let wrong = ExecutionCheckpoint { sequence: 0, execution_digest: [7; 32] };
    let mut replay = ExecutionReplay::start(Some(wrong));
    assert_eq!(replay.step(0, true, 130, 130, &journal[0]), Err(StorageError::CheckpointMismatch));
    let mut skewed = ExecutionReplay::start(None);
    assert_eq!(skewed.step(0, true, 130, 131, &journal[0]), Err(StorageError::EnvelopeTimestamp));
    assert!(matches!(
        DurableExecutionEngine::new(Some(3), ExecutionRecovery { engine: PaperExecutionEngine::new(), last_sequence: None }),
        Err(StorageError::RecoveryMismatch)
    ));
    assert!(matches!(
        durable.prepare(&submit(5, placement(), permit(), -1)),
        Err(StorageError::Execution(Error::Timestamp))
    ));
}
