use paper_trading_core::paired_policy::book::{PairedPlacementPolicy, PairedPolicyCommand};
use paper_trading_core::paired_policy::rules::{valid_transition, derive_permit_id};
use paper_trading_core::paired_policy::types::{
    Error, ExchangeMode, LegRole, LegState, ModeObservation, PairPermit, PairPermitId, PairStageId,
    PairedPolicyCommandId, PairedPolicyDecision, PairedPolicyReason, PairedPolicyStatus, StageView,
    MAX_PERMISSION_NS,
};
use paper_trading_core::risk::types::{OrderExposure, OrderSide, RiskOrderId, TokenKey};

const ACTIVE_NS: i64 = 3_600_000 * 1_000_000;

fn bytes(value: u8) -> [u8; 32] {
    [value; 32]
}

fn leg(order: u8, token: &str) -> OrderExposure {
    OrderExposure {
        order_id: RiskOrderId(bytes(order)),
        token: TokenKey { condition_id: "btc".to_owned(), token_id: token.to_owned() },
        side: OrderSide::Buy,
        quantity_micros: 1_000_000,
        partial_fill_micros: 0,
        limit_price_micros: 450_000,
        max_fee_micros: 5_000,
    }
}

fn stage() -> StageView {
    StageView {
        stage_id: PairStageId(bytes(20)),
        record_digest: bytes(21),
        fully_reserved: true,
        boundary_ok: true,
        staged_at_ns: ACTIVE_NS,
        candidate_expires_at_ns: [ACTIVE_NS + MAX_PERMISSION_NS, ACTIVE_NS + MAX_PERMISSION_NS],
        candidates: [leg(30, "up"), leg(31, "down")],
        candidate_digests: [bytes(32), bytes(33)],
        reservation_ids: [bytes(34), bytes(35)],
    }
}

fn setup() -> (PairedPlacementPolicy, PairStageId) {
    let mut runtime = PairedPlacementPolicy::new();
    let staged = runtime.record_staged(PairedPolicyCommandId(bytes(2)), Some(&stage())).expect("stage");
    assert_eq!(staged.reason, PairedPolicyReason::Staged);
    let stage_id = staged.stage_id.expect("stage id");
    runtime
        .apply_fresh(
            &PairedPolicyCommand::ObserveMode {
                command_id: PairedPolicyCommandId(bytes(3)),
                observation: ModeObservation {
                    sequence: 1,
                    mode: ExchangeMode::Normal,
                    observed_at_ns: ACTIVE_NS,
                    valid_until_ns: ACTIVE_NS + MAX_PERMISSION_NS,
                },
                recorded_at_ns: ACTIVE_NS,
            },
            None,
        )
        .expect("mode");
    (runtime, stage_id)
}

fn authorize_first(runtime: &mut PairedPlacementPolicy, stage_id: PairStageId) -> PairPermit {
    runtime
        .apply_fresh(
            &PairedPolicyCommand::AuthorizeFirst {
                command_id: PairedPolicyCommandId(bytes(4)),
                stage_id,
                leg_index: 0,
                max_mode_age_ns: MAX_PERMISSION_NS,
                valid_until_ns: ACTIVE_NS + 50,
                recorded_at_ns: ACTIVE_NS,
            },
            Some(&stage()),
        )
        .expect("authorize")
        .permit
        .expect("permit")
}

fn observe(
    runtime: &mut PairedPlacementPolicy,
    stage_id: PairStageId,
    permit: &PairPermit,
    id: u8,
    sequence: u64,
    state: LegState,
) -> PairedPolicyDecision {
    runtime
        .apply_fresh(
            &PairedPolicyCommand::ObserveLeg {
                command_id: PairedPolicyCommandId(bytes(id)),
                stage_id,
                leg_index: permit.leg_index,
                permit_id: permit.permit_id,
                state,
                source_sequence: sequence,
                observed_at_ns: ACTIVE_NS + i64::from(id),
                recorded_at_ns: ACTIVE_NS + i64::from(id),
            },
            None,
        )
        .expect("observe")
}

fn abort(runtime: &mut PairedPlacementPolicy, stage_id: PairStageId, id: u8) -> PairedPolicyDecision {
    runtime
        .apply_fresh(
            &PairedPolicyCommand::AbortSafe {
                command_id: PairedPolicyCommandId(bytes(id)),
                stage_id,
                recorded_at_ns: ACTIVE_NS + i64::from(id),
            },
            None,
        )
        .expect("abort")
}

#[test]
fn first_permission_binds_exact_stage_candidate_reservation_and_mode() {
    let (mut runtime, stage_id) = setup();
    let permit = authorize_first(&mut runtime, stage_id);
    assert!(permit.verify_digest());
    assert_eq!(permit.role, LegRole::First);
    assert_eq!(permit.stage_id, stage_id);
    assert_eq!(permit.mode_sequence, 1);
    assert_eq!(permit.order, leg(30, "up"));
    assert_eq!(permit.candidate_digest, bytes(32));
    assert_eq!(permit.reservation_id, bytes(34));
    assert_eq!(permit.permit_id, derive_permit_id(stage_id, 0, LegRole::First));
    assert_eq!(runtime.record(&stage_id).expect("record").legs[0], LegState::Authorized);
}

#[test]
fn hedge_is_denied_until_first_is_fully_matched_then_exact_other_leg_is_permitted() {
    let (mut runtime, stage_id) = setup();
    let first = authorize_first(&mut runtime, stage_id);
    let hedge_command = |id: u8, valid: i64, at: i64| PairedPolicyCommand::AuthorizeHedge {
        command_id: PairedPolicyCommandId(bytes(id)),
        stage_id,
        max_mode_age_ns: MAX_PERMISSION_NS,
        valid_until_ns: valid,
        recorded_at_ns: at,
    };
    let early = runtime.apply_fresh(&hedge_command(5, ACTIVE_NS + 60, ACTIVE_NS), Some(&stage())).expect("deny");
    assert_eq!(early.reason, PairedPolicyReason::HedgeNotReady);
    assert_eq!(early.status, PairedPolicyStatus::Denied);
    observe(&mut runtime, stage_id, &first, 6, 1, LegState::Submitted);
    observe(&mut runtime, stage_id, &first, 7, 2, LegState::FullyMatched);
    let hedge = runtime
        .apply_fresh(&hedge_command(8, ACTIVE_NS + 80, ACTIVE_NS + 8), Some(&stage()))
        .expect("hedge")
        .permit
        .expect("permit");
    assert_eq!(hedge.role, LegRole::Hedge);
    assert_eq!(hedge.leg_index, 1);
    assert_eq!(hedge.order, leg(31, "down"));
}

#[test]
fn permission_is_single_issue_and_no_fill_allows_paired_abort() {
    let (mut runtime, stage_id) = setup();
    let first = authorize_first(&mut runtime, stage_id);
    let duplicate = runtime
        .apply_fresh(
            &PairedPolicyCommand::AuthorizeFirst {
                command_id: PairedPolicyCommandId(bytes(5)),
                stage_id,
                leg_index: 0,
                max_mode_age_ns: MAX_PERMISSION_NS,
                valid_until_ns: ACTIVE_NS + 60,
                recorded_at_ns: ACTIVE_NS,
            },
            Some(&stage()),
        )
        .expect("deny duplicate");
    assert_eq!(duplicate.reason, PairedPolicyReason::LegAlreadyAuthorized);
    observe(&mut runtime, stage_id, &first, 6, 1, LegState::NoFillTerminal);
    assert_eq!(abort(&mut runtime, stage_id, 7).reason, PairedPolicyReason::Aborted);
    assert!(runtime.record(&stage_id).expect("record").aborted);
}

#[test]
fn unknown_and_partial_states_retain_both_reservations_and_forbid_abort() {
    let (mut runtime, stage_id) = setup();
    let first = authorize_first(&mut runtime, stage_id);
    observe(&mut runtime, stage_id, &first, 6, 1, LegState::Submitted);
    observe(&mut runtime, stage_id, &first, 7, 2, LegState::PartiallyMatched);
    observe(&mut runtime, stage_id, &first, 8, 3, LegState::Unknown);
    let record = runtime.record(&stage_id).expect("record");
    assert_eq!(record.legs.iter().filter(|state| state.possible_fill()).count(), 1);
    assert!(record.ever_partially_matched[0]);
    assert_eq!(abort(&mut runtime, stage_id, 9).reason, PairedPolicyReason::UnsafeAbort);
    assert!(!runtime.record(&stage_id).expect("record").aborted);
}

#[test]
fn expiry_does_not_release_then_safe_abort_releases_both() {
    let (mut runtime, stage_id) = setup();
    authorize_first(&mut runtime, stage_id);
    let expired = runtime
        .apply_fresh(
            &PairedPolicyCommand::Expire {
                command_id: PairedPolicyCommandId(bytes(5)),
                stage_id,
                recorded_at_ns: ACTIVE_NS + 50,
            },
            None,
        )
        .expect("expire");
    assert_eq!(expired.reason, PairedPolicyReason::PermissionExpired);
    let record = runtime.record(&stage_id).expect("record");
    assert_eq!(record.legs[0], LegState::Expired);
    assert!(!record.aborted);
    assert_eq!(abort(&mut runtime, stage_id, 6).reason, PairedPolicyReason::Aborted);
}

#[test]
fn stale_mode_and_stage_window_deny_new_permissions() {
    let (mut runtime, stage_id) = setup();
    let stale = runtime
        .apply_fresh(
            &PairedPolicyCommand::AuthorizeFirst {
                command_id: PairedPolicyCommandId(bytes(4)),
                stage_id,
                leg_index: 0,
                max_mode_age_ns: 0,
                valid_until_ns: ACTIVE_NS + 50,
                recorded_at_ns: ACTIVE_NS + 1,
            },
            Some(&stage()),
        )
        .expect("stale mode");
    assert_eq!(stale.reason, PairedPolicyReason::ModeStale);
    let stale_stage = runtime
        .apply_fresh(
            &PairedPolicyCommand::AuthorizeFirst {
                command_id: PairedPolicyCommandId(bytes(5)),
                stage_id,
                leg_index: 0,
                max_mode_age_ns: 2 * MAX_PERMISSION_NS,
                valid_until_ns: ACTIVE_NS + MAX_PERMISSION_NS + 2,
                recorded_at_ns: ACTIVE_NS + MAX_PERMISSION_NS + 1,
            },
            Some(&stage()),
        )
        .expect("stale stage");
    assert_eq!(stale_stage.reason, PairedPolicyReason::StageStale);
}

#[test]
fn permit_subject_substitution_halts() {
    let (mut runtime, stage_id) = setup();
    let permit = authorize_first(&mut runtime, stage_id);
    let refused = runtime.apply_fresh(
        &PairedPolicyCommand::ObserveLeg {
            command_id: PairedPolicyCommandId(bytes(5)),
            stage_id,
            leg_index: 0,
            permit_id: PairPermitId(bytes(99)),
            state: LegState::Submitted,
            source_sequence: 1,
            observed_at_ns: ACTIVE_NS + 1,
            recorded_at_ns: ACTIVE_NS + 1,
        },
        None,
    );
    assert_eq!(refused, Err(Error::Boundary));
    assert!(permit.verify_digest());
    assert_eq!(runtime.record(&stage_id).expect("record").legs[0], LegState::Authorized);
}

#[test]
fn exchange_mode_equivocation_halts_without_releasing_capital() {
    let (mut runtime, stage_id) = setup();
    let refused = runtime.apply_fresh(
        &PairedPolicyCommand::ObserveMode {
            command_id: PairedPolicyCommandId(bytes(4)),
            observation: ModeObservation {
                sequence: 1,
                mode: ExchangeMode::CancelOnly,
                observed_at_ns: ACTIVE_NS,
                valid_until_ns: ACTIVE_NS + MAX_PERMISSION_NS,
            },
            recorded_at_ns: ACTIVE_NS,
        },
        None,
    );
    assert_eq!(refused, Err(Error::ModeHistory));
    assert_eq!(runtime.mode().expect("mode").mode, ExchangeMode::Normal);
    assert!(!runtime.record(&stage_id).expect("record").aborted);
}

#[test]
fn impossible_lifecycle_or_source_time_regression_is_absorbing() {
    let (mut runtime, stage_id) = setup();
    let first = authorize_first(&mut runtime, stage_id);
    observe(&mut runtime, stage_id, &first, 6, 1, LegState::Submitted);
    observe(&mut runtime, stage_id, &first, 7, 2, LegState::PartiallyMatched);
    let refused = runtime.apply_fresh(
        &PairedPolicyCommand::ObserveLeg {
            command_id: PairedPolicyCommandId(bytes(8)),
            stage_id,
            leg_index: 0,
            permit_id: first.permit_id,
            state: LegState::NoFillTerminal,
            source_sequence: 3,
            observed_at_ns: ACTIVE_NS + 8,
            recorded_at_ns: ACTIVE_NS + 8,
        },
        None,
    );
    assert_eq!(refused, Err(Error::Boundary));
    let regressed = runtime.apply_fresh(
        &PairedPolicyCommand::ObserveLeg {
            command_id: PairedPolicyCommandId(bytes(9)),
            stage_id,
            leg_index: 0,
            permit_id: first.permit_id,
            state: LegState::FullyMatched,
            source_sequence: 2,
            observed_at_ns: ACTIVE_NS + 9,
            recorded_at_ns: ACTIVE_NS + 9,
        },
        None,
    );
    assert_eq!(regressed, Err(Error::Boundary));
    assert_eq!(runtime.record(&stage_id).expect("record").legs[0], LegState::PartiallyMatched);
}

#[test]
fn any_possible_fill_state_prevents_release() {
    for state in [
        LegState::Submitted,
        LegState::Delayed,
        LegState::Live,
        LegState::PartiallyMatched,
        LegState::Unknown,
        LegState::FullyMatched,
    ] {
        assert!(state.possible_fill());
        assert!(!state.safe_terminal());
    }
}

#[test]
fn a_partially_matched_leg_cannot_end_unfilled_from_unknown() {
    assert!(!valid_transition(LegState::Unknown, LegState::NoFillTerminal, true));
    assert!(valid_transition(LegState::Unknown, LegState::NoFillTerminal, false));
    assert!(valid_transition(LegState::Unknown, LegState::PartiallyMatchedTerminal, true));
    assert!(!valid_transition(LegState::Unknown, LegState::PartiallyMatchedTerminal, false));
    assert!(!valid_transition(LegState::FullyMatched, LegState::Live, false));
}

#[test]
fn staging_refuses_duplicates_and_reports_no_trade() {
    let mut runtime = PairedPlacementPolicy::new();
    let none = runtime.record_staged(PairedPolicyCommandId(bytes(1)), None).expect("no trade");
    assert_eq!(none.reason, PairedPolicyReason::PairNoTrade);
    assert_eq!(none.status, PairedPolicyStatus::Denied);
    runtime.record_staged(PairedPolicyCommandId(bytes(2)), Some(&stage())).expect("stage");
    assert_eq!(runtime.record_staged(PairedPolicyCommandId(bytes(3)), Some(&stage())), Err(Error::Boundary));
    let mut invalid = stage();
    invalid.stage_id = PairStageId(bytes(40));
    invalid.boundary_ok = false;
    assert_eq!(runtime.record_staged(PairedPolicyCommandId(bytes(4)), Some(&invalid)), Err(Error::Boundary));
}

fn mode_command(id: u8, sequence: u64, at: i64) -> PairedPolicyCommand {
    PairedPolicyCommand::ObserveMode {
        command_id: PairedPolicyCommandId(bytes(id)),
        observation: ModeObservation {
            sequence,
            mode: ExchangeMode::Normal,
            observed_at_ns: at,
            valid_until_ns: at + MAX_PERMISSION_NS,
        },
        recorded_at_ns: at,
    }
}

#[test]
fn replayed_policy_commands_return_their_decision_and_conflicts_halt() {
    let mut runtime = PairedPlacementPolicy::new();
    let first = runtime.apply(&mode_command(3, 1, ACTIVE_NS), None).expect("mode");
    assert_eq!(first.reason, PairedPolicyReason::ModeAccepted);
    assert!(first.verify_digest());
    assert_eq!(runtime.apply(&mode_command(3, 1, ACTIVE_NS), None), Ok(first.clone()));
    assert!(!runtime.is_halted());
    assert_eq!(runtime.apply(&mode_command(3, 2, ACTIVE_NS), None), Err(Error::IdempotencyConflict));
    assert!(runtime.is_halted());
    assert!(matches!(runtime.apply(&mode_command(4, 2, ACTIVE_NS + 1), None), Err(Error::Halted(_))));
}

#[test]
fn policy_clock_regression_and_bad_timestamps_are_refused() {
    let mut runtime = PairedPlacementPolicy::new();
    let mut future = mode_command(3, 1, ACTIVE_NS);
    if let PairedPolicyCommand::ObserveMode { observation, .. } = &mut future {
        observation.observed_at_ns = ACTIVE_NS + 1;
    }
    assert_eq!(runtime.apply(&future, None), Err(Error::Timestamp));
    assert!(!runtime.is_halted());
    runtime.apply(&mode_command(3, 1, ACTIVE_NS), None).expect("mode");
    assert_eq!(runtime.apply(&mode_command(4, 2, ACTIVE_NS - 1), None), Err(Error::ClockRegression));
    assert!(runtime.is_halted());
    let mut failing = PairedPlacementPolicy::new();
    let expire = PairedPolicyCommand::Expire {
        command_id: PairedPolicyCommandId(bytes(9)),
        stage_id: PairStageId(bytes(99)),
        recorded_at_ns: ACTIVE_NS,
    };
    assert_eq!(failing.apply(&expire, None), Err(Error::Boundary));
    assert!(failing.is_halted());
}

#[test]
fn policy_snapshot_counts_reservations_and_exposed_legs_under_its_digest() {
    let empty = PairedPlacementPolicy::new().snapshot();
    assert_eq!(empty.mode, ExchangeMode::Unknown);
    assert_eq!(empty.mode_sequence, None);
    assert_eq!(empty.active_reservation_count, 0);
    let (mut runtime, stage_id) = setup();
    let staged = runtime.snapshot();
    assert_eq!(staged.mode, ExchangeMode::Normal);
    assert_eq!(staged.mode_sequence, Some(1));
    assert_eq!(staged.pair_records.len(), 1);
    assert_eq!(staged.active_reservation_count, 2);
    assert_eq!(staged.possible_exposure_legs, 0);
    assert!(!staged.halted);
    assert_ne!(staged.digest, empty.digest);
    let permit = authorize_first(&mut runtime, stage_id);
    observe(&mut runtime, stage_id, &permit, 5, 1, LegState::Submitted);
    let submitted = runtime.snapshot();
    assert_eq!(submitted.possible_exposure_legs, 1);
    assert_ne!(submitted.digest, staged.digest);
    assert_eq!(runtime.snapshot().digest, submitted.digest);
    abort(&mut runtime, stage_id, 6);
    assert_eq!(runtime.snapshot().active_reservation_count, 2);
}
