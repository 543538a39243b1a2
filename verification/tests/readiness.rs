use std::collections::BTreeSet;

use paper_trading_core::checkpoint::ReadinessCheckpoint;
use paper_trading_core::readiness::durable::{
    DurableProductionReadiness, ReadinessRecovery, ReadinessReplay, ReadinessStorageError,
};
use paper_trading_core::readiness::engine::ProductionChangeReadiness;
use paper_trading_core::readiness::evaluate::retained_floor;
use paper_trading_core::readiness::record::{
    check_record, record_file_body, record_file_bytes, ProductionReadinessRecordFileError,
};
use paper_trading_core::readiness::types::{
    CampaignEvidenceStatus, ChangeCampaignEvidence, DecisionRole, DecisionValue, Error, ProductionChangeSubject,
    ProductionReadinessCandidate, ProductionReadinessPolicy, ProductionReadinessRecord, ReadinessBaseline,
    ReadinessCommand, ReadinessCommandId, ReadinessDecision, ReadinessReason, ReadinessStatus,
};

const CASES_INCOMPLETE: u16 = 3;

fn id(value: u8) -> [u8; 32] {
    [value; 32]
}

fn policy() -> ProductionReadinessPolicy {
    ProductionReadinessPolicy {
        maximum_evidence_records: 8,
        minimum_eligible_campaigns: 2,
        minimum_manifest_diversity: 2,
        minimum_schedule_diversity: 2,
        minimum_result_chain_diversity: 2,
        minimum_plan_diversity: 8,
        minimum_case_count: 8,
        minimum_independent_plan_count: 8,
        minimum_restart_count: 2,
        minimum_approval_set_count: 8,
        retention_basis_points: 9_000,
        maximum_evidence_age_ns: 2_000,
        maximum_candidate_age_ns: 2_000,
        maximum_decision_age_ns: 1_000,
    }
}

fn evidence(seed: u8, evaluated_at_ns: i64) -> ChangeCampaignEvidence {
    ChangeCampaignEvidence {
        evidence_id: id(seed),
        campaign_id: id(seed + 1),
        manifest_digest: id(seed + 2),
        evaluated_at_ns,
        status: CampaignEvidenceStatus::OperatorReviewEligible,
        reasons: Vec::new(),
        required_scenarios_complete: true,
        covered_scenarios_complete: true,
        case_count: 4,
        completed_case_count: 4,
        independent_plan_count: 4,
        case_schedule_digest: id(seed + 3),
        case_result_chain_digest: id(seed + 4),
        restart_reconstruction_count: 1,
        approval_set_count: 4,
        plan_digests: (0..4).map(|index| id(seed + 10 + index)).collect(),
        certificate_digests: vec![id(seed + 20)],
        preflight_report_digests: vec![id(seed + 21)],
        rollback_package_digests: vec![id(seed + 22)],
        operator_decision_required: true,
        credential_material_created: false,
        authentication_authority_granted: false,
        deployment_authority_granted: false,
        rollback_execution_authority_granted: false,
        traffic_authority_granted: false,
        cloud_control_authority_granted: false,
        live_trading_authority_granted: false,
        evidence_digest: [0; 32],
    }
    .sealed()
}

fn baseline() -> ReadinessBaseline {
    ReadinessBaseline {
        campaign_count: 2,
        case_count: 8,
        independent_plan_count: 8,
        restart_count: 2,
        approval_set_count: 8,
        baseline_digest: [0; 32],
    }
    .sealed()
}

fn union_subjects(
    evidence: &[ChangeCampaignEvidence],
    select: impl Fn(&ChangeCampaignEvidence) -> &Vec<[u8; 32]>,
) -> Vec<[u8; 32]> {
    evidence.iter().flat_map(|item| select(item).iter().copied()).collect::<BTreeSet<_>>().into_iter().collect()
}

fn subject(evidence: &[ChangeCampaignEvidence]) -> ProductionChangeSubject {
    ProductionChangeSubject {
        release_digest: id(200),
        binary_digest: id(201),
        configuration_digest: id(202),
        infrastructure_digest: id(203),
        observability_digest: id(204),
        plan_digests: union_subjects(evidence, |item| &item.plan_digests),
        certificate_digests: union_subjects(evidence, |item| &item.certificate_digests),
        preflight_report_digests: union_subjects(evidence, |item| &item.preflight_report_digests),
        rollback_package_digests: union_subjects(evidence, |item| &item.rollback_package_digests),
        subject_digest: [0; 32],
    }
    .sealed()
}

fn candidate_with(evidence: Vec<ChangeCampaignEvidence>) -> ProductionReadinessCandidate {
    ProductionReadinessCandidate {
        candidate_id: id(210),
        created_at_ns: 10_000,
        expires_at_ns: 11_000,
        subject: subject(&evidence),
        evidence,
        baseline: baseline(),
        policy_digest: [0; 32],
        candidate_digest: [0; 32],
    }
    .sealed(&policy())
}

fn candidate() -> ProductionReadinessCandidate {
    candidate_with(vec![evidence(1, 9_900), evidence(40, 9_901)])
}

fn decision(
    candidate: &ProductionReadinessCandidate,
    role: DecisionRole,
    command: u8,
    operator: u8,
    value: DecisionValue,
    at: i64,
    valid_until: i64,
) -> ReadinessCommand {
    ReadinessCommand::RecordDecision {
        command_id: ReadinessCommandId(id(command)),
        decision: ReadinessDecision {
            decision_id: id(command + 50),
            candidate_id: candidate.candidate_id,
            candidate_digest: candidate.candidate_digest,
            subject_digest: candidate.subject.subject_digest,
            role,
            operator_id: id(operator),
            value,
            decided_at_ns: at,
            valid_until_ns: valid_until,
            decision_digest: [0; 32],
        }
        .sealed(),
        recorded_at_ns: at,
    }
}

fn commands_for(candidate: &ProductionReadinessCandidate) -> Vec<ReadinessCommand> {
    vec![
        ReadinessCommand::Register {
            command_id: ReadinessCommandId(id(1)),
            recorded_at_ns: candidate.created_at_ns,
            candidate: Box::new(candidate.clone()),
        },
        decision(candidate, DecisionRole::Release, 2, 11, DecisionValue::Approve, 10_010, 10_800),
        decision(candidate, DecisionRole::Risk, 3, 12, DecisionValue::Approve, 10_011, 10_800),
        decision(candidate, DecisionRole::Operations, 4, 13, DecisionValue::Approve, 10_012, 10_800),
        ReadinessCommand::Finalize {
            command_id: ReadinessCommandId(id(5)),
            candidate_id: candidate.candidate_id,
            record_id: id(220),
            evaluated_at_ns: 10_100,
            recorded_at_ns: 10_100,
        },
    ]
}

fn run(commands: &[ReadinessCommand]) -> ProductionChangeReadiness {
    let mut owner = ProductionChangeReadiness::new(policy()).expect("owner");
    for command in commands {
        owner.apply(command).expect("command");
    }
    owner
}

fn last_record(commands: &[ReadinessCommand]) -> ProductionReadinessRecord {
    run(commands).snapshot().last_record.expect("record")
}

#[test]
fn fresh_diverse_regression_safe_three_role_evidence_is_ready() {
    let record = last_record(&commands_for(&candidate()));
    assert_eq!(record.status, ReadinessStatus::ProductionChangeReady);
    assert!(record.reasons.is_empty());
    assert_eq!(record.eligible_campaign_count, 2);
    assert_eq!(record.case_count, 8);
    assert_eq!(record.independent_plan_count, 8);
    assert_eq!(record.restart_count, 2);
    assert_eq!(record.approval_set_count, 8);
    assert_eq!(record.regression_case_floor, 8);
    assert!(record.operator_execution_required);
    assert!(!record.credential_material_created);
    assert!(!record.authentication_authority_granted);
    assert!(!record.deployment_authority_granted);
    assert!(!record.rollback_execution_authority_granted);
    assert!(!record.traffic_authority_granted);
    assert!(!record.cloud_control_authority_granted);
    assert!(!record.live_trading_authority_granted);
}

#[test]
fn subject_substitution_and_authority_bearing_evidence_halt_registration() {
    let mut substituted = candidate();
    substituted.subject.configuration_digest = id(199);
    substituted = substituted.sealed(&policy());
    let mut owner = ProductionChangeReadiness::new(policy()).expect("owner");
    assert!(matches!(
        owner.apply(&ReadinessCommand::Register {
            command_id: ReadinessCommandId(id(1)),
            recorded_at_ns: substituted.created_at_ns,
            candidate: Box::new(substituted),
        }),
        Err(Error::Candidate)
    ));

    let mut unsafe_evidence = evidence(1, 9_900);
    unsafe_evidence.deployment_authority_granted = true;
    unsafe_evidence = unsafe_evidence.sealed();
    let candidate = candidate_with(vec![unsafe_evidence, evidence(40, 9_901)]);
    let mut owner = ProductionChangeReadiness::new(policy()).expect("owner");
    assert!(matches!(
        owner.apply(&ReadinessCommand::Register {
            command_id: ReadinessCommandId(id(2)),
            recorded_at_ns: candidate.created_at_ns,
            candidate: Box::new(candidate),
        }),
        Err(Error::Evidence)
    ));
}

#[test]
fn duplicate_stale_and_ineligible_evidence_are_attributable() {
    let first = evidence(1, 7_000);
    let duplicate = first.clone();
    let mut ineligible = evidence(40, 9_901);
    ineligible.status = CampaignEvidenceStatus::NotEligible;
    ineligible.reasons = vec![CASES_INCOMPLETE];
    ineligible = ineligible.sealed();
    let candidate = candidate_with(vec![first, duplicate, ineligible]);
    let record = last_record(&commands_for(&candidate));
    assert_eq!(record.status, ReadinessStatus::NotReady);
    assert!(record.reasons.contains(&ReadinessReason::DuplicateEvidence));
    assert!(record.reasons.contains(&ReadinessReason::DuplicateCampaign));
    assert!(record.reasons.contains(&ReadinessReason::EvidenceStale));
    assert!(record.reasons.contains(&ReadinessReason::EvidenceIneligible));
}

#[test]
fn missing_rejected_expired_and_same_operator_decisions_deny_readiness() {
    let candidate = candidate();
    let mut commands = commands_for(&candidate);
    commands.remove(3);
    let record = last_record(&commands);
    assert!(record.reasons.contains(&ReadinessReason::DecisionMissing(DecisionRole::Operations)));

    let mut commands = commands_for(&candidate);
    commands[2] = decision(&candidate, DecisionRole::Risk, 3, 12, DecisionValue::Reject, 10_011, 10_800);
    let record = last_record(&commands);
    assert!(record.reasons.contains(&ReadinessReason::DecisionRejected(DecisionRole::Risk)));

    let mut commands = commands_for(&candidate);
    commands[1] = decision(&candidate, DecisionRole::Release, 2, 11, DecisionValue::Approve, 10_010, 10_050);
    let record = last_record(&commands);
    assert!(record.reasons.contains(&ReadinessReason::DecisionExpired(DecisionRole::Release)));

    let mut commands = commands_for(&candidate);
    commands[2] = decision(&candidate, DecisionRole::Risk, 3, 11, DecisionValue::Approve, 10_011, 10_800);
    let record = last_record(&commands);
    assert!(record.reasons.contains(&ReadinessReason::OperatorsNotDistinct));
}

#[test]
fn stricter_regression_and_diversity_floors_deny_without_overflow() {
    let mut strict = policy();
    strict.minimum_plan_diversity = 9;
    strict.minimum_case_count = 9;
    let candidate = ProductionReadinessCandidate { policy_digest: [0; 32], candidate_digest: [0; 32], ..candidate() }.sealed(&strict);
    let mut owner = ProductionChangeReadiness::new(strict).expect("owner");
    let mut commands = commands_for(&candidate);
    if let ReadinessCommand::Register { candidate: slot, .. } = &mut commands[0] {
        *slot = Box::new(candidate);
    }
    for command in commands {
        owner.apply(&command).expect("command");
    }
    let record = owner.snapshot().last_record.expect("record");
    assert!(record.reasons.contains(&ReadinessReason::PlanDiversity));
    assert!(record.reasons.contains(&ReadinessReason::CaseRegression));
}

#[test]
fn record_file_is_create_new_and_corruption_detecting() {
    let record = last_record(&commands_for(&candidate()));
    let body = b"{\"version\":1}".to_vec();
    let mut bytes = record_file_bytes(&record, &body).expect("frame");
    assert_eq!(record_file_body(&bytes).expect("read"), body);
    assert_eq!(check_record(&record), Ok(()));
    let last = bytes.len() - 1;
    bytes[last] ^= 1;
    assert_eq!(record_file_body(&bytes), Err(ProductionReadinessRecordFileError::Checksum));
    bytes[9] = 2;
    assert_eq!(record_file_body(&bytes), Err(ProductionReadinessRecordFileError::Version(513)));
}

#[test]
fn identical_commands_produce_identical_complete_state() {
    let commands = commands_for(&candidate());
    let first = run(&commands).snapshot();
    let second = run(&commands).snapshot();
    assert_eq!(first.digest, second.digest);
    assert_eq!(first.last_record, second.last_record);
    assert_eq!(first.accepted_commands, second.accepted_commands);
}

#[test]
fn retained_floor_is_monotonic() {
    for baseline in [1_usize, 2, 17, 500, 999] {
        for low in [1_u16, 2, 3_333, 9_999] {
            for high in [1_u16, 5_000, 9_999, 10_000] {
                if low <= high {
                    let low_floor = retained_floor(baseline, low).expect("low");
                    let high_floor = retained_floor(baseline, high).expect("high");
                    assert!(low_floor <= high_floor);
                }
            }
        }
    }
}

#[test]
fn readiness_durable_replay_checkpoint_and_sync_failure_are_fail_closed() {
    let commands = commands_for(&candidate());
    let recovery = ReadinessRecovery {
        readiness: ProductionChangeReadiness::new(policy()).expect("owner"),
        last_sequence: None,
    };
    let mut durable = DurableProductionReadiness::new(None, recovery).expect("durable");
    let mut journal: Vec<ReadinessCommand> = Vec::new();
    for command in &commands {
        let prepared = durable.prepare(command).expect("prepare");
        assert_eq!(prepared.sequence as usize, journal.len());
        journal.push(command.clone());
        durable.append_answered(prepared.sequence, Ok(())).expect("append");
        durable.install(command).expect("command");
    }
    let expected = durable.readiness().snapshot().digest;
    let checkpoint = ReadinessCheckpoint {
        sequence: u64::try_from(commands.len() - 1).expect("sequence"),
        readiness_digest: expected,
    };
    assert_eq!(ReadinessCheckpoint::decode(&checkpoint.encode()), Ok(checkpoint));
    let mut replay = ReadinessReplay::start(policy(), Some(checkpoint)).expect("start");
    for (sequence, command) in journal.iter().enumerate() {
        let at = command.recorded_at_ns();
        replay.step(sequence as u64, true, at, at, command).expect("replay");
    }
    let recovered = replay.finish().expect("recover");
    assert_eq!(recovered.readiness.snapshot().digest, expected);

    let recovery = ReadinessRecovery {
        readiness: ProductionChangeReadiness::new(policy()).expect("owner"),
        last_sequence: None,
    };
    let mut failing = DurableProductionReadiness::new(None, recovery).expect("owner");
    let prepared = failing.prepare(&commands[0]).expect("prepare");
    assert_eq!(
        failing.append_answered(prepared.sequence, Err("disk full".to_owned())),
        Err(ReadinessStorageError::Journal("disk full".to_owned()))
    );
    assert_eq!(failing.last_sequence(), None);
    assert!(matches!(failing.prepare(&commands[0]), Err(ReadinessStorageError::Halted(_))));
    assert!(matches!(failing.sync(), Err(ReadinessStorageError::Halted(_))));
    assert_eq!(failing.readiness().snapshot().accepted_commands, 0);
}

#[test]
fn readiness_replay_refuses_foreign_envelopes_and_events_after_a_halt() {
    let commands = commands_for(&candidate());
    let at = commands[0].recorded_at_ns();
    let mut foreign = ReadinessReplay::start(policy(), None).expect("start");
    assert_eq!(foreign.step(0, false, at, at, &commands[0]), Err(ReadinessStorageError::EnvelopeIdentity));
    let mut skewed = ReadinessReplay::start(policy(), None).expect("start");
    assert_eq!(skewed.step(0, true, at, at + 1, &commands[0]), Err(ReadinessStorageError::EnvelopeTimestamp));
    let recovery = ReadinessRecovery {
        readiness: ProductionChangeReadiness::new(policy()).expect("owner"),
        last_sequence: Some(4),
    };
    assert!(matches!(DurableProductionReadiness::new(None, recovery), Err(ReadinessStorageError::RecoveryMismatch)));
}
