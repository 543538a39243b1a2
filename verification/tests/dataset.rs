use paper_trading_core::dataset::{
    bind_artifact, freeze_journal, journal_lines, DatasetError, DatasetPolicy, JournalLine, ModelArtifactView, ParsedLine, RawRecord,
};

fn policy() -> DatasetPolicy {
    DatasetPolicy {
        maximum_journal_bytes: 1_000_000,
        maximum_records: 100,
        train_bps: 6_000,
        validation_bps: 2_000,
        minimum_records_per_fold: 1,
        policy_digest: [0; 32],
    }
    .sealed()
}

fn hex(bytes: &[u8; 32]) -> String {
    const HEX: &[u8; 16] = b"0123456789abcdef";
    let mut output = String::with_capacity(64);
    for byte in bytes {
        output.push(char::from(HEX[usize::from(byte >> 4)]));
        output.push(char::from(HEX[usize::from(byte & 15)]));
    }
    output
}

/// The journal line of one record, as the JSON layer decodes it.
fn line(sequence: u64, time: i64) -> JournalLine {
    let payload = format!("{{\"reference\":{sequence}}}");
    let record = format!(
        "{{\"campaign_id\":\"paper-test\",\"event_time_ms\":{time},\"kind\":\"observation\",\"payload\":{payload},\"recorded_time_ms\":{time},\"schema_version\":1,\"sequence\":{sequence},\"stream\":\"market\"}}"
    );
    let digest = hex(blake3::hash(record.as_bytes()).as_bytes());
    let text = format!("{{\"record\":{record},\"record_digest\":\"{digest}\"}}");
    JournalLine {
        line: text.into_bytes(),
        parsed: Some(ParsedLine {
            record_json: record.into_bytes(),
            record_digest_hex: digest,
            raw: Some(RawRecord {
                schema_version: 1,
                campaign_id: "paper-test".to_owned(),
                stream: "market".to_owned(),
                sequence,
                event_time_ms: time,
                recorded_time_ms: time,
                kind: "observation".to_owned(),
            }),
            payload_json: payload.into_bytes(),
        }),
    }
}

fn journal(records: &[(u64, i64)]) -> Vec<JournalLine> {
    records.iter().map(|(sequence, time)| line(*sequence, *time)).collect()
}

fn bytes_of(lines: &[JournalLine]) -> usize {
    lines.iter().map(|value| value.line.len() + 1).sum()
}

fn freeze(lines: Vec<JournalLine>) -> Result<paper_trading_core::dataset::FrozenDataset, DatasetError> {
    let total = bytes_of(&lines);
    freeze_journal(&lines, total, &policy())
}

#[test]
fn freezes_disjoint_chronological_folds_and_binds_artifact() {
    let frozen = freeze(journal(&[(1, 10), (2, 10), (3, 20), (4, 30), (5, 40), (6, 50)])).unwrap();
    assert!(frozen.verify_digest());
    assert!(frozen.train.fold.end_available_time_ns <= frozen.validation.fold.start_available_time_ns);
    assert!(frozen.validation.fold.end_available_time_ns <= frozen.test.fold.start_available_time_ns);
    assert_eq!(frozen.records.len(), 6);
    assert_eq!(frozen.records[0].event_time_ns, 10_000_000);
    let artifact = ModelArtifactView {
        model_id: [1; 32],
        training_fold_digest: frozen.train.fold.data_digest,
        validation_fold_digest: frozen.validation.fold.data_digest,
        frozen_at_ns: frozen.test.fold.start_available_time_ns,
        artifact_digest: [5; 32],
        digest_valid: true,
    };
    let submission = bind_artifact(&frozen, &artifact).unwrap();
    assert!(submission.verify_digest());
    assert!(submission.paper_only);
    assert!(!submission.submission_authority);
    assert_eq!(submission.test_fold_digest, frozen.test.fold.data_digest);
}

#[test]
fn the_walk_forward_plan_is_sealed_and_checked_when_binding() {
    let frozen = freeze(journal(&[(1, 10), (2, 10), (3, 20), (4, 30), (5, 40), (6, 50)])).unwrap();
    assert!(frozen.plan.verify_digest());
    assert_eq!(frozen.plan.train, frozen.train.fold);
    assert_eq!(frozen.plan.validation, frozen.validation.fold);
    assert_eq!(frozen.plan.test, frozen.test.fold);
    let artifact = ModelArtifactView {
        model_id: [1; 32],
        training_fold_digest: frozen.train.fold.data_digest,
        validation_fold_digest: frozen.validation.fold.data_digest,
        frozen_at_ns: frozen.test.fold.start_available_time_ns,
        artifact_digest: [5; 32],
        digest_valid: true,
    };
    let mut tampered = frozen.clone();
    tampered.plan.plan_digest = [3; 32];
    assert!(!tampered.plan.verify_digest());
    assert_eq!(bind_artifact(&tampered, &artifact), Err(DatasetError::Provenance));
}

#[test]
fn corrupt_duplicate_and_mixed_campaign_records_fail_closed() {
    let mut corrupt = journal(&[(1, 10), (2, 20), (3, 30)]);
    if let Some(parsed) = corrupt[0].parsed.as_mut() {
        parsed.record_json[20] ^= 1;
    }
    assert!(matches!(freeze(corrupt), Err(DatasetError::Encoding | DatasetError::Digest)));
    assert_eq!(freeze(journal(&[(1, 10), (1, 20), (3, 30)])), Err(DatasetError::Journal));
    let mut mixed = journal(&[(1, 10), (2, 20), (3, 30)]);
    if let Some(ParsedLine { raw: Some(raw), .. }) = mixed[1].parsed.as_mut() {
        raw.campaign_id = "other".to_owned();
    }
    assert_eq!(freeze(mixed), Err(DatasetError::Journal));
    let mut unparsed = journal(&[(1, 10), (2, 20), (3, 30)]);
    unparsed[2].parsed = None;
    assert_eq!(freeze(unparsed), Err(DatasetError::Encoding));
}

#[test]
fn insufficient_availability_buckets_and_wrong_artifact_binding_fail() {
    assert_eq!(freeze(journal(&[(1, 10), (2, 10)])), Err(DatasetError::Chronology));
    let frozen = freeze(journal(&[(1, 10), (2, 20), (3, 30), (4, 40)])).unwrap();
    let artifact = ModelArtifactView {
        model_id: [1; 32],
        training_fold_digest: [9; 32],
        validation_fold_digest: frozen.validation.fold.data_digest,
        frozen_at_ns: frozen.test.fold.start_available_time_ns,
        artifact_digest: [5; 32],
        digest_valid: true,
    };
    assert_eq!(bind_artifact(&frozen, &artifact), Err(DatasetError::Provenance));
    let late = ModelArtifactView {
        training_fold_digest: frozen.train.fold.data_digest,
        frozen_at_ns: frozen.test.fold.start_available_time_ns + 1,
        ..artifact
    };
    assert_eq!(bind_artifact(&frozen, &late), Err(DatasetError::Provenance));
}

#[test]
fn oversized_journals_and_invalid_policies_are_refused() {
    let lines = journal(&[(1, 10), (2, 20), (3, 30)]);
    assert_eq!(freeze_journal(&lines, 1_000_001, &policy()), Err(DatasetError::Bounds));
    let mut unsealed = policy();
    unsealed.policy_digest = [1; 32];
    assert_eq!(freeze_journal(&lines, bytes_of(&lines), &unsealed), Err(DatasetError::Policy));
}

#[test]
fn a_journal_splits_into_its_non_empty_lines() {
    let lines = journal_lines(b"\nfirst\n\nsecond\nthird");
    assert_eq!(lines, vec![b"first".to_vec(), b"second".to_vec(), b"third".to_vec()]);
    assert!(journal_lines(b"\n\n").is_empty());
    assert_eq!(journal_lines(b"only\n"), vec![b"only".to_vec()]);
}
