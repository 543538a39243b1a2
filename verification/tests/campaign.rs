use paper_trading_core::campaign::{
    BookLevel, CampaignRecord, HealthRecord, MarketRecord, OperatorRecord, RecordEnvelope, RecordError, RecordKind,
    MAX_RECORD_BYTES,
};

const HEALTH_JSON: &[u8] = br#"{"kind":"health","data":{"component":"feed","state":"healthy","observed_latency_ns":10,"age_ns":20,"input_sequence":4,"detail":"ok"}}"#;
const OPERATOR_JSON: &[u8] = br#"{"kind":"operator","data":{"operator":"sim","action":"start","detail":"paper"}}"#;

fn health() -> CampaignRecord {
    CampaignRecord::Health(HealthRecord {
        component: "feed".into(),
        state: "healthy".into(),
        observed_latency_ns: 10,
        age_ns: 20,
        input_sequence: Some(4),
        detail: "ok".into(),
    })
}

fn operator() -> CampaignRecord {
    CampaignRecord::Operator(OperatorRecord { operator: "sim".into(), action: "start".into(), detail: "paper".into() })
}

#[test]
fn sealing_the_same_record_twice_gives_the_same_envelope() {
    let envelope = RecordEnvelope::new("week-1".into(), "health".into(), 4, 100, 110, health(), HEALTH_JSON).unwrap();
    assert_eq!(envelope.validate(HEALTH_JSON), Ok(()));
    assert_eq!(envelope.check_sealed(HEALTH_JSON), Ok(()));
    assert_eq!(envelope.sequence, 4);
    assert_eq!(envelope.record.kind(), RecordKind::Health);
    let again = RecordEnvelope::new("week-1".into(), "health".into(), 4, 100, 110, health(), HEALTH_JSON).unwrap();
    assert_eq!(again, envelope);
}

#[test]
fn rejects_tampering_and_clock_regression() {
    assert_eq!(RecordEnvelope::new("x".into(), "audit".into(), 0, 2, 1, operator(), OPERATOR_JSON).unwrap_err(), RecordError::Timestamp);
    let mut envelope = RecordEnvelope::new("x".into(), "audit".into(), 0, 2, 2, operator(), OPERATOR_JSON).unwrap();
    envelope.record_digest = [9; 32];
    assert_eq!(envelope.validate(OPERATOR_JSON).unwrap_err(), RecordError::Digest);
    assert_eq!(envelope.check_sealed(OPERATOR_JSON).unwrap_err(), RecordError::Digest);
}

#[test]
fn oversized_identifiers_and_negative_times_are_refused() {
    assert_eq!(RecordEnvelope::new(String::new(), "audit".into(), 0, 2, 2, operator(), OPERATOR_JSON).unwrap_err(), RecordError::FieldTooLarge);
    assert_eq!(RecordEnvelope::new("x".repeat(513), "audit".into(), 0, 2, 2, operator(), OPERATOR_JSON).unwrap_err(), RecordError::FieldTooLarge);
    assert_eq!(RecordEnvelope::new("x".into(), "audit".into(), 0, -1, 2, operator(), OPERATOR_JSON).unwrap_err(), RecordError::Timestamp);
    let mut envelope = RecordEnvelope::new("x".into(), "audit".into(), 0, 2, 2, operator(), OPERATOR_JSON).unwrap();
    envelope.schema_version = 2;
    assert_eq!(envelope.validate(OPERATOR_JSON).unwrap_err(), RecordError::Version(2));
}

#[test]
fn the_record_digest_is_the_blake3_digest_of_the_record_json() {
    let envelope = RecordEnvelope::new("week-1".into(), "health".into(), 4, 100, 110, health(), HEALTH_JSON).unwrap();
    assert_eq!(envelope.record_digest, *blake3::hash(HEALTH_JSON).as_bytes());
    assert_eq!(envelope.validate(OPERATOR_JSON).unwrap_err(), RecordError::Digest);
}

#[test]
fn a_record_whose_json_exceeds_the_bound_is_too_large() {
    let level = BookLevel { price_micros: 1, quantity_micros: 1 };
    let record = CampaignRecord::Market(MarketRecord {
        venue: "paper".into(),
        market_id: "btc".into(),
        asset: "btc".into(),
        sequence: 1,
        bids: vec![level; 4],
        asks: vec![level; 4],
        target_price_micros: None,
        source_payload_digest: [0; 32],
    });
    let oversized = vec![b' '; MAX_RECORD_BYTES + 1];
    assert_eq!(
        RecordEnvelope::new("x".into(), "market".into(), 0, 2, 2, record.clone(), &oversized).unwrap_err(),
        RecordError::TooLarge
    );
    let at_bound = vec![b' '; MAX_RECORD_BYTES];
    let envelope = RecordEnvelope::new("x".into(), "market".into(), 0, 2, 2, record, &at_bound).unwrap();
    assert_eq!(envelope.validate(&at_bound), Ok(()));
    assert_eq!(envelope.check_sealed(&oversized).unwrap_err(), RecordError::TooLarge);
}
