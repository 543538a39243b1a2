//! Bounded, versioned and digest-sealed records of a paper-trading campaign.

use vstd::prelude::*;
use crate::digest::{blake3_digest, blake3_hash, digest_eq, utf8_bytes};

verus! {

pub const SCHEMA_VERSION: u16 = 1;
pub const MAX_RECORD_BYTES: usize = 1048576;
pub const MAX_ID_BYTES: usize = 512;
pub const MAX_TEXT_BYTES: usize = 4096;

#[derive(Clone, Copy, Debug, PartialEq, Eq, Structural)]
pub enum RecordKind {
    Market,
    Reference,
    Decision,
    Execution,
    Ledger,
    Health,
    Checkpoint,
    Resolution,
    Operator,
}

#[derive(Clone, Copy, Debug, PartialEq, Eq, Structural)]
pub struct BookLevel {
    pub price_micros: i64,
    pub quantity_micros: i64,
}

#[derive(Clone, Debug, PartialEq, Eq)]
pub struct MarketRecord {
    pub venue: String,
    pub market_id: String,
    pub asset: String,
    pub sequence: u64,
    pub bids: Vec<BookLevel>,
    pub asks: Vec<BookLevel>,
    pub target_price_micros: Option<i64>,
    pub source_payload_digest: [u8; 32],
}

#[derive(Clone, Debug, PartialEq, Eq)]
pub struct ReferenceRecord {
    pub venue: String,
    pub symbol: String,
    pub sequence: u64,
    pub price_micros: i64,
    pub bid_micros: Option<i64>,
    pub ask_micros: Option<i64>,
    pub source_payload_digest: [u8; 32],
}

#[derive(Clone, Debug, PartialEq, Eq)]
pub struct DecisionRecord {
    pub decision_id: [u8; 32],
    pub market_id: String,
    pub action: String,
    pub reason: String,
    pub no_trade: bool,
    pub expected_edge_micros: i64,
    pub risk_floor_micros: i64,
    pub model_digest: [u8; 32],
}

#[derive(Clone, Debug, PartialEq, Eq)]
pub struct ExecutionRecord {
    pub order_id: [u8; 32],
    pub market_id: String,
    pub state: String,
    pub side: String,
    pub requested_quantity_micros: i64,
    pub matched_quantity_micros: i64,
    pub price_micros: i64,
    pub fee_micros: i64,
    pub exchange_event_digest: [u8; 32],
}

#[derive(Clone, Copy, Debug, PartialEq, Eq)]
pub struct LedgerRecord {
    pub command_id: [u8; 32],
    pub cash_micros: i64,
    pub reserved_micros: i64,
    pub up_inventory_micros: i64,
    pub down_inventory_micros: i64,
    pub realized_pnl_micros: i64,
    pub locked_pnl_micros: i64,
    pub unrealized_pnl_micros: i64,
    pub ledger_digest: [u8; 32],
}

#[derive(Clone, Debug, PartialEq, Eq)]
pub struct HealthRecord {
    pub component: String,
    pub state: String,
    pub observed_latency_ns: u64,
    pub age_ns: u64,
    pub input_sequence: Option<u64>,
    pub detail: String,
}

#[derive(Clone, Copy, Debug, PartialEq, Eq)]
pub struct CheckpointRecord {
    pub last_sequence: u64,
    pub state_digest: [u8; 32],
    pub journal_digest: [u8; 32],
    pub record_count: u64,
}

#[derive(Clone, Debug, PartialEq, Eq)]
pub struct ResolutionRecord {
    pub market_id: String,
    pub outcome: String,
    pub resolved_at_ns: i64,
    pub rules_digest: [u8; 32],
    pub payout_up_micros: i64,
    pub payout_down_micros: i64,
}

#[derive(Clone, Debug, PartialEq, Eq)]
pub struct OperatorRecord {
    pub operator: String,
    pub action: String,
    pub detail: String,
}

/// One campaign input, decision or projection.
#[derive(Clone, Debug, PartialEq, Eq)]
pub enum CampaignRecord {
    Market(MarketRecord),
    Reference(ReferenceRecord),
    Decision(DecisionRecord),
    Execution(ExecutionRecord),
    Ledger(LedgerRecord),
    Health(HealthRecord),
    Checkpoint(CheckpointRecord),
    Resolution(ResolutionRecord),
    Operator(OperatorRecord),
}

/// One record of a campaign stream, sealed by the digest of its payload.
#[derive(Clone, Debug, PartialEq, Eq)]
pub struct RecordEnvelope {
    pub schema_version: u16,
    pub campaign_id: String,
    pub stream: String,
    pub sequence: u64,
    pub event_time_ns: i64,
    pub recorded_time_ns: i64,
    pub record: CampaignRecord,
    pub record_digest: [u8; 32],
}

#[derive(Clone, Debug, PartialEq, Eq)]
pub enum RecordError {
    FieldTooLarge,
    Timestamp,
    Numeric,
    TooLarge,
    Json(String),
    Version(u16),
    Digest,
    Envelope(String),
}

impl CampaignRecord {
    pub open spec fn kind_of(&self) -> RecordKind {
        match self {
            CampaignRecord::Market(_) => RecordKind::Market,
            CampaignRecord::Reference(_) => RecordKind::Reference,
            CampaignRecord::Decision(_) => RecordKind::Decision,
            CampaignRecord::Execution(_) => RecordKind::Execution,
            CampaignRecord::Ledger(_) => RecordKind::Ledger,
            CampaignRecord::Health(_) => RecordKind::Health,
            CampaignRecord::Checkpoint(_) => RecordKind::Checkpoint,
            CampaignRecord::Resolution(_) => RecordKind::Resolution,
            CampaignRecord::Operator(_) => RecordKind::Operator,
        }
    }

    /// The kind of this record.
    pub fn kind(&self) -> (k: RecordKind)
        ensures
            k == self.kind_of(),
    {
        match self {
            CampaignRecord::Market(_) => RecordKind::Market,
            CampaignRecord::Reference(_) => RecordKind::Reference,
            CampaignRecord::Decision(_) => RecordKind::Decision,
            CampaignRecord::Execution(_) => RecordKind::Execution,
            CampaignRecord::Ledger(_) => RecordKind::Ledger,
            CampaignRecord::Health(_) => RecordKind::Health,
            CampaignRecord::Checkpoint(_) => RecordKind::Checkpoint,
            CampaignRecord::Resolution(_) => RecordKind::Resolution,
            CampaignRecord::Operator(_) => RecordKind::Operator,
        }
    }
}

/// A present text of at most `MAX_TEXT_BYTES` UTF-8 bytes.
pub open spec fn bounded_spec(s: String) -> bool {
    s@.len() > 0 && (utf8_bytes(&s).len() as usize) <= MAX_TEXT_BYTES
}

pub fn bounded(s: &String) -> (r: bool)
    ensures
        r == bounded_spec(*s),
{
    let st = s.as_str();
    !st.is_empty() && st.len() <= MAX_TEXT_BYTES
}

/// A present identifier of at most `MAX_ID_BYTES` UTF-8 bytes.
pub open spec fn id_spec(s: String) -> bool {
    s@.len() > 0 && (utf8_bytes(&s).len() as usize) <= MAX_ID_BYTES
}

fn valid_id(s: &String) -> (r: bool)
    ensures
        r == id_spec(*s),
{
    let st = s.as_str();
    !st.is_empty() && st.len() <= MAX_ID_BYTES
}

pub fn non_negative(value: i64) -> (r: bool)
    ensures
        r == (value >= 0),
{
    value >= 0
}

/// An absent or non-negative value.
pub open spec fn absent_or_non_negative(v: Option<i64>) -> bool {
    v matches Some(x) ==> x >= 0
}

/// Every price and quantity of a book side is non-negative.
pub open spec fn levels_valid(levels: Seq<BookLevel>) -> bool {
    forall|i: int| 0 <= i < levels.len() ==> (#[trigger] levels[i]).price_micros >= 0 && levels[i].quantity_micros >= 0
}

fn valid_levels(levels: &Vec<BookLevel>) -> (r: bool)
    ensures
        r == levels_valid(levels@),
{
    let mut i: usize = 0;
    while i < levels.len()
        invariant
            i <= levels@.len(),
            forall|k: int| 0 <= k < i ==> (#[trigger] levels@[k]).price_micros >= 0 && levels@[k].quantity_micros >= 0,
        decreases levels@.len() - i,
    {
        if !non_negative(levels[i].price_micros) || !non_negative(levels[i].quantity_micros) {
            return false;
        }
        i = i + 1;
    }
    true
}

/// The texts of a record are present and bounded and its amounts non-negative.
pub open spec fn record_valid(r: CampaignRecord) -> bool {
    match r {
        CampaignRecord::Market(v) => bounded_spec(v.venue) && bounded_spec(v.market_id) && bounded_spec(v.asset)
            && levels_valid(v.bids@) && levels_valid(v.asks@) && absent_or_non_negative(v.target_price_micros),
        CampaignRecord::Reference(v) => bounded_spec(v.venue) && bounded_spec(v.symbol) && v.price_micros >= 0
            && absent_or_non_negative(v.bid_micros) && absent_or_non_negative(v.ask_micros),
        CampaignRecord::Decision(v) => bounded_spec(v.market_id) && bounded_spec(v.action) && bounded_spec(v.reason),
        CampaignRecord::Execution(v) => bounded_spec(v.market_id) && bounded_spec(v.state) && bounded_spec(v.side)
            && v.requested_quantity_micros >= 0 && v.matched_quantity_micros >= 0 && v.price_micros >= 0 && v.fee_micros >= 0,
        CampaignRecord::Ledger(v) => v.cash_micros >= 0 && v.reserved_micros >= 0 && v.up_inventory_micros >= 0
            && v.down_inventory_micros >= 0,
        CampaignRecord::Health(v) => bounded_spec(v.component) && bounded_spec(v.state) && bounded_spec(v.detail),
        CampaignRecord::Checkpoint(_) => true,
        CampaignRecord::Resolution(v) => bounded_spec(v.market_id) && bounded_spec(v.outcome) && v.resolved_at_ns >= 0
            && v.payout_up_micros >= 0 && v.payout_down_micros >= 0,
        CampaignRecord::Operator(v) => bounded_spec(v.operator) && bounded_spec(v.action) && bounded_spec(v.detail),
    }
}

fn absent_or_valid(v: Option<i64>) -> (r: bool)
    ensures
        r == absent_or_non_negative(v),
{
    match v {
        Some(x) => non_negative(x),
        None => true,
    }
}

/// Checks the fields of a record.
pub fn validate_record(record: &CampaignRecord) -> (r: Result<(), RecordError>)
    ensures
        r is Ok <==> record_valid(*record),
        r is Err ==> r == Err::<(), RecordError>(RecordError::Numeric),
{
    let valid = match record {
        CampaignRecord::Market(v) => bounded(&v.venue) && bounded(&v.market_id) && bounded(&v.asset) && valid_levels(&v.bids)
            && valid_levels(&v.asks) && absent_or_valid(v.target_price_micros),
        CampaignRecord::Reference(v) => bounded(&v.venue) && bounded(&v.symbol) && non_negative(v.price_micros)
            && absent_or_valid(v.bid_micros) && absent_or_valid(v.ask_micros),
        CampaignRecord::Decision(v) => bounded(&v.market_id) && bounded(&v.action) && bounded(&v.reason),
        CampaignRecord::Execution(v) => bounded(&v.market_id) && bounded(&v.state) && bounded(&v.side)
            && non_negative(v.requested_quantity_micros) && non_negative(v.matched_quantity_micros)
            && non_negative(v.price_micros) && non_negative(v.fee_micros),
        CampaignRecord::Ledger(v) => non_negative(v.cash_micros) && non_negative(v.reserved_micros)
            && non_negative(v.up_inventory_micros) && non_negative(v.down_inventory_micros),
        CampaignRecord::Health(v) => bounded(&v.component) && bounded(&v.state) && bounded(&v.detail),
        CampaignRecord::Checkpoint(_) => true,
        CampaignRecord::Resolution(v) => bounded(&v.market_id) && bounded(&v.outcome) && v.resolved_at_ns >= 0
            && non_negative(v.payout_up_micros) && non_negative(v.payout_down_micros),
        CampaignRecord::Operator(v) => bounded(&v.operator) && bounded(&v.action) && bounded(&v.detail),
    };
    if valid {
        Ok(())
    } else {
        Err(RecordError::Numeric)
    }
}

/// The payload digest of a record: BLAKE3 over `record_json`, the record's
/// JSON text as the caller serialized it.
pub open spec fn payload_digest_spec(record_json: Seq<u8>) -> Seq<u8> {
    blake3_hash(record_json)
}

/// A consistent envelope whose record serializes to `record_json`: supported
/// version, a JSON text within the bound, a digest of that text, ordered
/// timestamps, bounded identifiers and a valid record.
pub open spec fn envelope_valid(e: RecordEnvelope, record_json: Seq<u8>) -> bool {
    &&& e.schema_version == SCHEMA_VERSION
    &&& record_json.len() <= MAX_RECORD_BYTES
    &&& e.record_digest@ == payload_digest_spec(record_json)
    &&& e.event_time_ns >= 0 && e.recorded_time_ns >= e.event_time_ns
    &&& id_spec(e.campaign_id) && id_spec(e.stream)
    &&& record_valid(e.record)
}

fn payload_digest(record_json: &[u8]) -> (r: Result<[u8; 32], RecordError>)
    ensures
        match r {
            Ok(d) => record_json@.len() <= MAX_RECORD_BYTES && d@ == payload_digest_spec(record_json@),
            Err(e) => e == RecordError::TooLarge && record_json@.len() > MAX_RECORD_BYTES,
        },
{
    if record_json.len() > MAX_RECORD_BYTES {
        return Err(RecordError::TooLarge);
    }
    Ok(blake3_digest(record_json))
}

impl RecordEnvelope {
    /// Creates a bounded, digest-sealed campaign record. `record_json` is the
    /// JSON text of `record`, which the caller serializes; the size bound and
    /// the digest are taken over it.
    pub fn new(
        campaign_id: String,
        stream: String,
        sequence: u64,
        event_time_ns: i64,
        recorded_time_ns: i64,
        record: CampaignRecord,
        record_json: &[u8],
    ) -> (r: Result<Self, RecordError>)
        ensures
            match r {
                Ok(e) => {
                    &&& e.campaign_id == campaign_id && e.stream == stream && e.sequence == sequence
                    &&& e.event_time_ns == event_time_ns && e.recorded_time_ns == recorded_time_ns && e.record == record
                    &&& envelope_valid(e, record_json@)
                },
                Err(err) => if !id_spec(campaign_id) || !id_spec(stream) {
                    err == RecordError::FieldTooLarge
                } else if event_time_ns < 0 || recorded_time_ns < event_time_ns {
                    err == RecordError::Timestamp
                } else if !record_valid(record) {
                    err == RecordError::Numeric
                } else {
                    err == RecordError::TooLarge && record_json@.len() > MAX_RECORD_BYTES
                },
            },
    {
        if !valid_id(&campaign_id) || !valid_id(&stream) {
            return Err(RecordError::FieldTooLarge);
        }
        if event_time_ns < 0 || recorded_time_ns < event_time_ns {
            return Err(RecordError::Timestamp);
        }
        match validate_record(&record) {
            Ok(_) => {},
            Err(e) => {
                return Err(e);
            },
        }
        let digest = match payload_digest(record_json) {
            Ok(d) => d,
            Err(e) => {
                return Err(e);
            },
        };
        Ok(RecordEnvelope {
            schema_version: SCHEMA_VERSION,
            campaign_id,
            stream,
            sequence,
            event_time_ns,
            recorded_time_ns,
            record,
            record_digest: digest,
        })
    }

    /// The checks before an envelope is written, with `record_json` the JSON
    /// text of its record: version, size, then payload digest.
    pub fn check_sealed(&self, record_json: &[u8]) -> (r: Result<(), RecordError>)
        ensures
            match r {
                Ok(_) => self.schema_version == SCHEMA_VERSION && record_json@.len() <= MAX_RECORD_BYTES
                    && self.record_digest@ == payload_digest_spec(record_json@),
                Err(e) => if self.schema_version != SCHEMA_VERSION {
                    e == RecordError::Version(self.schema_version)
                } else if record_json@.len() > MAX_RECORD_BYTES {
                    e == RecordError::TooLarge
                } else {
                    e == RecordError::Digest && self.record_digest@ != payload_digest_spec(record_json@)
                },
            },
    {
        if self.schema_version != SCHEMA_VERSION {
            return Err(RecordError::Version(self.schema_version));
        }
        let digest = match payload_digest(record_json) {
            Ok(d) => d,
            Err(e) => {
                return Err(e);
            },
        };
        if !digest_eq(&digest, &self.record_digest) {
            return Err(RecordError::Digest);
        }
        Ok(())
    }

    /// The checks on a decoded envelope whose record's JSON text is
    /// `record_json`, in order: version, size and payload digest,
    /// timestamps, identifiers, then the record.
    pub fn validate(&self, record_json: &[u8]) -> (r: Result<(), RecordError>)
        ensures
            r is Ok <==> envelope_valid(*self, record_json@),
            match r {
                Ok(_) => true,
                Err(e) => if self.schema_version != SCHEMA_VERSION {
                    e == RecordError::Version(self.schema_version)
                } else if record_json@.len() > MAX_RECORD_BYTES {
                    e == RecordError::TooLarge
                } else if self.record_digest@ != payload_digest_spec(record_json@) {
                    e == RecordError::Digest
                } else if self.event_time_ns < 0 || self.recorded_time_ns < self.event_time_ns {
                    e == RecordError::Timestamp
                } else if !id_spec(self.campaign_id) || !id_spec(self.stream) {
                    e == RecordError::FieldTooLarge
                } else {
                    e == RecordError::Numeric
                },
            },
    {
        match self.check_sealed(record_json) {
            Ok(_) => {},
            Err(e) => {
                return Err(e);
            },
        }
        if self.event_time_ns < 0 || self.recorded_time_ns < self.event_time_ns {
            return Err(RecordError::Timestamp);
        }
        if !valid_id(&self.campaign_id) || !valid_id(&self.stream) {
            return Err(RecordError::FieldTooLarge);
        }
        validate_record(&self.record)
    }
}

/// An envelope created by `new` passes every check of `validate`: what is
/// written can be read back.
pub proof fn law_new_envelope_validates(e: RecordEnvelope, record_json: Seq<u8>)
    requires
        envelope_valid(e, record_json),
    ensures
        e.schema_version == SCHEMA_VERSION,
        record_json.len() <= MAX_RECORD_BYTES,
        e.record_digest@ == payload_digest_spec(record_json),
        record_valid(e.record),
{
}

} // verus!
