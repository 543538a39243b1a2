//! The stored canary-eligibility record file: the record's serialized body in one
//! checksummed frame, written only for a record whose digest checks out.

use vstd::prelude::*;
use crate::record_file::{frame_record, record_frame, unframe_record, unframe_spec, RecordFrameError};
use super::seal::canary_record_digest_spec;
use super::types::CanaryEligibilityRecord;

verus! {

/// Magic bytes `POLYPGR1` of a canary-eligibility record file.
pub const RECORD_MAGIC: [u8; 8] = [80, 79, 76, 89, 80, 71, 82, 49];

/// Largest record body accepted.
pub const MAX_BODY_BYTES: usize = 4194304;

#[derive(Clone, Debug, PartialEq, Eq)]
pub enum CanaryRecordFileError {
    Io(String),
    Json(String),
    Length,
    Version(u16),
    Reserved,
    Checksum,
    NonCanonical,
    RecordDigest,
}

/// The file error a frame error stands for.
pub open spec fn file_error(e: RecordFrameError) -> CanaryRecordFileError {
    match e {
        RecordFrameError::Length => CanaryRecordFileError::Length,
        RecordFrameError::Version(v) => CanaryRecordFileError::Version(v),
        RecordFrameError::Reserved => CanaryRecordFileError::Reserved,
        RecordFrameError::Checksum => CanaryRecordFileError::Checksum,
    }
}

fn map_frame_error(e: RecordFrameError) -> (r: CanaryRecordFileError)
    ensures
        r == file_error(e),
{
    match e {
        RecordFrameError::Length => CanaryRecordFileError::Length,
        RecordFrameError::Version(v) => CanaryRecordFileError::Version(v),
        RecordFrameError::Reserved => CanaryRecordFileError::Reserved,
        RecordFrameError::Checksum => CanaryRecordFileError::Checksum,
    }
}

/// The bytes of the file holding `record`, whose serialized form is `body`:
/// refused for a record whose digest does not check out or an oversized body.
pub fn record_file_bytes(record: &CanaryEligibilityRecord, body: &[u8]) -> (r: Result<Vec<u8>, CanaryRecordFileError>)
    ensures
        match r {
            Ok(b) => record.record_digest@ == canary_record_digest_spec(*record) && body@.len() <= MAX_BODY_BYTES
                && b@ == record_frame(RECORD_MAGIC@, body@),
            Err(e) => if record.record_digest@ != canary_record_digest_spec(*record) {
                e == CanaryRecordFileError::RecordDigest
            } else {
                e == CanaryRecordFileError::Length && body@.len() > MAX_BODY_BYTES
            },
        },
{
    if !record.verify_digest() {
        return Err(CanaryRecordFileError::RecordDigest);
    }
    match frame_record(&RECORD_MAGIC, MAX_BODY_BYTES, body) {
        Ok(b) => Ok(b),
        Err(e) => Err(map_frame_error(e)),
    }
}

/// The serialized body a record file holds, once its frame checks out.
pub fn record_file_body(bytes: &[u8]) -> (r: Result<Vec<u8>, CanaryRecordFileError>)
    ensures
        match unframe_spec(RECORD_MAGIC@, MAX_BODY_BYTES as nat, bytes@) {
            Ok(b) => r matches Ok(x) && x@ == b,
            Err(e) => r == Err::<Vec<u8>, CanaryRecordFileError>(file_error(e)),
        },
{
    match unframe_record(&RECORD_MAGIC, MAX_BODY_BYTES, bytes) {
        Ok(b) => Ok(b),
        Err(e) => Err(map_frame_error(e)),
    }
}

/// Accepts a record read back from a file only if its digest checks out.
pub fn check_record(record: &CanaryEligibilityRecord) -> (r: Result<(), CanaryRecordFileError>)
    ensures
        r is Ok <==> record.record_digest@ == canary_record_digest_spec(*record),
        r is Err ==> r == Err::<(), CanaryRecordFileError>(CanaryRecordFileError::RecordDigest),
{
    if record.verify_digest() {
        Ok(())
    } else {
        Err(CanaryRecordFileError::RecordDigest)
    }
}
} // verus!
