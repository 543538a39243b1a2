//! Verified decision logic for a paper-trading evidence pipeline: scenario
//! risk evaluation, governance and readiness evidence owners, checkpoint
//! framing, campaign records and dataset chronology.

pub mod campaign;
pub mod checkpoint;
pub mod dataset;
pub mod digest;
pub mod execution;
pub mod execution_engine;
pub mod governance;
pub mod order;
pub mod paired_policy;
pub mod paired_execution;
pub mod paired_runtime;
pub mod paired_settlement;
pub mod pipeline;
pub mod readiness;
pub mod record_file;
pub mod risk;
