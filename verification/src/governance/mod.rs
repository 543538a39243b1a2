//! Offline promotion governance: evidence aggregation, dual operator control
//! and a non-authorizing canary-eligibility record.

pub mod types;
pub mod seal;
pub mod submission;
pub mod validate;
pub mod aggregate;
pub mod engine;
pub mod evidence;
pub mod durable;
