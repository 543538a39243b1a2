//! Offline production-change readiness: campaign evidence, regression floors,
//! three-role operator sign-off and a non-authorizing readiness record.

pub mod types;
pub mod seal;
pub mod validate;
pub mod evaluate;
pub mod engine;
pub mod record;
pub mod durable;
