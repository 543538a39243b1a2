//! Scenario-based portfolio risk and capital-floor authority.

pub mod arith;
pub mod engine;
pub mod evaluate;
pub mod frame;
pub mod prepare;
pub mod scenario;
pub mod types;
pub mod durable;
