//! The paper execution engine: idempotent per command id, clock-checked, and
//! absorbing once an integrity failure has halted it.

pub mod types;
pub mod engine;
pub mod durable;
