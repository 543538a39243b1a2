//! Permissions for the two legs of a staged pair.

pub mod rules;
pub mod types;
pub mod book;
