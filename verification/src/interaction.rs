//! The verb handlers: pull, hold, drop and throw, plus the idle reset.

pub mod drop;
pub mod hold;
pub mod pull;
pub mod throw;
