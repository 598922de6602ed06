//! The record of a pool and the identifiers it holds.

pub mod address;
pub mod pool_state;
