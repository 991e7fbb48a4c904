//! Incremental discovery of AMM factories from a block-ordered event log,
//! with a resumable checkpoint of per-factory child counts.

pub mod discovery;
pub mod factory;
pub mod storage;
pub mod types;
