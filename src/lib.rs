//! Per-client ledgers driven by a stream of accounting operations.
pub mod models;
pub mod processor;
pub mod records;
