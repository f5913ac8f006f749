//! Core of a GitHub line-count tool: the repository-listing fold, the
//! per-repository retry state machine for the asynchronous contributor
//! statistics endpoint, and the deterministic aggregation of the results.
pub mod aggregate;
pub mod fetch;
pub mod listing;
pub mod reconcile;
pub mod sums;
pub mod text;
pub mod types;
