//! Metrics instrumentation core: a registry of named metrics, the snapshot
//! values they export, and the decisions of a line-oriented push reporter and a
//! request-driven pull reporter.

pub mod carbon;
pub mod format;
pub mod metric;
pub mod prometheus;
pub mod registry;
pub mod reporter;
