//! A verified core for picking one work item from remote issue trackers.
//!
//! The pipeline: fetch outcomes from independently configured sources are
//! merged under one deterministic total order, a background progress
//! indicator runs until it is cancelled exactly once, the ordered list is
//! offered for a single choice, and the chosen key is persisted as the
//! content of a local state file.
//!
//! Network, terminal, and file system sit outside this crate; the library
//! holds the data model, the ordering, the merge, the cancellation logic,
//! and the exact strings that cross those edges.

pub mod aggregate;
pub mod jira;
pub mod persist;
pub mod response;
pub mod select;
pub mod spinner;
pub mod task;
