//! The run service of flexible plans: snapshots of each session's run, the
//! folding of progress events into them, and the service's own decisions.

pub mod types;
pub mod state;
pub mod control;
pub mod store;
