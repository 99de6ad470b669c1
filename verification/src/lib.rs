//! Plan-and-execute agent core: placeholder templates, output contracts,
//! run reports, run snapshots and the decision logic of the chat and
//! flexible-plan executors.

pub mod flexible;
pub mod json;
pub mod named_map;
pub mod text;
pub mod chat;
pub mod agents;
pub mod doc_round_trip;
pub mod config;
pub mod cli;
