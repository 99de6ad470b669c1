//! The chat service's logic: its message model and history, the tool-call
//! trace, tool selection, user actions, and the decisions of the chat rounds
//! and of the driver, and of sub-agent result chains.

pub mod message;
pub mod trace;
pub mod tools;
pub mod history;
pub mod sub_agent;
pub mod ui_action;
pub mod stream;
pub mod round;
pub mod service;
pub mod driver;
