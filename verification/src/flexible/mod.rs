//! Flexible plans: `${name}` templates, output contracts, prompts, run
//! reports, parameters and the step / plan executors' decision logic.

pub mod placeholder;
pub mod output_schema;
pub mod event;
pub mod params;
pub mod prompt;
pub mod report;
pub mod template;
pub mod run_service;
pub mod step;
pub mod executor;
