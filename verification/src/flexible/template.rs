//! The flexible plan template as stored: `{ task, inputs, steps, output_schema }`.
//!
//! Parsing the stored JSON text into these types is done by the host (serde).

use vstd::prelude::*;

use crate::flexible::params::ParamValue;
use crate::json::JsonValue;

verus! {

/// A flexible plan template.
#[derive(Debug, PartialEq)]
pub struct FlexiblePlanTemplate {
    /// Task description.
    pub task: String,
    /// Parameter definitions (absent means none).
    pub inputs: Vec<PlanInput>,
    /// Step skeleton (variable values written as `${name}`).
    pub steps: Vec<PlanStep>,
    /// Output contract; `None` when the output step was skipped or left open.
    pub output_schema: Option<JsonValue>,
}

/// One parameter definition (an `inputs[]` item).
#[derive(Debug, Clone, PartialEq)]
pub struct PlanInput {
    /// Parameter name (the `name` of `${name}`).
    pub name: String,
    /// Default value (absent means the caller must supply one).
    pub default: Option<ParamValue>,
    /// Description.
    pub description: Option<String>,
}

/// One step (a `steps[]` item).
#[derive(Debug, Clone, PartialEq)]
pub struct PlanStep {
    /// Result reference such as `#E1` (unique within the plan).
    pub result_reference: String,
    /// Sub-goal, possibly holding `${name}` placeholders.
    pub intent: String,
    /// Verifiable outcome ("what counts as done").
    pub expected_output: String,
    /// Result references of the earlier steps it depends on.
    pub dependencies: Vec<String>,
}

} // verus!
