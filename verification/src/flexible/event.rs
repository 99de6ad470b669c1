//! Progress events: the executor's only progress channel.
//!
//! A host implements [`PlanRunSink`] and maps events onto its own display.

use vstd::prelude::*;

use crate::flexible::report::{PlanRunReport, PlanRunReportView, StepRunRecord, StepRunRecordView};

verus! {

/// A progress event of a run.
#[allow(inconsistent_fields)]
#[derive(Debug, Clone)]
pub enum PlanRunEvent {
    /// The run started.
    RunStarted { total_steps: usize },
    /// A step started (`intent` with placeholders expanded).
    StepStarted { index: usize, intent: String },
    /// Thinking text of one round of a step.
    StepThought { index: usize, round: usize, text: String },
    /// A step called a tool.
    StepToolCall {
        index: usize,
        tool: String,
        /// Key arguments, already rendered as one line.
        args: String,
        /// Whether the tool succeeded.
        ok: bool,
    },
    /// A step finished (`record` holds its time, tokens and tool count).
    StepFinished { index: usize, record: StepRunRecord },
    /// The run finished.
    RunFinished { report: PlanRunReport },
    /// A failure (`index == None`: the run as a whole failed).
    Failed { index: Option<usize>, error: String },
}

/// Model of a progress event.
pub enum PlanRunEventView {
    RunStarted { total_steps: usize },
    StepStarted { index: usize, intent: Seq<char> },
    StepThought { index: usize, round: usize, text: Seq<char> },
    StepToolCall { index: usize, tool: Seq<char>, args: Seq<char>, ok: bool },
    StepFinished { index: usize, record: StepRunRecordView },
    RunFinished { report: PlanRunReportView },
    Failed { index: Option<usize>, error: Seq<char> },
}

impl View for PlanRunEvent {
    type V = PlanRunEventView;

    open spec fn view(&self) -> PlanRunEventView {
        match self {
            PlanRunEvent::RunStarted { total_steps } => PlanRunEventView::RunStarted {
                total_steps: *total_steps,
            },
            PlanRunEvent::StepStarted { index, intent } => PlanRunEventView::StepStarted {
                index: *index,
                intent: intent@,
            },
            PlanRunEvent::StepThought { index, round, text } => PlanRunEventView::StepThought {
                index: *index,
                round: *round,
                text: text@,
            },
            PlanRunEvent::StepToolCall { index, tool, args, ok } => PlanRunEventView::StepToolCall {
                index: *index,
                tool: tool@,
                args: args@,
                ok: *ok,
            },
            PlanRunEvent::StepFinished { index, record } => PlanRunEventView::StepFinished {
                index: *index,
                record: record@,
            },
            PlanRunEvent::RunFinished { report } => PlanRunEventView::RunFinished {
                report: report@,
            },
            PlanRunEvent::Failed { index, error } => PlanRunEventView::Failed {
                index: *index,
                error: error@,
            },
        }
    }
}

/// Receiver of progress events; the executor calls `emit` once per event.
///
/// Implementations must be thread-safe and must not block.
pub trait PlanRunSink {
    /// Receives one event.
    fn emit(&self, event: PlanRunEvent);
}

/// A sink that drops every event (tests and non-interactive use).
#[derive(Debug, Default, Clone, Copy)]
pub struct NullSink;

impl PlanRunSink for NullSink {
    fn emit(&self, event: PlanRunEvent) {
    }
}

} // verus!
