//! Run report: the totals of one run, plus one record per step.
//!
//! The fields are what a host shows: execution time, tokens, tools called,
//! steps done and errors.

use vstd::prelude::*;

use crate::text::opt_text;

verus! {

/// Final status of a step.
#[derive(Debug, Clone, Copy, PartialEq, Eq, Structural)]
pub enum StepStatus {
    /// Completed normally.
    Done,
    /// Failed (tool loop error or round limit exceeded).
    Failed,
    /// Not run (an earlier step failed or the user cancelled).
    Skipped,
}

/// Token use of one LLM request (a step may make one per tool-loop round).
#[derive(Debug, Clone, Copy, PartialEq, Eq, Structural)]
pub struct CallUsage {
    /// Round number within the step (from 1).
    pub round: usize,
    pub prompt_tokens: u32,
    pub completion_tokens: u32,
}

/// Record of one step.
#[derive(Debug, Clone, PartialEq)]
pub struct StepRunRecord {
    /// Step number (from 1, as in the events).
    pub index: usize,
    /// Result reference, such as `#E1`.
    pub result_reference: String,
    /// Sub-goal (placeholders expanded).
    pub intent: String,
    /// Verifiable outcome (kept as written).
    pub expected_output: String,
    pub status: StepStatus,
    pub duration_ms: u64,
    /// Sum over the step's rounds (the sum of `call_usages`).
    pub prompt_tokens: u32,
    pub completion_tokens: u32,
    /// Number of tool calls the step made.
    pub tool_calls: usize,
    /// Tool-loop rounds (the length of `call_usages`).
    pub rounds: usize,
    /// Token use of each round's request.
    pub call_usages: Vec<CallUsage>,
    /// Short summary of the output, when there is one.
    pub output_summary: Option<String>,
    /// The output, capped in length.
    pub output: Option<String>,
    /// Whether `output` was cut at the cap.
    pub output_truncated: bool,
    /// Why the step failed.
    pub error: Option<String>,
}

/// Model of a step record.
pub struct StepRunRecordView {
    pub index: usize,
    pub result_reference: Seq<char>,
    pub intent: Seq<char>,
    pub expected_output: Seq<char>,
    pub status: StepStatus,
    pub duration_ms: u64,
    pub prompt_tokens: u32,
    pub completion_tokens: u32,
    pub tool_calls: usize,
    pub rounds: usize,
    pub call_usages: Seq<CallUsage>,
    pub output_summary: Option<Seq<char>>,
    pub output: Option<Seq<char>>,
    pub output_truncated: bool,
    pub error: Option<Seq<char>>,
}

impl View for StepRunRecord {
    type V = StepRunRecordView;

    open spec fn view(&self) -> StepRunRecordView {
        StepRunRecordView {
            index: self.index,
            result_reference: self.result_reference@,
            intent: self.intent@,
            expected_output: self.expected_output@,
            status: self.status,
            duration_ms: self.duration_ms,
            prompt_tokens: self.prompt_tokens,
            completion_tokens: self.completion_tokens,
            tool_calls: self.tool_calls,
            rounds: self.rounds,
            call_usages: self.call_usages@,
            output_summary: opt_text(self.output_summary),
            output: opt_text(self.output),
            output_truncated: self.output_truncated,
            error: opt_text(self.error),
        }
    }
}

/// A copy of an optional string.
pub fn copy_opt(o: &Option<String>) -> (r: Option<String>)
    ensures
        opt_text(r) == opt_text(*o),
{
    match o {
        Some(s) => Some(s.clone()),
        None => None,
    }
}

/// A copy of a list of token uses.
pub fn copy_usages(v: &Vec<CallUsage>) -> (r: Vec<CallUsage>)
    ensures
        r@ == v@,
{
    let mut out: Vec<CallUsage> = Vec::new();
    let mut i: usize = 0;
    while i < v.len()
        invariant
            i <= v@.len(),
            out@ == v@.take(i as int),
        decreases v@.len() - i,
    {
        out.push(v[i]);
        proof {
            assert(out@ =~= v@.take(i + 1));
        }
        i = i + 1;
    }
    proof {
        assert(v@.take(v@.len() as int) =~= v@);
    }
    out
}

impl StepRunRecord {
    /// `prompt_tokens + completion_tokens` of the step.
    pub fn total_tokens(&self) -> (t: u32)
        requires
            self.prompt_tokens + self.completion_tokens <= u32::MAX,
        ensures
            t == self.prompt_tokens + self.completion_tokens,
    {
        self.prompt_tokens + self.completion_tokens
    }

    /// A copy of the record.
    pub fn duplicate(&self) -> (r: StepRunRecord)
        ensures
            r@ == self@,
    {
        StepRunRecord {
            index: self.index,
            result_reference: self.result_reference.clone(),
            intent: self.intent.clone(),
            expected_output: self.expected_output.clone(),
            status: self.status,
            duration_ms: self.duration_ms,
            prompt_tokens: self.prompt_tokens,
            completion_tokens: self.completion_tokens,
            tool_calls: self.tool_calls,
            rounds: self.rounds,
            call_usages: copy_usages(&self.call_usages),
            output_summary: copy_opt(&self.output_summary),
            output: copy_opt(&self.output),
            output_truncated: self.output_truncated,
            error: copy_opt(&self.error),
        }
    }
}

/// Models of a list of step records.
pub open spec fn record_views(v: Seq<StepRunRecord>) -> Seq<StepRunRecordView> {
    v.map_values(|r: StepRunRecord| r@)
}

/// Report of a whole run.
#[derive(Debug, Clone, PartialEq)]
pub struct PlanRunReport {
    /// Whether every template step succeeded.
    pub success: bool,
    pub total_duration_ms: u64,
    pub prompt_tokens: u32,
    pub completion_tokens: u32,
    pub tool_calls: usize,
    /// Step records in run order (skipped steps included, and possibly a final
    /// result-resolving step).
    pub steps: Vec<StepRunRecord>,
    /// The run's final result (what the output contract asks to deliver).
    pub result: Option<String>,
}

/// Model of a run report.
pub struct PlanRunReportView {
    pub success: bool,
    pub total_duration_ms: u64,
    pub prompt_tokens: u32,
    pub completion_tokens: u32,
    pub tool_calls: usize,
    pub steps: Seq<StepRunRecordView>,
    pub result: Option<Seq<char>>,
}

impl View for PlanRunReport {
    type V = PlanRunReportView;

    open spec fn view(&self) -> PlanRunReportView {
        PlanRunReportView {
            success: self.success,
            total_duration_ms: self.total_duration_ms,
            prompt_tokens: self.prompt_tokens,
            completion_tokens: self.completion_tokens,
            tool_calls: self.tool_calls,
            steps: record_views(self.steps@),
            result: opt_text(self.result),
        }
    }
}

/// Number of records with the given status.
pub open spec fn count_status(steps: Seq<StepRunRecordView>, st: StepStatus) -> nat
    decreases steps.len(),
{
    if steps.len() == 0 {
        0
    } else {
        count_status(steps.drop_last(), st) + if steps.last().status == st {
            1nat
        } else {
            0nat
        }
    }
}

/// A count never exceeds the number of records.
pub proof fn lemma_count_status_bound(steps: Seq<StepRunRecordView>, st: StepStatus)
    ensures
        count_status(steps, st) <= steps.len(),
    decreases steps.len(),
{
    if steps.len() > 0 {
        lemma_count_status_bound(steps.drop_last(), st);
    }
}

/// A copy of a list of step records.
pub fn copy_records(v: &Vec<StepRunRecord>) -> (r: Vec<StepRunRecord>)
    ensures
        record_views(r@) == record_views(v@),
{
    let mut out: Vec<StepRunRecord> = Vec::new();
    let mut i: usize = 0;
    while i < v.len()
        invariant
            i <= v@.len(),
            record_views(out@) == record_views(v@.take(i as int)),
        decreases v@.len() - i,
    {
        let ghost prev = out@;
        out.push(v[i].duplicate());
        proof {
            assert(record_views(prev).len() == prev.len());
            assert(record_views(v@.take(i as int)).len() == i);
            assert(prev.len() == i);
            assert forall|j: int| 0 <= j < i + 1 implies #[trigger] record_views(out@)[j]
                == record_views(v@.take(i + 1))[j] by {
                if j < i {
                    assert(out@[j] == prev[j]);
                    assert(record_views(prev)[j] == record_views(v@.take(i as int))[j]);
                }
            }
            assert(record_views(out@) =~= record_views(v@.take(i + 1)));
        }
        i = i + 1;
    }
    proof {
        assert(v@.take(v@.len() as int) =~= v@);
    }
    out
}

fn count_with(steps: &Vec<StepRunRecord>, st: StepStatus) -> (n: usize)
    ensures
        n == count_status(record_views(steps@), st),
{
    let mut n: usize = 0;
    let mut i: usize = 0;
    while i < steps.len()
        invariant
            i <= steps@.len(),
            n == count_status(record_views(steps@.take(i as int)), st),
        decreases steps@.len() - i,
    {
        proof {
            assert(record_views(steps@.take(i + 1)).drop_last() =~= record_views(
                steps@.take(i as int),
            ));
            lemma_count_status_bound(record_views(steps@.take(i as int)), st);
        }
        if steps[i].status == st {
            n = n + 1;
        }
        i = i + 1;
    }
    proof {
        assert(steps@.take(steps@.len() as int) =~= steps@);
    }
    n
}

impl PlanRunReport {
    /// Number of steps that succeeded.
    pub fn steps_done(&self) -> (n: usize)
        ensures
            n == count_status(self@.steps, StepStatus::Done),
    {
        count_with(&self.steps, StepStatus::Done)
    }

    /// Number of steps that failed (the host's `Errors`).
    pub fn errors(&self) -> (n: usize)
        ensures
            n == count_status(self@.steps, StepStatus::Failed),
    {
        count_with(&self.steps, StepStatus::Failed)
    }

    /// Total tokens (prompt plus completion).
    pub fn total_tokens(&self) -> (t: u32)
        requires
            self.prompt_tokens + self.completion_tokens <= u32::MAX,
        ensures
            t == self.prompt_tokens + self.completion_tokens,
    {
        self.prompt_tokens + self.completion_tokens
    }

    /// A copy of the report.
    pub fn duplicate(&self) -> (r: PlanRunReport)
        ensures
            r@ == self@,
    {
        PlanRunReport {
            success: self.success,
            total_duration_ms: self.total_duration_ms,
            prompt_tokens: self.prompt_tokens,
            completion_tokens: self.completion_tokens,
            tool_calls: self.tool_calls,
            steps: copy_records(&self.steps),
            result: copy_opt(&self.result),
        }
    }
}

} // verus!
