//! What the run service hands out: run and step snapshots, their statuses and
//! subscription filters. Plain data, with a model of each.

use vstd::prelude::*;

use crate::flexible::report::{copy_opt, PlanRunReport, PlanRunReportView, StepRunRecord, StepRunRecordView, StepStatus};
use crate::flexible::template::{FlexiblePlanTemplate, PlanStep};
use crate::text::{decimal, decimal_text, opt_text};

verus! {

/// Status of one run.
#[derive(Debug, Clone, Copy, PartialEq, Eq, Structural)]
pub enum RunStatus {
    /// Executing.
    Running,
    /// Every step succeeded.
    Succeeded,
    /// A step failed, or the run as a whole failed.
    Failed,
    /// Stopped by the user.
    Cancelled,
}

impl RunStatus {
    /// Whether the run is still executing.
    pub fn is_running(self) -> (b: bool)
        ensures
            b == (self == RunStatus::Running),
    {
        matches!(self, RunStatus::Running)
    }

    /// Whether the run reached a final status.
    pub fn is_finished(self) -> (b: bool)
        ensures
            b == (self != RunStatus::Running),
    {
        !self.is_running()
    }
}

/// Phase of one step (what a host colours it by).
#[derive(Debug, Clone, Copy, PartialEq, Eq, Structural)]
pub enum StepPhase {
    /// Not run yet.
    Pending,
    /// Executing.
    Running,
    /// Completed.
    Done,
    /// Failed.
    Failed,
    /// Not run (an earlier step failed or the user stopped the run).
    Skipped,
}

/// The phase a final step status shows as.
pub open spec fn phase_of_status(status: StepStatus) -> StepPhase {
    match status {
        StepStatus::Done => StepPhase::Done,
        StepStatus::Failed => StepPhase::Failed,
        StepStatus::Skipped => StepPhase::Skipped,
    }
}

/// Style suffix of a step container and of its node.
pub open spec fn phase_css(phase: StepPhase) -> Seq<char> {
    match phase {
        StepPhase::Pending => "pending"@,
        StepPhase::Running => "running"@,
        StepPhase::Done => "done"@,
        StepPhase::Failed => "failed"@,
        StepPhase::Skipped => "skipped"@,
    }
}

/// Style suffix of the line after a step: the running phase is `active`, and a
/// skipped step has no style of its own.
pub open spec fn phase_line(phase: StepPhase) -> Seq<char> {
    match phase {
        StepPhase::Running => "active"@,
        StepPhase::Done => "done"@,
        StepPhase::Failed => "failed"@,
        StepPhase::Pending => "pending"@,
        StepPhase::Skipped => "pending"@,
    }
}

impl StepPhase {
    /// The phase of a final step status.
    pub fn from_status(status: StepStatus) -> (p: StepPhase)
        ensures
            p == phase_of_status(status),
    {
        match status {
            StepStatus::Done => StepPhase::Done,
            StepStatus::Failed => StepPhase::Failed,
            StepStatus::Skipped => StepPhase::Skipped,
        }
    }

    /// Style suffix of the step container.
    pub fn css_suffix(self) -> (r: &'static str)
        ensures
            r@ == phase_css(self),
    {
        match self {
            StepPhase::Pending => "pending",
            StepPhase::Running => "running",
            StepPhase::Done => "done",
            StepPhase::Failed => "failed",
            StepPhase::Skipped => "skipped",
        }
    }

    /// Style suffix of the step's node (the same as the container's).
    pub fn node_suffix(self) -> (r: &'static str)
        ensures
            r@ == phase_css(self),
    {
        self.css_suffix()
    }

    /// Style suffix of the line after the step.
    pub fn line_suffix(self) -> (r: &'static str)
        ensures
            r@ == phase_line(self),
    {
        match self {
            StepPhase::Running => "active",
            StepPhase::Done => "done",
            StepPhase::Failed => "failed",
            StepPhase::Pending => "pending",
            StepPhase::Skipped => "pending",
        }
    }
}

/// One line of a step's trace: a thought, or a tool call.
#[derive(Debug, Clone, PartialEq)]
pub enum StepTrackLine {
    /// Thinking text of one round.
    Thought { text: String },
    /// A tool call, its rendered arguments and whether it succeeded.
    Tool { tool: String, args: String, ok: bool },
}

/// Model of a trace line.
pub enum TrackLineView {
    Thought(Seq<char>),
    Tool(Seq<char>, Seq<char>, bool),
}

impl View for StepTrackLine {
    type V = TrackLineView;

    open spec fn view(&self) -> TrackLineView {
        match self {
            StepTrackLine::Thought { text } => TrackLineView::Thought(text@),
            StepTrackLine::Tool { tool, args, ok } => TrackLineView::Tool(tool@, args@, *ok),
        }
    }
}

/// Models of a trace.
pub open spec fn track_views(t: Seq<StepTrackLine>) -> Seq<TrackLineView> {
    t.map_values(|l: StepTrackLine| l@)
}

impl StepTrackLine {
    /// A copy of the line.
    pub fn duplicate(&self) -> (r: StepTrackLine)
        ensures
            r@ == self@,
    {
        match self {
            StepTrackLine::Thought { text } => StepTrackLine::Thought { text: text.clone() },
            StepTrackLine::Tool { tool, args, ok } => StepTrackLine::Tool {
                tool: tool.clone(),
                args: args.clone(),
                ok: *ok,
            },
        }
    }
}

/// A copy of a trace.
pub fn copy_track(t: &Vec<StepTrackLine>) -> (r: Vec<StepTrackLine>)
    ensures
        track_views(r@) == track_views(t@),
{
    let mut out: Vec<StepTrackLine> = Vec::new();
    let mut i: usize = 0;
    while i < t.len()
        invariant
            i <= t@.len(),
            track_views(out@) == track_views(t@.take(i as int)),
        decreases t@.len() - i,
    {
        let ghost prev = out@;
        out.push(t[i].duplicate());
        proof {
            assert(track_views(prev).len() == i);
            assert forall|j: int| 0 <= j < i + 1 implies #[trigger] track_views(out@)[j]
                == track_views(t@.take(i + 1))[j] by {
                if j < i {
                    assert(out@[j] == prev[j]);
                    assert(track_views(prev)[j] == track_views(t@.take(i as int))[j]);
                }
            }
            assert(track_views(out@) =~= track_views(t@.take(i + 1)));
        }
        i = i + 1;
    }
    proof {
        assert(t@.take(t@.len() as int) =~= t@);
    }
    out
}

/// Snapshot of one step.
#[derive(Debug, Clone, PartialEq)]
pub struct StepSnapshot {
    /// Step number (from 1, as in the events).
    pub index: usize,
    /// Result reference, such as `#E1`.
    pub result_reference: String,
    /// Sub-goal: the template text first, replaced by the expanded text when
    /// the step starts.
    pub intent: String,
    /// Verifiable outcome (template text).
    pub expected_output: String,
    pub phase: StepPhase,
    pub duration_ms: u64,
    pub prompt_tokens: u32,
    pub completion_tokens: u32,
    pub tool_calls: usize,
    pub error: Option<String>,
    /// Thoughts and tool calls of the step, in the order they happened.
    pub track: Vec<StepTrackLine>,
}

/// Model of a step snapshot.
pub struct StepSnapshotView {
    pub index: usize,
    pub result_reference: Seq<char>,
    pub intent: Seq<char>,
    pub expected_output: Seq<char>,
    pub phase: StepPhase,
    pub duration_ms: u64,
    pub prompt_tokens: u32,
    pub completion_tokens: u32,
    pub tool_calls: usize,
    pub error: Option<Seq<char>>,
    pub track: Seq<TrackLineView>,
}

impl View for StepSnapshot {
    type V = StepSnapshotView;

    open spec fn view(&self) -> StepSnapshotView {
        StepSnapshotView {
            index: self.index,
            result_reference: self.result_reference@,
            intent: self.intent@,
            expected_output: self.expected_output@,
            phase: self.phase,
            duration_ms: self.duration_ms,
            prompt_tokens: self.prompt_tokens,
            completion_tokens: self.completion_tokens,
            tool_calls: self.tool_calls,
            error: opt_text(self.error),
            track: track_views(self.track@),
        }
    }
}

/// Models of a list of step snapshots.
pub open spec fn step_views(v: Seq<StepSnapshot>) -> Seq<StepSnapshotView> {
    v.map_values(|s: StepSnapshot| s@)
}

/// The skeleton of a template step: pending, with the template's own texts.
pub open spec fn pending_view(index: usize, step: PlanStep) -> StepSnapshotView {
    StepSnapshotView {
        index,
        result_reference: step.result_reference@,
        intent: step.intent@,
        expected_output: step.expected_output@,
        phase: StepPhase::Pending,
        duration_ms: 0,
        prompt_tokens: 0,
        completion_tokens: 0,
        tool_calls: 0,
        error: None,
        track: Seq::empty(),
    }
}

/// The snapshot a step record gives (with an empty trace).
pub open spec fn record_snapshot(r: StepRunRecordView) -> StepSnapshotView {
    StepSnapshotView {
        index: r.index,
        result_reference: r.result_reference,
        intent: r.intent,
        expected_output: r.expected_output,
        phase: phase_of_status(r.status),
        duration_ms: r.duration_ms,
        prompt_tokens: r.prompt_tokens,
        completion_tokens: r.completion_tokens,
        tool_calls: r.tool_calls,
        error: r.error,
        track: Seq::empty(),
    }
}

/// A stand-in for a step that an event names but no template step gave:
/// pending, referenced as `#E{index}`, with empty texts.
pub open spec fn placeholder_view(index: usize) -> StepSnapshotView {
    StepSnapshotView {
        index,
        result_reference: "#E"@ + decimal(index as nat),
        intent: Seq::empty(),
        expected_output: Seq::empty(),
        phase: StepPhase::Pending,
        duration_ms: 0,
        prompt_tokens: 0,
        completion_tokens: 0,
        tool_calls: 0,
        error: None,
        track: Seq::empty(),
    }
}

impl StepSnapshot {
    /// The skeleton of a template step: pending, with the template's own intent.
    pub fn pending(index: usize, step: &PlanStep) -> (s: StepSnapshot)
        ensures
            s@ == pending_view(index, *step),
    {
        let s = StepSnapshot {
            index,
            result_reference: step.result_reference.clone(),
            intent: step.intent.clone(),
            expected_output: step.expected_output.clone(),
            phase: StepPhase::Pending,
            duration_ms: 0,
            prompt_tokens: 0,
            completion_tokens: 0,
            tool_calls: 0,
            error: None,
            track: Vec::new(),
        };
        proof {
            assert(track_views(s.track@) =~= Seq::empty());
        }
        s
    }

    /// The snapshot of a step record.
    pub fn from_record(record: &StepRunRecord) -> (s: StepSnapshot)
        ensures
            s@ == record_snapshot(record@),
    {
        let s = StepSnapshot {
            index: record.index,
            result_reference: record.result_reference.clone(),
            intent: record.intent.clone(),
            expected_output: record.expected_output.clone(),
            phase: StepPhase::from_status(record.status),
            duration_ms: record.duration_ms,
            prompt_tokens: record.prompt_tokens,
            completion_tokens: record.completion_tokens,
            tool_calls: record.tool_calls,
            error: copy_opt(&record.error),
            track: Vec::new(),
        };
        proof {
            assert(track_views(s.track@) =~= Seq::empty());
        }
        s
    }

    /// A stand-in for a step that an event names beyond the known ones.
    pub fn placeholder(index: usize) -> (s: StepSnapshot)
        ensures
            s@ == placeholder_view(index),
    {
        let mut reference = String::new();
        reference.append("#E");
        let digits = decimal_text(index as u64);
        reference.append(digits.as_str());
        let s = StepSnapshot {
            index,
            result_reference: reference,
            intent: String::new(),
            expected_output: String::new(),
            phase: StepPhase::Pending,
            duration_ms: 0,
            prompt_tokens: 0,
            completion_tokens: 0,
            tool_calls: 0,
            error: None,
            track: Vec::new(),
        };
        proof {
            assert(track_views(s.track@) =~= Seq::empty());
            assert(s.result_reference@ =~= "#E"@ + decimal(index as nat));
        }
        s
    }

    /// Tokens of the step (prompt plus completion).
    pub fn total_tokens(&self) -> (t: u32)
        requires
            self.prompt_tokens + self.completion_tokens <= u32::MAX,
        ensures
            t == self.prompt_tokens + self.completion_tokens,
    {
        self.prompt_tokens + self.completion_tokens
    }

    /// A copy of the snapshot.
    pub fn duplicate(&self) -> (r: StepSnapshot)
        ensures
            r@ == self@,
    {
        StepSnapshot {
            index: self.index,
            result_reference: self.result_reference.clone(),
            intent: self.intent.clone(),
            expected_output: self.expected_output.clone(),
            phase: self.phase,
            duration_ms: self.duration_ms,
            prompt_tokens: self.prompt_tokens,
            completion_tokens: self.completion_tokens,
            tool_calls: self.tool_calls,
            error: copy_opt(&self.error),
            track: copy_track(&self.track),
        }
    }
}

} // verus!

verus! {

/// A point in time of the system clock (`std::time::SystemTime`).
#[verifier::external_type_specification]
#[verifier::external_body]
pub struct ExSystemTime(std::time::SystemTime);

/// Wraps `SystemTime::now`: the system clock's current time. Nothing is
/// stated of it: it is the time.
#[verifier::external_body]
fn clock_now() -> std::time::SystemTime {
    std::time::SystemTime::now()
}

/// Wraps `SystemTime::duration_since(UNIX_EPOCH)`: the time elapsed since the
/// UNIX epoch, `None` when `t` stands before it. Nothing is stated of the
/// duration, which depends on the clock.
#[verifier::external_body]
fn since_epoch(t: &std::time::SystemTime) -> Option<std::time::Duration> {
    match t.duration_since(std::time::UNIX_EPOCH) {
        Ok(elapsed) => Some(elapsed),
        Err(_) => None,
    }
}

/// Wraps `Duration::as_millis`: the whole milliseconds of a duration. Nothing
/// is stated: the library models no duration.
#[verifier::external_body]
fn whole_millis(d: &std::time::Duration) -> u128 {
    d.as_millis()
}

/// The current UNIX time in milliseconds, read from the system clock; `None`
/// when the clock stands before the epoch.
fn clock_millis() -> Option<u128> {
    let now = clock_now();
    match since_epoch(&now) {
        Some(elapsed) => Some(whole_millis(&elapsed)),
        None => None,
    }
}

/// Milliseconds as a `u64` (the low 64 bits); a clock before the epoch gives 0.
pub open spec fn millis_u64(elapsed: Option<u128>) -> u64 {
    match elapsed {
        Some(ms) => (ms % 0x1_0000_0000_0000_0000) as u64,
        None => 0,
    }
}

/// Milliseconds read from the clock, as the snapshots keep them.
pub fn to_millis(elapsed: Option<u128>) -> (r: u64)
    ensures
        r == millis_u64(elapsed),
{
    match elapsed {
        Some(ms) => (ms % 0x1_0000_0000_0000_0000u128) as u64,
        None => 0,
    }
}

/// The current UNIX time in milliseconds; 0 when the clock is off (never panics).
pub fn now_ms() -> (r: u64) {
    to_millis(clock_millis())
}

/// Padding of a step list to at least `n` steps with stand-ins numbered on.
pub open spec fn padded(steps: Seq<StepSnapshotView>, n: nat) -> Seq<StepSnapshotView> {
    if steps.len() >= n {
        steps
    } else {
        steps + Seq::new(
            (n - steps.len()) as nat,
            |k: int| placeholder_view((steps.len() + k + 1) as usize),
        )
    }
}

/// Position of the first step numbered `index`, from position `k` on
/// (the list's length when there is none).
pub open spec fn first_numbered(steps: Seq<StepSnapshotView>, index: usize, k: nat) -> nat
    decreases steps.len() - k,
{
    if k >= steps.len() {
        steps.len()
    } else if steps[k as int].index == index {
        k
    } else {
        first_numbered(steps, index, k + 1)
    }
}

/// Position of the first step numbered above `index`, from position `k` on
/// (the list's length when there is none).
pub open spec fn first_above(steps: Seq<StepSnapshotView>, index: usize, k: nat) -> nat
    decreases steps.len() - k,
{
    if k >= steps.len() {
        steps.len()
    } else if steps[k as int].index > index {
        k
    } else {
        first_above(steps, index, k + 1)
    }
}

/// Where step `index` stands once it has been looked up (and added when missing).
pub open spec fn touched_pos(steps: Seq<StepSnapshotView>, index: usize) -> nat {
    let p = padded(steps, index as nat);
    let f = first_numbered(p, index, 0);
    if f < p.len() {
        f
    } else {
        first_above(p, index, 0)
    }
}

/// The steps once step `index` has been looked up: padded up to `index`, and,
/// when no step carries that number, a stand-in inserted before the first step
/// numbered above it.
pub open spec fn touched_steps(steps: Seq<StepSnapshotView>, index: usize) -> Seq<StepSnapshotView> {
    let p = padded(steps, index as nat);
    if first_numbered(p, index, 0) < p.len() {
        p
    } else {
        p.insert(first_above(p, index, 0) as int, placeholder_view(index))
    }
}

/// Number of steps that went forward (done or failed).
pub open spec fn count_progressed(steps: Seq<StepSnapshotView>) -> nat
    decreases steps.len(),
{
    if steps.len() == 0 {
        0
    } else {
        count_progressed(steps.drop_last()) + if steps.last().phase == StepPhase::Done
            || steps.last().phase == StepPhase::Failed {
            1nat
        } else {
            0nat
        }
    }
}

/// Snapshot of one run of a session: progress and status.
#[derive(Debug, Clone, PartialEq)]
pub struct RunSnapshot {
    pub session_id: String,
    /// Number of this run (grows with every start); events of another run are dropped.
    pub run_id: u64,
    pub status: RunStatus,
    pub total_steps: usize,
    /// Number of the step in progress; `None` before the first one.
    pub current_step: Option<usize>,
    pub steps: Vec<StepSnapshot>,
    /// Latest thinking text.
    pub last_thought: Option<String>,
    pub started_at_ms: u64,
    pub finished_at_ms: Option<u64>,
    /// Why the run as a whole failed (a step's own failure is in its `error`).
    pub error: Option<String>,
    /// The run report, once the run is over.
    pub report: Option<PlanRunReport>,
}

/// Model of a run snapshot.
pub struct RunSnapshotView {
    pub session_id: Seq<char>,
    pub run_id: u64,
    pub status: RunStatus,
    pub total_steps: usize,
    pub current_step: Option<usize>,
    pub steps: Seq<StepSnapshotView>,
    pub last_thought: Option<Seq<char>>,
    pub started_at_ms: u64,
    pub finished_at_ms: Option<u64>,
    pub error: Option<Seq<char>>,
    pub report: Option<PlanRunReportView>,
}

/// Model of an optional report.
pub open spec fn opt_report(r: Option<PlanRunReport>) -> Option<PlanRunReportView> {
    match r {
        Some(report) => Some(report@),
        None => None,
    }
}

impl View for RunSnapshot {
    type V = RunSnapshotView;

    open spec fn view(&self) -> RunSnapshotView {
        RunSnapshotView {
            session_id: self.session_id@,
            run_id: self.run_id,
            status: self.status,
            total_steps: self.total_steps,
            current_step: self.current_step,
            steps: step_views(self.steps@),
            last_thought: opt_text(self.last_thought),
            started_at_ms: self.started_at_ms,
            finished_at_ms: self.finished_at_ms,
            error: opt_text(self.error),
            report: opt_report(self.report),
        }
    }
}

/// The skeletons of a template's steps, numbered from 1.
pub open spec fn template_skeleton(steps: Seq<PlanStep>) -> Seq<StepSnapshotView> {
    Seq::new(steps.len(), |k: int| pending_view((k + 1) as usize, steps[k]))
}

/// A change of the `k`-th step of a list of snapshots shows as a change of its model.
pub proof fn lemma_step_views_update(s: Seq<StepSnapshot>, k: int, x: StepSnapshot)
    requires
        0 <= k < s.len(),
    ensures
        step_views(s.remove(k).insert(k, x)) == step_views(s).update(k, x@),
{
    assert(s.remove(k).insert(k, x) =~= s.update(k, x));
    assert(step_views(s.update(k, x)) =~= step_views(s).update(k, x@));
}

impl RunSnapshot {
    /// The snapshot a run starts from: every template step pending, status running.
    /// Its start time is read from the clock.
    pub fn started(session_id: String, run_id: u64, template: &FlexiblePlanTemplate) -> (s:
        RunSnapshot)
        ensures
            s@.session_id == session_id@,
            s@.run_id == run_id,
            s@.status == RunStatus::Running,
            s@.total_steps == template.steps@.len(),
            s@.current_step is None,
            s@.steps == template_skeleton(template.steps@),
            s@.last_thought is None,
            s@.finished_at_ms is None,
            s@.error is None,
            s@.report is None,
    {
        let mut steps: Vec<StepSnapshot> = Vec::new();
        let mut k: usize = 0;
        while k < template.steps.len()
            invariant
                k <= template.steps@.len(),
                steps@.len() == k,
                step_views(steps@) =~= template_skeleton(template.steps@.take(k as int)),
            decreases template.steps@.len() - k,
        {
            let ghost prev = steps@;
            steps.push(StepSnapshot::pending(k + 1, &template.steps[k]));
            proof {
                assert forall|j: int| 0 <= j < k + 1 implies #[trigger] step_views(steps@)[j]
                    == template_skeleton(template.steps@.take(k + 1))[j] by {
                    if j < k {
                        assert(steps@[j] == prev[j]);
                        assert(step_views(prev)[j] == template_skeleton(template.steps@.take(k as int))[j]);
                    }
                }
                assert(step_views(steps@) =~= template_skeleton(template.steps@.take(k + 1)));
            }
            k = k + 1;
        }
        proof {
            assert(template.steps@.take(template.steps@.len() as int) =~= template.steps@);
        }
        let total = steps.len();
        RunSnapshot {
            session_id,
            run_id,
            status: RunStatus::Running,
            total_steps: total,
            current_step: None,
            steps,
            last_thought: None,
            started_at_ms: now_ms(),
            finished_at_ms: None,
            error: None,
            report: None,
        }
    }

    /// Whether the run is still executing.
    pub fn is_running(&self) -> (b: bool)
        ensures
            b == (self.status == RunStatus::Running),
    {
        self.status.is_running()
    }

    /// Steps that went forward (done or failed): the numerator of a progress bar.
    pub fn progressed(&self) -> (n: usize)
        ensures
            n == count_progressed(self@.steps),
    {
        let mut n: usize = 0;
        let mut i: usize = 0;
        while i < self.steps.len()
            invariant
                i <= self.steps@.len(),
                n == count_progressed(step_views(self.steps@).take(i as int)),
                n <= i,
            decreases self.steps@.len() - i,
        {
            proof {
                assert(step_views(self.steps@).take(i + 1).drop_last() =~= step_views(
                    self.steps@,
                ).take(i as int));
            }
            let phase = self.steps[i].phase;
            if phase == StepPhase::Done || phase == StepPhase::Failed {
                n = n + 1;
            }
            i = i + 1;
        }
        proof {
            assert(step_views(self.steps@).take(self.steps@.len() as int) =~= step_views(
                self.steps@,
            ));
        }
        n
    }

    /// Phase of the step at `offset` (from 0); pending when there is no such step.
    pub fn phase_of(&self, offset: usize) -> (p: StepPhase)
        ensures
            p == (if offset < self@.steps.len() {
                self@.steps[offset as int].phase
            } else {
                StepPhase::Pending
            }),
    {
        if offset < self.steps.len() {
            self.steps[offset].phase
        } else {
            StepPhase::Pending
        }
    }

    /// Pads the steps up to `total` with stand-ins numbered on (a run may
    /// announce more steps than the template showed).
    pub fn ensure_steps(&mut self, total: usize)
        ensures
            final(self)@ == (RunSnapshotView { steps: padded(old(self)@.steps, total as nat), ..old(self)@ }),
    {
        let ghost start = old(self)@.steps;
        while self.steps.len() < total
            invariant
                start.len() <= self.steps@.len(),
                self.steps@.len() <= total || self.steps@.len() == start.len(),
                step_views(self.steps@) =~= padded(start, self.steps@.len() as nat),
                self@ == (RunSnapshotView { steps: step_views(self.steps@), ..old(self)@ }),
            decreases total - self.steps@.len(),
        {
            let next = self.steps.len() + 1;
            let ghost before = self.steps@;
            self.steps.push(StepSnapshot::placeholder(next));
            proof {
                assert(step_views(self.steps@) =~= step_views(before).push(placeholder_view(next)));
                assert(padded(start, self.steps@.len() as nat) =~= padded(start, before.len() as nat).push(placeholder_view(next)));
            }
        }
        proof {
            if total as nat <= start.len() {
                assert(padded(start, total as nat) =~= start);
                assert(padded(start, start.len()) =~= start);
            }
        }
    }
}

/// A copy of a list of step snapshots.
pub fn copy_steps(t: &Vec<StepSnapshot>) -> (r: Vec<StepSnapshot>)
    ensures
        step_views(r@) == step_views(t@),
{
    let mut out: Vec<StepSnapshot> = Vec::new();
    let mut i: usize = 0;
    while i < t.len()
        invariant
            i <= t@.len(),
            step_views(out@) == step_views(t@.take(i as int)),
        decreases t@.len() - i,
    {
        let ghost prev = out@;
        out.push(t[i].duplicate());
        proof {
            assert(step_views(prev).len() == i);
            assert forall|j: int| 0 <= j < i + 1 implies #[trigger] step_views(out@)[j]
                == step_views(t@.take(i + 1))[j] by {
                if j < i {
                    assert(out@[j] == prev[j]);
                    assert(step_views(prev)[j] == step_views(t@.take(i as int))[j]);
                }
            }
            assert(step_views(out@) =~= step_views(t@.take(i + 1)));
        }
        i = i + 1;
    }
    proof {
        assert(t@.take(t@.len() as int) =~= t@);
    }
    out
}

impl RunSnapshot {
    /// A copy of the snapshot.
    pub fn duplicate(&self) -> (r: RunSnapshot)
        ensures
            r@ == self@,
    {
        let report = match &self.report {
            Some(rep) => Some(rep.duplicate()),
            None => None,
        };
        RunSnapshot {
            session_id: self.session_id.clone(),
            run_id: self.run_id,
            status: self.status,
            total_steps: self.total_steps,
            current_step: self.current_step,
            steps: copy_steps(&self.steps),
            last_thought: copy_opt(&self.last_thought),
            started_at_ms: self.started_at_ms,
            finished_at_ms: self.finished_at_ms,
            error: copy_opt(&self.error),
            report,
        }
    }
}

/// What a subscriber is sent: a session's id and its latest snapshot.
#[derive(Debug, Clone, PartialEq)]
pub struct RunUpdate {
    pub session_id: String,
    pub snapshot: RunSnapshot,
}

/// The sessions a subscription covers.
#[derive(Debug, Clone, PartialEq, Eq)]
pub enum SessionFilter {
    /// Every session (an overview).
    All,
    /// One session.
    One(String),
}

/// Whether updates of `session` reach a subscriber with filter `filter`.
pub open spec fn filter_matches(filter: SessionFilter, session: Seq<char>) -> bool {
    match filter {
        SessionFilter::All => true,
        SessionFilter::One(id) => id@ == session,
    }
}

impl SessionFilter {
    /// Whether an update of `session_id` should be pushed to this subscriber.
    pub fn matches(&self, session_id: &str) -> (b: bool)
        ensures
            b == filter_matches(*self, session_id@),
    {
        match self {
            SessionFilter::All => true,
            SessionFilter::One(id) => *id == session_id.to_owned(),
        }
    }
}

} // verus!
