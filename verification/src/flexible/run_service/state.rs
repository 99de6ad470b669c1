//! Folding of progress events into a run snapshot.
//!
//! [`apply_event_at`] only changes the snapshot it is given; dropping events of
//! another run is the caller's work (see `control`).

use vstd::prelude::*;

use crate::flexible::event::{PlanRunEvent, PlanRunEventView};
use crate::flexible::report::{PlanRunReport, StepRunRecord, StepRunRecordView};
use super::types::{
    copy_track, first_above, first_numbered, lemma_step_views_update, now_ms, padded,
    placeholder_view, record_snapshot, step_views, touched_pos, touched_steps, track_views,
    RunSnapshot, RunSnapshotView, RunStatus, StepPhase, StepSnapshot, StepSnapshotView,
    StepTrackLine, TrackLineView,
};

verus! {

/// The step total once a list of `len` steps has been reached: it never shrinks.
pub open spec fn grown_total(total: usize, len: nat) -> usize {
    if len > total {
        len as usize
    } else {
        total
    }
}

/// The snapshot once step `index` has been looked up (and added when missing).
pub open spec fn touch(s: RunSnapshotView, index: usize) -> RunSnapshotView {
    let steps = touched_steps(s.steps, index);
    RunSnapshotView { steps, total_steps: grown_total(s.total_steps, steps.len()), ..s }
}

/// The snapshot once step `index` has been looked up and then changed by `f`.
pub open spec fn with_step(
    s: RunSnapshotView,
    index: usize,
    f: spec_fn(StepSnapshotView) -> StepSnapshotView,
) -> RunSnapshotView {
    let t = touch(s, index);
    let p = touched_pos(s.steps, index) as int;
    RunSnapshotView { steps: t.steps.update(p, f(t.steps[p])), ..t }
}

/// Trace of the last step numbered `index` (empty when there is none).
pub open spec fn last_track(steps: Seq<StepSnapshotView>, index: usize) -> Seq<TrackLineView>
    decreases steps.len(),
{
    if steps.len() == 0 {
        Seq::empty()
    } else if steps.last().index == index {
        steps.last().track
    } else {
        last_track(steps.drop_last(), index)
    }
}

/// Whether an earlier record of the report carries the same step number as record `j`.
pub open spec fn claimed_before(recs: Seq<StepRunRecordView>, j: int) -> bool {
    exists|k: int| 0 <= k < j && #[trigger] recs[k].index == recs[j].index
}

/// The steps a final report rebuilds: one per record, each keeping the trace
/// gathered so far for its number (the first record with a number takes it).
pub open spec fn rebuilt(old: Seq<StepSnapshotView>, recs: Seq<StepRunRecordView>) -> Seq<
    StepSnapshotView,
> {
    Seq::new(
        recs.len(),
        |j: int|
            StepSnapshotView {
                track: if claimed_before(recs, j) {
                    Seq::empty()
                } else {
                    last_track(old, recs[j].index)
                },
                ..record_snapshot(recs[j])
            },
    )
}

/// The snapshot after one event, with `now` the time a final event is stamped with.
pub open spec fn applied(s: RunSnapshotView, e: PlanRunEventView, now: u64) -> RunSnapshotView {
    match e {
        PlanRunEventView::RunStarted { total_steps } => RunSnapshotView {
            total_steps,
            steps: padded(s.steps, total_steps as nat),
            ..s
        },
        PlanRunEventView::StepStarted { index, intent } => with_step(
            RunSnapshotView { current_step: Some(index), ..s },
            index,
            |st: StepSnapshotView| StepSnapshotView { intent, phase: StepPhase::Running, ..st },
        ),
        PlanRunEventView::StepThought { index, round, text } => with_step(
            s,
            index,
            |st: StepSnapshotView|
                StepSnapshotView { track: st.track.push(TrackLineView::Thought(text)), ..st },
        ),
        PlanRunEventView::StepToolCall { index, tool, args, ok } => with_step(
            s,
            index,
            |st: StepSnapshotView|
                StepSnapshotView {
                    tool_calls: (st.tool_calls + 1) as usize,
                    track: st.track.push(TrackLineView::Tool(tool, args, ok)),
                    ..st
                },
        ),
        PlanRunEventView::StepFinished { index, record } => with_step(
            s,
            index,
            |st: StepSnapshotView| StepSnapshotView { track: st.track, ..record_snapshot(record) },
        ),
        PlanRunEventView::RunFinished { report } => RunSnapshotView {
            status: if report.success {
                RunStatus::Succeeded
            } else {
                RunStatus::Failed
            },
            total_steps: if report.steps.len() > 0 {
                report.steps.len() as usize
            } else {
                s.total_steps
            },
            steps: if report.steps.len() > 0 {
                rebuilt(s.steps, report.steps)
            } else {
                s.steps
            },
            report: Some(report),
            finished_at_ms: Some(now),
            ..s
        },
        PlanRunEventView::Failed { index, error } => match index {
            Some(i) => with_step(
                s,
                i,
                |st: StepSnapshotView|
                    StepSnapshotView { phase: StepPhase::Failed, error: Some(error), ..st },
            ),
            None => RunSnapshotView {
                status: RunStatus::Failed,
                error: Some(error),
                finished_at_ms: Some(now),
                ..s
            },
        },
    }
}

/// What an event needs of the snapshot: a tool call can still be counted on
/// the step it names.
pub open spec fn applicable(s: RunSnapshotView, e: PlanRunEventView) -> bool {
    match e {
        PlanRunEventView::StepToolCall { index, .. } => forall|k: int|
            0 <= k < s.steps.len() && #[trigger] s.steps[k].index == index ==> s.steps[k].tool_calls
                < usize::MAX,
        _ => true,
    }
}

/// A position found by [`first_numbered`] holds that number.
pub proof fn lemma_first_numbered(steps: Seq<StepSnapshotView>, index: usize, k: nat)
    ensures
        k <= steps.len() ==> k <= first_numbered(steps, index, k) <= steps.len(),
        first_numbered(steps, index, k) < steps.len() ==> steps[first_numbered(steps, index, k) as int].index == index,
    decreases steps.len() - k,
{
    if k < steps.len() && steps[k as int].index != index {
        lemma_first_numbered(steps, index, k + 1);
    }
}

/// A position found by [`first_above`] lies within the list.
pub proof fn lemma_first_above(steps: Seq<StepSnapshotView>, index: usize, k: nat)
    ensures
        k <= steps.len() ==> k <= first_above(steps, index, k) <= steps.len(),
    decreases steps.len() - k,
{
    if k < steps.len() && steps[k as int].index <= index {
        lemma_first_above(steps, index, k + 1);
    }
}

/// Position of the first step numbered `index` (the length when there is none).
fn position_numbered(steps: &Vec<StepSnapshot>, index: usize) -> (k: usize)
    ensures
        k == first_numbered(step_views(steps@), index, 0),
{
    let ghost v = step_views(steps@);
    let mut k: usize = 0;
    while k < steps.len()
        invariant
            k <= steps@.len(),
            v == step_views(steps@),
            first_numbered(v, index, 0) == first_numbered(v, index, k as nat),
        decreases steps@.len() - k,
    {
        if steps[k].index == index {
            return k;
        }
        k = k + 1;
    }
    k
}

/// Position of the first step numbered above `index` (the length when there is none).
fn position_above(steps: &Vec<StepSnapshot>, index: usize) -> (k: usize)
    ensures
        k == first_above(step_views(steps@), index, 0),
{
    let ghost v = step_views(steps@);
    let mut k: usize = 0;
    while k < steps.len()
        invariant
            k <= steps@.len(),
            v == step_views(steps@),
            first_above(v, index, 0) == first_above(v, index, k as nat),
        decreases steps@.len() - k,
    {
        if steps[k].index > index {
            return k;
        }
        k = k + 1;
    }
    k
}

impl RunSnapshot {
    /// Looks step `index` up, padding the steps up to it first and inserting a
    /// stand-in in number order when no step carries it; returns its position.
    ///
    /// Padding keeps `N / M` displays right: reaching step 2 first must not
    /// leave the total at 1.
    pub fn step_or_insert(&mut self, index: usize) -> (pos: usize)
        ensures
            pos == touched_pos(old(self)@.steps, index),
            final(self)@ == touch(old(self)@, index),
            pos < final(self)@.steps.len(),
            final(self)@.steps[pos as int].index == index,
    {
        self.ensure_steps(index);
        let ghost p = self@.steps;
        proof {
            lemma_first_numbered(p, index, 0);
            lemma_first_above(p, index, 0);
        }
        let found = position_numbered(&self.steps, index);
        let pos = if found < self.steps.len() {
            found
        } else {
            let at = position_above(&self.steps, index);
            let ghost before = self.steps@;
            self.steps.insert(at, StepSnapshot::placeholder(index));
            proof {
                assert(step_views(self.steps@) =~= step_views(before).insert(at as int, placeholder_view(index)));
            }
            at
        };
        if self.steps.len() > self.total_steps {
            self.total_steps = self.steps.len();
        }
        pos
    }
}

/// A pushed trace line shows as a pushed model line.
proof fn lemma_track_push(t: Seq<StepTrackLine>, x: StepTrackLine)
    ensures
        track_views(t.push(x)) == track_views(t).push(x@),
{
    assert(track_views(t.push(x)) =~= track_views(t).push(x@));
}

/// Trace of the last step numbered `index`, copied.
fn last_track_of(steps: &Vec<StepSnapshot>, index: usize) -> (t: Vec<StepTrackLine>)
    ensures
        track_views(t@) == last_track(step_views(steps@), index),
{
    let ghost v = step_views(steps@);
    let mut m: usize = steps.len();
    proof {
        assert(v.take(v.len() as int) =~= v);
    }
    while m > 0
        invariant
            m <= steps@.len(),
            v == step_views(steps@),
            last_track(v, index) == last_track(v.take(m as int), index),
        decreases m,
    {
        proof {
            assert(v.take(m as int).drop_last() =~= v.take(m - 1));
        }
        if steps[m - 1].index == index {
            return copy_track(&steps[m - 1].track);
        }
        m = m - 1;
    }
    proof {
        assert(v.take(0) =~= Seq::<StepSnapshotView>::empty());
    }
    Vec::new()
}

/// Whether a record before `j` carries record `j`'s step number.
fn number_taken(recs: &Vec<StepRunRecord>, j: usize) -> (b: bool)
    requires
        j < recs@.len(),
    ensures
        b == claimed_before(crate::flexible::report::record_views(recs@), j as int),
{
    let ghost rv = crate::flexible::report::record_views(recs@);
    let mut k: usize = 0;
    while k < j
        invariant
            k <= j < recs@.len(),
            rv == crate::flexible::report::record_views(recs@),
            forall|q: int| 0 <= q < k ==> #[trigger] rv[q].index != rv[j as int].index,
        decreases j - k,
    {
        if recs[k].index == recs[j].index {
            proof {
                assert(rv[k as int].index == rv[j as int].index);
            }
            return true;
        }
        k = k + 1;
    }
    false
}

/// The steps a final report rebuilds, keeping each number's trace.
fn rebuild_steps(old: &Vec<StepSnapshot>, recs: &Vec<StepRunRecord>) -> (r: Vec<StepSnapshot>)
    ensures
        step_views(r@) == rebuilt(step_views(old@), crate::flexible::report::record_views(recs@)),
{
    let ghost rv = crate::flexible::report::record_views(recs@);
    let ghost target = rebuilt(step_views(old@), rv);
    let mut out: Vec<StepSnapshot> = Vec::new();
    let mut j: usize = 0;
    while j < recs.len()
        invariant
            j <= recs@.len(),
            rv == crate::flexible::report::record_views(recs@),
            target == rebuilt(step_views(old@), rv),
            out@.len() == j,
            forall|q: int| 0 <= q < j ==> #[trigger] step_views(out@)[q] == target[q],
        decreases recs@.len() - j,
    {
        let mut step = StepSnapshot::from_record(&recs[j]);
        if !number_taken(recs, j) {
            step.track = last_track_of(old, recs[j].index);
        } else {
            proof {
                assert(track_views(step.track@) =~= Seq::<TrackLineView>::empty());
            }
        }
        let ghost prev = out@;
        out.push(step);
        proof {
            assert forall|q: int| 0 <= q < j + 1 implies #[trigger] step_views(out@)[q] == target[q] by {
                if q < j {
                    assert(out@[q] == prev[q]);
                    assert(step_views(prev)[q] == target[q]);
                }
            }
        }
        j = j + 1;
    }
    proof {
        assert(step_views(out@) =~= target);
    }
    out
}

/// Whether an event can be folded into the snapshot: a tool call can still be
/// counted on every step that carries its number.
pub fn event_fits(snapshot: &RunSnapshot, event: &PlanRunEvent) -> (b: bool)
    ensures
        b == applicable(snapshot@, event@),
{
    match event {
        PlanRunEvent::StepToolCall { index, .. } => {
            let mut k: usize = 0;
            while k < snapshot.steps.len()
                invariant
                    k <= snapshot.steps@.len(),
                    event@ matches PlanRunEventView::StepToolCall { index: i, .. } && i == *index,
                    forall|q: int| 0 <= q < k && #[trigger] step_views(snapshot.steps@)[q].index == *index
                        ==> step_views(snapshot.steps@)[q].tool_calls < usize::MAX,
                decreases snapshot.steps@.len() - k,
            {
                if snapshot.steps[k].index == *index && snapshot.steps[k].tool_calls == usize::MAX {
                    proof {
                        assert(step_views(snapshot.steps@)[k as int] == snapshot.steps@[k as int]@);
                        assert(step_views(snapshot.steps@)[k as int].index == *index);
                        assert(step_views(snapshot.steps@)[k as int].tool_calls == usize::MAX);
                        assert(snapshot@.steps == step_views(snapshot.steps@));
                        assert(event@ matches PlanRunEventView::StepToolCall { index: i, .. } && i == *index);
                    }
                    return false;
                }
                proof {
                    assert(step_views(snapshot.steps@)[k as int] == snapshot.steps@[k as int]@);
                }
                k = k + 1;
            }
            true
        },
        _ => true,
    }
}

/// Folds one progress event into a snapshot; `now` stamps a final event.
pub fn apply_event_at(snapshot: &mut RunSnapshot, event: PlanRunEvent, now: u64)
    requires
        applicable(old(snapshot)@, event@),
    ensures
        final(snapshot)@ == applied(old(snapshot)@, event@, now),
{
    let ghost e = event@;
    match event {
        PlanRunEvent::RunStarted { total_steps } => {
            snapshot.total_steps = total_steps;
            snapshot.ensure_steps(total_steps);
        },
        PlanRunEvent::StepStarted { index, intent } => {
            snapshot.current_step = Some(index);
            let pos = snapshot.step_or_insert(index);
            let ghost before = snapshot.steps@;
            let mut step = snapshot.steps.remove(pos);
            step.intent = intent;
            step.phase = StepPhase::Running;
            snapshot.steps.insert(pos, step);
            proof {
                lemma_step_views_update(before, pos as int, step);
            }
        },
        PlanRunEvent::StepThought { index, round, text } => {
            let pos = snapshot.step_or_insert(index);
            let ghost before = snapshot.steps@;
            let mut step = snapshot.steps.remove(pos);
            let ghost t0 = step.track@;
            let line = StepTrackLine::Thought { text };
            let ghost lv = line;
            step.track.push(line);
            proof {
                lemma_track_push(t0, lv);
            }
            snapshot.steps.insert(pos, step);
            proof {
                lemma_step_views_update(before, pos as int, step);
            }
        },
        PlanRunEvent::StepToolCall { index, tool, args, ok } => {
            let ghost s0 = snapshot@;
            let pos = snapshot.step_or_insert(index);
            let ghost before = snapshot.steps@;
            proof {
                let p = padded(s0.steps, index as nat);
                lemma_first_numbered(p, index, 0);
                if first_numbered(p, index, 0) < p.len() {
                    assert(step_views(before) == p);
                    if (pos as int) < s0.steps.len() {
                        assert(p[pos as int] == s0.steps[pos as int]);
                        assert(s0.steps[pos as int].index == index);
                    } else {
                        assert(p[pos as int] == placeholder_view((pos + 1) as usize));
                    }
                } else {
                    lemma_first_above(p, index, 0);
                    assert(step_views(before) == p.insert(pos as int, placeholder_view(index)));
                    assert(step_views(before)[pos as int] == placeholder_view(index));
                }
                assert(step_views(before)[pos as int].tool_calls < usize::MAX);
                assert(before[pos as int].tool_calls < usize::MAX);
            }
            let mut step = snapshot.steps.remove(pos);
            step.tool_calls = step.tool_calls + 1;
            let ghost t0 = step.track@;
            let line = StepTrackLine::Tool { tool, args, ok };
            let ghost lv = line;
            step.track.push(line);
            proof {
                lemma_track_push(t0, lv);
            }
            snapshot.steps.insert(pos, step);
            proof {
                lemma_step_views_update(before, pos as int, step);
            }
        },
        PlanRunEvent::StepFinished { index, record } => {
            let pos = snapshot.step_or_insert(index);
            let ghost before = snapshot.steps@;
            let old_step = snapshot.steps.remove(pos);
            let mut step = StepSnapshot::from_record(&record);
            step.track = old_step.track;
            snapshot.steps.insert(pos, step);
            proof {
                lemma_step_views_update(before, pos as int, step);
            }
        },
        PlanRunEvent::RunFinished { report } => {
            snapshot.status = if report.success {
                RunStatus::Succeeded
            } else {
                RunStatus::Failed
            };
            if report.steps.len() > 0 {
                snapshot.total_steps = report.steps.len();
                let steps = rebuild_steps(&snapshot.steps, &report.steps);
                snapshot.steps = steps;
            }
            snapshot.report = Some(report);
            snapshot.finished_at_ms = Some(now);
        },
        PlanRunEvent::Failed { index, error } => {
            match index {
                Some(i) => {
                    let pos = snapshot.step_or_insert(i);
                    let ghost before = snapshot.steps@;
                    let mut step = snapshot.steps.remove(pos);
                    step.phase = StepPhase::Failed;
                    step.error = Some(error);
                    snapshot.steps.insert(pos, step);
                    proof {
                        lemma_step_views_update(before, pos as int, step);
                    }
                },
                None => {
                    snapshot.status = RunStatus::Failed;
                    snapshot.error = Some(error);
                    snapshot.finished_at_ms = Some(now);
                },
            }
        },
    }
}

/// Folds one progress event into a snapshot. A final event is stamped with
/// the time read from the clock; nothing else depends on it.
pub fn apply_event(snapshot: &mut RunSnapshot, event: PlanRunEvent)
    requires
        applicable(old(snapshot)@, event@),
    ensures
        exists|now: u64| final(snapshot)@ == #[trigger] applied(old(snapshot)@, event@, now),
{
    let now = now_ms();
    apply_event_at(snapshot, event, now);
}

} // verus!

verus! {

/// Whether the steps are numbered 1, 2, 3, … in order.
pub open spec fn numbered_in_order(steps: Seq<StepSnapshotView>) -> bool {
    forall|k: int| 0 <= k < steps.len() ==> #[trigger] steps[k].index == k + 1
}

/// Whether an event ends the run (a final report, or a failure of the run as a whole).
pub open spec fn is_final_event(e: PlanRunEventView) -> bool {
    match e {
        PlanRunEventView::RunFinished { .. } => true,
        PlanRunEventView::Failed { index: None, .. } => true,
        _ => false,
    }
}

/// An event never changes which session and which run a snapshot belongs to,
/// nor when the run started.
pub proof fn lemma_event_keeps_identity(s: RunSnapshotView, e: PlanRunEventView, now: u64)
    ensures
        applied(s, e, now).session_id == s.session_id,
        applied(s, e, now).run_id == s.run_id,
        applied(s, e, now).started_at_ms == s.started_at_ms,
{
}

/// Only a final event changes the run's status and its finish time; after one,
/// the run is over and stamped, and after a final report the report is kept.
pub proof fn lemma_event_status(s: RunSnapshotView, e: PlanRunEventView, now: u64)
    ensures
        is_final_event(e) ==> applied(s, e, now).status != RunStatus::Running
            && applied(s, e, now).finished_at_ms == Some(now),
        !is_final_event(e) ==> applied(s, e, now).status == s.status
            && applied(s, e, now).finished_at_ms == s.finished_at_ms
            && applied(s, e, now).report == s.report,
        e is RunFinished ==> applied(s, e, now).report == Some(e->report)
            && (applied(s, e, now).status == RunStatus::Succeeded) == e->report.success,
{
}

/// Padding keeps steps numbered in order, and only appends.
pub proof fn lemma_padded_in_order(steps: Seq<StepSnapshotView>, n: nat)
    requires
        numbered_in_order(steps),
        n <= usize::MAX,
    ensures
        numbered_in_order(padded(steps, n)),
        padded(steps, n).len() == if n > steps.len() { n } else { steps.len() },
        forall|k: int| 0 <= k < steps.len() ==> #[trigger] padded(steps, n)[k] == steps[k],
{
}

/// In steps numbered in order and long enough, step `index` is at `index - 1`.
proof fn lemma_first_numbered_in_order(steps: Seq<StepSnapshotView>, index: usize, k: nat)
    requires
        numbered_in_order(steps),
        1 <= index <= steps.len(),
        k <= index - 1,
    ensures
        first_numbered(steps, index, k) == index - 1,
    decreases index - 1 - k,
{
    if k < index - 1 {
        lemma_first_numbered_in_order(steps, index, k + 1);
    }
}

/// On steps numbered in order, looking up step `index` (from 1) pads the list
/// up to it and finds it at position `index - 1`.
pub proof fn lemma_touch_in_order(steps: Seq<StepSnapshotView>, index: usize)
    requires
        numbered_in_order(steps),
        1 <= index,
    ensures
        touched_steps(steps, index) == padded(steps, index as nat),
        touched_pos(steps, index) == index - 1,
        numbered_in_order(touched_steps(steps, index)),
{
    lemma_padded_in_order(steps, index as nat);
    lemma_first_numbered_in_order(padded(steps, index as nat), index, 0);
}

/// An event of one step (numbered from 1) keeps steps numbered in order,
/// changes no other step, never drops a step, sets the total to the larger
/// of the old total and the number of steps, leaves the run's status, end
/// time and report alone; a finished step keeps the trace it gathered.
pub proof fn lemma_step_event_in_order(s: RunSnapshotView, e: PlanRunEventView, now: u64)
    requires
        numbered_in_order(s.steps),
        s.steps.len() <= usize::MAX,
        match e {
            PlanRunEventView::StepStarted { index, .. } => index >= 1,
            PlanRunEventView::StepThought { index, .. } => index >= 1,
            PlanRunEventView::StepToolCall { index, .. } => index >= 1,
            PlanRunEventView::StepFinished { index, record } => index >= 1 && record.index == index,
            PlanRunEventView::Failed { index: Some(i), .. } => i >= 1,
            _ => false,
        },
    ensures
        ({
            let i: usize = match e {
                PlanRunEventView::StepStarted { index, .. } => index,
                PlanRunEventView::StepThought { index, .. } => index,
                PlanRunEventView::StepToolCall { index, .. } => index,
                PlanRunEventView::StepFinished { index, .. } => index,
                PlanRunEventView::Failed { index, .. } => index->0,
                _ => 0,
            };
            let r = applied(s, e, now);
            &&& numbered_in_order(r.steps)
            &&& r.steps.len() == if i > s.steps.len() { i as nat } else { s.steps.len() }
            &&& r.total_steps >= s.total_steps
            &&& r.total_steps >= r.steps.len()
            &&& r.total_steps == grown_total(s.total_steps, r.steps.len())
            &&& r.status == s.status
            &&& r.finished_at_ms == s.finished_at_ms
            &&& r.report == s.report
            &&& forall|k: int| 0 <= k < s.steps.len() && k != i - 1 ==> #[trigger] r.steps[k] == s.steps[k]
            &&& (e is StepFinished ==> r.steps[i - 1].track == padded(s.steps, i as nat)[i - 1].track)
        }),
{
    let i: usize = match e {
        PlanRunEventView::StepStarted { index, .. } => index,
        PlanRunEventView::StepThought { index, .. } => index,
        PlanRunEventView::StepToolCall { index, .. } => index,
        PlanRunEventView::StepFinished { index, .. } => index,
        PlanRunEventView::Failed { index, .. } => index->0,
        _ => 0,
    };
    lemma_touch_in_order(s.steps, i);
    lemma_padded_in_order(s.steps, i as nat);
    let t = touch(s, i);
    let r = applied(s, e, now);
    assert(t.steps == padded(s.steps, i as nat));
    assert(r.steps.len() == t.steps.len());
    assert(r.steps =~= t.steps.update(i - 1, r.steps[i - 1]));
    assert(r.steps[i - 1].index == i);
    assert forall|k: int| 0 <= k < r.steps.len() implies #[trigger] r.steps[k].index == k + 1 by {
        if k != i - 1 {
            assert(r.steps[k] == t.steps[k]);
        }
    }
    assert forall|k: int| 0 <= k < s.steps.len() && k != i - 1 implies #[trigger] r.steps[k] == s.steps[k] by {
        assert(r.steps[k] == t.steps[k]);
        assert(t.steps[k] == s.steps[k]);
    }
    assert(r.total_steps >= s.total_steps);
    assert(r.total_steps >= r.steps.len());
}

} // verus!
