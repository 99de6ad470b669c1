//! The service's decisions: whether a run may start, which number it gets,
//! and how an event coming back from a run changes the session's snapshot.
//!
//! The host runs the command loop, the executor tasks and the channels; it
//! asks these functions what to do at each step.

use vstd::prelude::*;

use crate::flexible::event::{PlanRunEvent, PlanRunEventView};
use super::state::{applicable, applied, apply_event_at, is_final_event};
use super::types::{now_ms, RunSnapshot, RunSnapshotView, RunStatus};

verus! {

/// Model of an optional snapshot.
pub open spec fn opt_snapshot(s: Option<RunSnapshot>) -> Option<RunSnapshotView> {
    match s {
        Some(x) => Some(x@),
        None => None,
    }
}

/// Whether an event ends the run.
pub fn is_terminal(event: &PlanRunEvent) -> (b: bool)
    ensures
        b == is_final_event(event@),
{
    match event {
        PlanRunEvent::RunFinished { .. } => true,
        PlanRunEvent::Failed { index: None, .. } => true,
        _ => false,
    }
}

/// Whether a session may start a run: not while a run of it is executing.
pub fn may_start(current: Option<&RunSnapshot>) -> (b: bool)
    ensures
        b == !(current.is_some() && current.unwrap().status == RunStatus::Running),
{
    match current {
        Some(snapshot) => !snapshot.is_running(),
        None => true,
    }
}

/// Numbering of runs: every start takes the next number, from 1.
pub struct RunIds {
    pub seq: u64,
}

impl RunIds {
    /// No run started yet.
    pub fn new() -> (r: RunIds)
        ensures
            r.seq == 0,
    {
        RunIds { seq: 0 }
    }

    /// The number of the next run.
    pub fn next_run_id(&mut self) -> (id: u64)
        requires
            old(self).seq < u64::MAX,
        ensures
            id == old(self).seq + 1,
            final(self).seq == id,
    {
        self.seq = self.seq + 1;
        self.seq
    }
}

/// The snapshot after an event of run `run_id` comes back.
///
/// - no snapshot (the session's state was removed): nothing;
/// - a snapshot of another run: unchanged (a late event of an earlier run);
/// - otherwise the event is folded in, and a run that ends while a stop was
///   requested is marked cancelled, unless it had already succeeded.
pub open spec fn merged(
    current: Option<RunSnapshotView>,
    run_id: u64,
    e: PlanRunEventView,
    cancelled: bool,
    now: u64,
) -> Option<RunSnapshotView> {
    match current {
        None => None,
        Some(s) => if s.run_id != run_id {
            Some(s)
        } else {
            let a = applied(s, e, now);
            if is_final_event(e) && cancelled && a.status != RunStatus::Succeeded {
                Some(RunSnapshotView { status: RunStatus::Cancelled, ..a })
            } else {
                Some(a)
            }
        },
    }
}

/// Whether an event of run `run_id` is taken up by the current snapshot.
pub open spec fn accepted_by(current: Option<RunSnapshotView>, run_id: u64) -> bool {
    current is Some && current->0.run_id == run_id
}

/// What an event needs of the snapshot it is folded into.
pub open spec fn merge_applicable(current: Option<RunSnapshotView>, run_id: u64, e: PlanRunEventView) -> bool {
    accepted_by(current, run_id) ==> applicable(current->0, e)
}

/// Folds an event of run `run_id` into the current snapshot; `cancelled` tells
/// whether a stop was requested, `now` stamps a final event. Returns the new
/// snapshot and whether the event was taken up.
pub fn merge_event_at(
    current: Option<RunSnapshot>,
    run_id: u64,
    event: PlanRunEvent,
    cancelled: bool,
    now: u64,
) -> (r: (Option<RunSnapshot>, bool))
    requires
        merge_applicable(opt_snapshot(current), run_id, event@),
    ensures
        opt_snapshot(r.0) == merged(opt_snapshot(current), run_id, event@, cancelled, now),
        r.1 == accepted_by(opt_snapshot(current), run_id),
{
    match current {
        None => (None, false),
        Some(mut snapshot) => {
            if snapshot.run_id != run_id {
                return (Some(snapshot), false);
            }
            let terminal = is_terminal(&event);
            apply_event_at(&mut snapshot, event, now);
            if terminal && cancelled && snapshot.status != RunStatus::Succeeded {
                snapshot.status = RunStatus::Cancelled;
            }
            (Some(snapshot), true)
        },
    }
}

/// Folds an event of run `run_id` into the current snapshot, stamping a final
/// event with the time read from the clock.
pub fn merge_event(current: Option<RunSnapshot>, run_id: u64, event: PlanRunEvent, cancelled: bool) -> (r: (
    Option<RunSnapshot>,
    bool,
))
    requires
        merge_applicable(opt_snapshot(current), run_id, event@),
    ensures
        exists|now: u64|
            opt_snapshot(r.0) == #[trigger] merged(opt_snapshot(current), run_id, event@, cancelled, now),
        r.1 == accepted_by(opt_snapshot(current), run_id),
{
    let now = now_ms();
    merge_event_at(current, run_id, event, cancelled, now)
}

/// Whether the stop channel of a session is to be cleared after an event:
/// only when the event ended the run it belongs to (a late final event of an
/// earlier run must not clear the stop channel of the new one).
pub fn clears_cancel(terminal: bool, accepted: bool) -> (b: bool)
    ensures
        b == (terminal && accepted),
{
    terminal && accepted
}

/// Whether a run that left with an error still shows as running, so that a
/// failure must be sent for it (otherwise the session would stay locked).
pub fn still_running(current: Option<&RunSnapshot>, run_id: u64) -> (b: bool)
    ensures
        b == (current.is_some() && current.unwrap().status == RunStatus::Running
            && current.unwrap().run_id == run_id),
{
    match current {
        Some(snapshot) => snapshot.is_running() && snapshot.run_id == run_id,
        None => false,
    }
}

/// A late event of another run changes nothing and is not taken up; an event
/// for a session without state creates none.
pub proof fn lemma_stale_event_ignored(
    current: Option<RunSnapshotView>,
    run_id: u64,
    e: PlanRunEventView,
    cancelled: bool,
    now: u64,
)
    requires
        !accepted_by(current, run_id),
    ensures
        merged(current, run_id, e, cancelled, now) == current,
{
}

/// A run that succeeded is never turned into a cancelled one, and a run that
/// ends while a stop was requested and did not succeed shows as cancelled.
pub proof fn lemma_cancel_never_overrides_success(
    s: RunSnapshotView,
    e: PlanRunEventView,
    cancelled: bool,
    now: u64,
)
    ensures
        applied(s, e, now).status == RunStatus::Succeeded ==> merged(Some(s), s.run_id, e, cancelled, now)->0.status
            == RunStatus::Succeeded,
        is_final_event(e) && cancelled && applied(s, e, now).status != RunStatus::Succeeded ==> merged(
            Some(s),
            s.run_id,
            e,
            cancelled,
            now,
        )->0.status == RunStatus::Cancelled,
        !cancelled ==> merged(Some(s), s.run_id, e, cancelled, now) == Some(applied(s, e, now)),
{
}

} // verus!
