//! The plan run: steps in order, earlier outputs handed to the steps that
//! depend on them, skipping after a failure or a stop, and the final result.
//!
//! The host runs each step (see [`crate::flexible::step`]) and sends the
//! events; [`PlanRun`] decides what each step does and keeps the records.

use vstd::prelude::*;

use crate::flexible::event::{PlanRunEvent, PlanRunEventView};
use crate::flexible::output_schema::{parsed_as, schema_failure, OutputSchema};
use crate::flexible::params::{render_step_intent, step_intent_failure, texts_of, PlanRunParams};
use crate::flexible::placeholder::{render_failure_text, render_spec};
use crate::flexible::prompt::{build_output_contract_text, contract_text};
use crate::flexible::report::{
    copy_opt, record_views, CallUsage, PlanRunReport, PlanRunReportView, StepRunRecord,
    StepRunRecordView, StepStatus,
};
use crate::flexible::step::StepRunResult;
use crate::flexible::template::{FlexiblePlanTemplate, PlanStep};
use crate::json::JsonValue;
use crate::named_map::NamedMap;
use crate::text::opt_text;

verus! {

/// Result reference of the result-resolving step (not a template step).
pub const RESOLVE_RESULT_REFERENCE: &'static str = "#RESULT";

/// Intent of the result-resolving step.
pub const RESOLVE_INTENT: &'static str = "按输出契约整理本次执行的最终结果";

/// The texts of an output table.
pub open spec fn output_texts(m: Map<Seq<char>, String>) -> Map<Seq<char>, Seq<char>> {
    m.map_values(|s: String| s@)
}

/// Models of pairs of texts.
pub open spec fn pair_views(v: Seq<(String, String)>) -> Seq<(Seq<char>, Seq<char>)> {
    v.map_values(|p: (String, String)| (p.0@, p.1@))
}

/// The outputs a step gets: for each dependency, in order, its output when it
/// produced one.
pub open spec fn prior_of(deps: Seq<String>, outputs: Map<Seq<char>, Seq<char>>) -> Seq<
    (Seq<char>, Seq<char>),
>
    decreases deps.len(),
{
    if deps.len() == 0 {
        Seq::empty()
    } else {
        let rest = prior_of(deps.drop_last(), outputs);
        if outputs.contains_key(deps.last()@) {
            rest.push((deps.last()@, outputs[deps.last()@]))
        } else {
            rest
        }
    }
}

/// Whether a step before has not completed.
pub open spec fn blocked(records: Seq<StepRunRecordView>) -> bool {
    exists|k: int| 0 <= k < records.len() && #[trigger] records[k].status != StepStatus::Done
}

/// Once a step did not complete, the run stays blocked whatever records
/// follow: every later template step is skipped.
pub proof fn lemma_blocked_stays(records: Seq<StepRunRecordView>, more: Seq<StepRunRecordView>)
    requires
        blocked(records),
    ensures
        blocked(records + more),
{
    let k = choose|k: int| 0 <= k < records.len() && #[trigger] records[k].status != StepStatus::Done;
    assert((records + more)[k] == records[k]);
}

/// Whether the records are numbered 1, 2, ... in run order.
pub open spec fn numbered(records: Seq<StepRunRecordView>) -> bool {
    forall|k: int| 0 <= k < records.len() ==> #[trigger] records[k].index == k + 1
}

/// Whether every record after one that did not complete is a skipped step.
pub open spec fn skipped_after_miss(records: Seq<StepRunRecordView>) -> bool {
    forall|i: int, j: int|
        #![trigger records[i], records[j]]
        0 <= i < j < records.len() && records[i].status != StepStatus::Done ==> records[j].status
            == StepStatus::Skipped
}

/// Whether the first `n` records all completed.
pub open spec fn first_done(records: Seq<StepRunRecordView>, n: int) -> bool {
    forall|k: int| 0 <= k < n ==> #[trigger] records[k].status == StepStatus::Done
}

/// The record of a step that did not run (skipped, or its intent could not be expanded).
pub open spec fn placeholder_record_view(
    index: usize,
    step: PlanStep,
    status: StepStatus,
    error: Option<Seq<char>>,
) -> StepRunRecordView {
    StepRunRecordView {
        index,
        result_reference: step.result_reference@,
        intent: step.intent@,
        expected_output: step.expected_output@,
        status,
        duration_ms: 0,
        prompt_tokens: 0,
        completion_tokens: 0,
        tool_calls: 0,
        rounds: 0,
        call_usages: Seq::empty(),
        output_summary: None,
        output: None,
        output_truncated: false,
        error,
    }
}

/// The record of a result step that could not run because the contract is invalid.
pub open spec fn resolve_failed_view(index: usize, error: Seq<char>) -> StepRunRecordView {
    StepRunRecordView {
        index,
        result_reference: "#RESULT"@,
        intent: "按输出契约整理本次执行的最终结果"@,
        expected_output: "（输出契约非法，未执行整理）"@,
        status: StepStatus::Failed,
        duration_ms: 0,
        prompt_tokens: 0,
        completion_tokens: 0,
        tool_calls: 0,
        rounds: 0,
        call_usages: Seq::empty(),
        output_summary: None,
        output: None,
        output_truncated: false,
        error: Some(error),
    }
}

/// The record of a step that did not run.
pub fn placeholder_record(index: usize, step: &PlanStep, status: StepStatus, error: Option<&str>) -> (r:
    StepRunRecord)
    ensures
        r@ == placeholder_record_view(
            index,
            *step,
            status,
            match error {
                Some(e) => Some(e@),
                None => None,
            },
        ),
{
    let r = StepRunRecord {
        index,
        result_reference: step.result_reference.clone(),
        intent: step.intent.clone(),
        expected_output: step.expected_output.clone(),
        status,
        duration_ms: 0,
        prompt_tokens: 0,
        completion_tokens: 0,
        tool_calls: 0,
        rounds: 0,
        call_usages: Vec::new(),
        output_summary: None,
        output: None,
        output_truncated: false,
        error: match error {
            Some(e) => Some(e.to_owned()),
            None => None,
        },
    };
    proof {
        assert(r.call_usages@ =~= Seq::<CallUsage>::empty());
    }
    r
}

/// The record of a result step that could not run because the contract is invalid.
pub fn resolve_failed_record(index: usize, error: String) -> (r: StepRunRecord)
    ensures
        r@ == resolve_failed_view(index, error@),
{
    let r = StepRunRecord {
        index,
        result_reference: "#RESULT".to_owned(),
        intent: "按输出契约整理本次执行的最终结果".to_owned(),
        expected_output: "（输出契约非法，未执行整理）".to_owned(),
        status: StepStatus::Failed,
        duration_ms: 0,
        prompt_tokens: 0,
        completion_tokens: 0,
        tool_calls: 0,
        rounds: 0,
        call_usages: Vec::new(),
        output_summary: None,
        output: None,
        output_truncated: false,
        error: Some(error),
    };
    proof {
        assert(r.call_usages@ =~= Seq::<CallUsage>::empty());
    }
    r
}

/// The outputs of a step's dependencies that produced one, in dependency order.
pub fn collect_prior(step: &PlanStep, outputs: &NamedMap<String>) -> (r: Vec<(String, String)>)
    ensures
        pair_views(r@) == prior_of(step.dependencies@, output_texts(outputs@)),
{
    let deps = &step.dependencies;
    let mut r: Vec<(String, String)> = Vec::new();
    let mut i: usize = 0;
    while i < deps.len()
        invariant
            i <= deps@.len(),
            pair_views(r@) == prior_of(deps@.take(i as int), output_texts(outputs@)),
        decreases deps@.len() - i,
    {
        proof {
            assert(deps@.take(i + 1).drop_last() =~= deps@.take(i as int));
            assert(deps@.take(i + 1).last() == deps@[i as int]);
        }
        match outputs.get(&deps[i]) {
            Some(output) => {
                let ghost before = r@;
                r.push((deps[i].clone(), output.clone()));
                proof {
                    assert(pair_views(r@) =~= pair_views(before).push((deps@[i as int]@, output@)));
                }
            },
            None => {},
        }
        i = i + 1;
    }
    proof {
        assert(deps@.take(deps@.len() as int) =~= deps@);
    }
    r
}

/// Whether a dependency produced an output.
pub open spec fn produced(outputs: Map<Seq<char>, Seq<char>>) -> spec_fn(String) -> bool {
    |d: String| outputs.contains_key(d@)
}

/// A dependency with its output.
pub open spec fn with_output(outputs: Map<Seq<char>, Seq<char>>) -> spec_fn(String) -> (Seq<char>, Seq<char>) {
    |d: String| (d@, outputs[d@])
}

/// Law: a step is handed exactly its dependencies that produced an output,
/// each with that output, in dependency order: the dependencies kept by
/// "produced an output", each paired with its output. So every such
/// dependency is there, nothing else is, and there are as many entries as
/// dependencies with an output.
pub proof fn lemma_prior_is_produced_dependencies(deps: Seq<String>, outputs: Map<Seq<char>, Seq<char>>)
    ensures
        prior_of(deps, outputs) == deps.filter(produced(outputs)).map_values(with_output(outputs)),
        prior_of(deps, outputs).len() == deps.filter(produced(outputs)).len(),
        forall|k: int|
            0 <= k < deps.len() && outputs.contains_key(#[trigger] deps[k]@) ==> prior_of(deps, outputs).contains(
                (deps[k]@, outputs[deps[k]@]),
            ),
        forall|j: int|
            0 <= j < prior_of(deps, outputs).len() ==> outputs.contains_key(#[trigger] prior_of(deps, outputs)[j].0)
                && prior_of(deps, outputs)[j].1 == outputs[prior_of(deps, outputs)[j].0],
    decreases deps.len(),
{
    let p = produced(outputs);
    let f = with_output(outputs);
    if deps.len() == 0 {
        reveal(Seq::filter);
        assert(deps.filter(p).map_values(f) =~= Seq::empty());
    } else {
        let t = deps.drop_last();
        lemma_prior_is_produced_dependencies(t, outputs);
        assert(t.push(deps.last()) =~= deps);
        t.lemma_filter_push(deps.last(), p);
        if p(deps.last()) {
            assert(t.filter(p).push(deps.last()).map_values(f) =~= t.filter(p).map_values(f).push(f(deps.last())));
        }
    }
    let out = deps.filter(p).map_values(f);
    assert forall|k: int|
        0 <= k < deps.len() && outputs.contains_key(#[trigger] deps[k]@) implies prior_of(deps, outputs).contains(
            (deps[k]@, outputs[deps[k]@]),
        ) by {
        deps.lemma_filter_contains(p, k);
        let j = choose|j: int| 0 <= j < deps.filter(p).len() && deps.filter(p)[j] == deps[k];
        assert(out[j] == f(deps[k]));
    }
    assert forall|j: int| 0 <= j < prior_of(deps, outputs).len() implies outputs.contains_key(
        #[trigger] prior_of(deps, outputs)[j].0,
    ) && prior_of(deps, outputs)[j].1 == outputs[prior_of(deps, outputs)[j].0] by {
        deps.lemma_filter_pred(p, j);
        assert(out[j] == f(deps.filter(p)[j]));
    }
}

/// The deliverable output: that of the last of the first `n` steps that produced one.
pub open spec fn deliverable_from(steps: Seq<PlanStep>, n: int, outputs: Map<Seq<char>, Seq<char>>) -> Option<
    (Seq<char>, Seq<char>),
>
    decreases n,
{
    if n <= 0 {
        None
    } else if outputs.contains_key(steps[n - 1].result_reference@) {
        Some((steps[n - 1].result_reference@, outputs[steps[n - 1].result_reference@]))
    } else {
        deliverable_from(steps, n - 1, outputs)
    }
}

/// Law: the deliverable output is that of the last of the first `n` steps
/// that produced one: when there is one, it is some step `k < n` with an
/// output, paired with that output, and no later step before `n` produced
/// one; there is none exactly when none of them produced an output.
pub proof fn lemma_deliverable_is_last_output(steps: Seq<PlanStep>, n: int, outputs: Map<Seq<char>, Seq<char>>)
    requires
        n <= steps.len(),
    ensures
        match deliverable_from(steps, n, outputs) {
            Some(d) => exists|k: int|
                0 <= k < n && #[trigger] steps[k].result_reference@ == d.0 && outputs.contains_key(d.0) && d.1
                    == outputs[d.0] && forall|j: int|
                    k < j < n ==> !outputs.contains_key(#[trigger] steps[j].result_reference@),
            None => forall|j: int| 0 <= j < n ==> !outputs.contains_key(#[trigger] steps[j].result_reference@),
        },
    decreases n,
{
    if n > 0 && !outputs.contains_key(steps[n - 1].result_reference@) {
        lemma_deliverable_is_last_output(steps, n - 1, outputs);
        match deliverable_from(steps, n - 1, outputs) {
            Some(d) => {
                let k = choose|k: int|
                    0 <= k < n - 1 && #[trigger] steps[k].result_reference@ == d.0 && outputs.contains_key(d.0)
                        && d.1 == outputs[d.0] && forall|j: int|
                        k < j < n - 1 ==> !outputs.contains_key(#[trigger] steps[j].result_reference@);
                assert(forall|j: int| k < j < n ==> !outputs.contains_key(
                    #[trigger] steps[j].result_reference@,
                ));
            },
            None => {},
        }
    }
}

/// The deliverable output of a template: that of its last step that produced one.
pub fn deliverable_output(template: &FlexiblePlanTemplate, outputs: &NamedMap<String>) -> (r: Option<
    (String, String),
>)
    ensures
        match deliverable_from(template.steps@, template.steps@.len() as int, output_texts(outputs@)) {
            Some(p) => r matches Some(q) && q.0@ == p.0 && q.1@ == p.1,
            None => r is None,
        },
{
    let mut n: usize = template.steps.len();
    while n > 0
        invariant
            n <= template.steps@.len(),
            deliverable_from(template.steps@, template.steps@.len() as int, output_texts(outputs@))
                == deliverable_from(template.steps@, n as int, output_texts(outputs@)),
        decreases n,
    {
        let step = &template.steps[n - 1];
        match outputs.get(&step.result_reference) {
            Some(output) => {
                return Some((step.result_reference.clone(), output.clone()));
            },
            None => {},
        }
        n = n - 1;
    }
    None
}

/// A record pushed with the next number keeps the numbering; one pushed
/// after a step that did not complete must be a skipped one to keep every
/// record after a miss skipped.
proof fn lemma_push_keeps(records: Seq<StepRunRecordView>, r: StepRunRecordView)
    requires
        numbered(records),
        skipped_after_miss(records),
        r.index == records.len() + 1,
        blocked(records) ==> r.status == StepStatus::Skipped,
    ensures
        numbered(records.push(r)),
        skipped_after_miss(records.push(r)),
{
    let s = records.push(r);
    assert forall|k: int| 0 <= k < s.len() implies #[trigger] s[k].index == k + 1 by {
        if k < records.len() {
            assert(s[k] == records[k]);
        }
    }
    assert forall|i: int, j: int|
        #![trigger s[i], s[j]]
        0 <= i < j < s.len() && s[i].status != StepStatus::Done implies s[j].status
            == StepStatus::Skipped by {
        assert(s[i] == records[i]);
        if j < records.len() {
            assert(s[j] == records[j]);
        } else {
            assert(records[i].status != StepStatus::Done);
            assert(blocked(records));
        }
    }
}

/// What a template step does.
#[derive(Debug)]
pub enum StepPlan {
    /// It is skipped (its record was added).
    Skipped,
    /// Its intent could not be expanded: it failed (its record was added); the
    /// event is to be sent.
    Failed { event: PlanRunEvent },
    /// It runs with its expanded intent and the outputs it depends on; the
    /// event is to be sent first.
    Run { intent: String, prior: Vec<(String, String)>, event: PlanRunEvent },
}

/// The run of a plan: the records so far and the outputs produced.
#[derive(Debug)]
pub struct PlanRun {
    /// Records of the steps so far, in run order.
    pub records: Vec<StepRunRecord>,
    /// Outputs of the steps that produced one, by result reference.
    pub outputs: NamedMap<String>,
    /// Whether the template's steps succeeded, once they are all over.
    pub success: Option<bool>,
    /// The final result, once obtained (only after the steps succeeded).
    pub result: Option<String>,
    /// Number of template steps, once they are all over (0 before).
    pub step_count: usize,
}

/// Text of a step skipped because the user stopped the run.
pub open spec fn skip_cancelled_text() -> Seq<char> {
    "用户取消"@
}

/// Text of a step skipped because an earlier step did not complete.
pub open spec fn skip_blocked_text() -> Seq<char> {
    "前序步骤失败"@
}

impl PlanRun {
    /// A run before its first step.
    pub fn new() -> (r: PlanRun)
        ensures
            r.wf(),
            r.records@.len() == 0,
            r.outputs@ == Map::<Seq<char>, String>::empty(),
            r.success is None,
            r.result is None,
    {
        let r = PlanRun {
            records: Vec::new(),
            outputs: NamedMap::new(),
            success: None,
            result: None,
            step_count: 0,
        };
        proof {
            assert(record_views(r.records@) =~= Seq::<StepRunRecordView>::empty());
        }
        r
    }

    /// The run holds together: records numbered from 1 in run order; after a
    /// step that did not complete every later one skipped; once the template
    /// steps are over, success means at least one of them and all of them
    /// done, and at most one record (the result step's, only on success)
    /// follows them; a result only on success.
    pub open spec fn wf(&self) -> bool {
        let rv = record_views(self.records@);
        &&& numbered(rv)
        &&& skipped_after_miss(rv)
        &&& match self.success {
            None => self.result is None,
            Some(b) => {
                &&& self.step_count <= rv.len() <= self.step_count + 1
                &&& b == (self.step_count > 0 && first_done(rv, self.step_count as int))
                &&& rv.len() == self.step_count + 1 ==> b
            },
        }
        &&& self.result is Some ==> self.success == Some(true)
    }

    /// The template's steps are over (one record each): whether they
    /// succeeded (at least one step, and every step done) is settled before
    /// a result step can be added, which does not change it.
    pub fn close_steps(&mut self, template: &FlexiblePlanTemplate) -> (b: bool)
        requires
            old(self).wf(),
            old(self).success is None,
            old(self).records@.len() == template.steps@.len(),
        ensures
            final(self).wf(),
            b == (old(self).records@.len() > 0 && !blocked(record_views(old(self).records@))),
            final(self).success == Some(b),
            final(self).step_count == template.steps@.len(),
            final(self).result is None,
            final(self).records == old(self).records,
            final(self).outputs == old(self).outputs,
    {
        let b = self.succeeded();
        self.success = Some(b);
        self.step_count = self.records.len();
        b
    }

    /// Whether a step so far has not completed.
    fn any_not_done(&self) -> (b: bool)
        ensures
            b == blocked(record_views(self.records@)),
    {
        let ghost rv = record_views(self.records@);
        let mut k: usize = 0;
        while k < self.records.len()
            invariant
                k <= self.records@.len(),
                rv == record_views(self.records@),
                forall|q: int| 0 <= q < k ==> #[trigger] rv[q].status == StepStatus::Done,
            decreases self.records@.len() - k,
        {
            if self.records[k].status != StepStatus::Done {
                proof {
                    assert(rv[k as int].status != StepStatus::Done);
                }
                return true;
            }
            k = k + 1;
        }
        false
    }

    /// Decides what template step `index` (from 1) does:
    /// - after a stop, or once an earlier step did not complete, it is skipped;
    /// - when its intent cannot be expanded with the run's values, it fails;
    /// - otherwise it runs, given its expanded intent and its dependencies' outputs.
    pub fn plan_step(&mut self, step: &PlanStep, index: usize, params: &PlanRunParams, cancelled: bool) -> (p:
        StepPlan)
        requires
            old(self).wf(),
            old(self).success is None,
            index == old(self).records@.len() + 1,
        ensures
            final(self).wf(),
            final(self).step_count == old(self).step_count,
            final(self).outputs@ == old(self).outputs@,
            final(self).success == old(self).success,
            final(self).result == old(self).result,
            cancelled || blocked(record_views(old(self).records@)) ==> {
                &&& p is Skipped
                &&& record_views(final(self).records@) == record_views(old(self).records@).push(
                    placeholder_record_view(
                        index,
                        *step,
                        StepStatus::Skipped,
                        Some(if cancelled { skip_cancelled_text() } else { skip_blocked_text() }),
                    ),
                )
            },
            !(cancelled || blocked(record_views(old(self).records@))) ==> match render_spec(
                step.intent@,
                texts_of(params@),
            ) {
                Err(f) => {
                    let message = step_intent_failure(*step, render_failure_text(step.intent@, f));
                    &&& p matches StepPlan::Failed { event } && event@ == (PlanRunEventView::Failed {
                        index: Some(index),
                        error: message,
                    })
                    &&& record_views(final(self).records@) == record_views(old(self).records@).push(
                        placeholder_record_view(index, *step, StepStatus::Failed, Some(message)),
                    )
                },
                Ok(t) => {
                    &&& p matches StepPlan::Run { intent, prior, event } && intent@ == t
                        && pair_views(prior@) == prior_of(step.dependencies@, output_texts(old(self).outputs@))
                        && event@ == (PlanRunEventView::StepStarted { index, intent: t })
                    &&& record_views(final(self).records@) == record_views(old(self).records@)
                },
            },
    {
        let blocked_earlier = self.any_not_done();
        if cancelled || blocked_earlier {
            let reason = if cancelled {
                "用户取消"
            } else {
                "前序步骤失败"
            };
            let ghost before = self.records@;
            self.records.push(placeholder_record(index, step, StepStatus::Skipped, Some(reason)));
            proof {
                assert(record_views(self.records@) =~= record_views(before).push(
                    self.records@.last()@,
                ));
                lemma_push_keeps(record_views(before), self.records@.last()@);
            }
            return StepPlan::Skipped;
        }
        match render_step_intent(step, params) {
            Ok(intent) => {
                let prior = collect_prior(step, &self.outputs);
                let event = PlanRunEvent::StepStarted { index, intent: intent.clone() };
                StepPlan::Run { intent, prior, event }
            },
            Err(message) => {
                let ghost before = self.records@;
                self.records.push(placeholder_record(index, step, StepStatus::Failed, Some(message.as_str())));
                proof {
                    assert(record_views(self.records@) =~= record_views(before).push(
                        self.records@.last()@,
                    ));
                    lemma_push_keeps(record_views(before), self.records@.last()@);
                }
                StepPlan::Failed { event: PlanRunEvent::Failed { index: Some(index), error: message } }
            },
        }
    }

    /// A step finished: its output (when it produced one) is kept under its
    /// result reference, its record is added; returns the event to send.
    pub fn step_done(&mut self, step: &PlanStep, index: usize, result: StepRunResult) -> (e: PlanRunEvent)
        requires
            old(self).wf(),
            old(self).success is None,
            !blocked(record_views(old(self).records@)),
            result.record@.index == old(self).records@.len() + 1,
        ensures
            final(self).wf(),
            final(self).step_count == old(self).step_count,
            final(self).success == old(self).success,
            final(self).result == old(self).result,
            record_views(final(self).records@) == record_views(old(self).records@).push(result.record@),
            final(self).outputs@ == match result.output {
                Some(o) => old(self).outputs@.insert(step.result_reference@, o),
                None => old(self).outputs@,
            },
            e@ == (PlanRunEventView::StepFinished { index, record: result.record@ }),
    {
        let StepRunResult { record, output } = result;
        match output {
            Some(o) => {
                self.outputs.insert(step.result_reference.clone(), o);
            },
            None => {},
        }
        let event = PlanRunEvent::StepFinished { index, record: record.duplicate() };
        let ghost before = self.records@;
        self.records.push(record);
        proof {
            assert(record_views(self.records@) =~= record_views(before).push(record@));
            lemma_push_keeps(record_views(before), record@);
        }
        event
    }

    /// Whether the run succeeded: at least one step, and every step done.
    pub fn succeeded(&self) -> (b: bool)
        ensures
            b == (self.records@.len() > 0 && !blocked(record_views(self.records@))),
    {
        self.records.len() > 0 && !self.any_not_done()
    }
}

} // verus!

verus! {

/// The output summaries of the records so far, each labelled with its step's reference.
pub open spec fn summary_pairs(records: Seq<StepRunRecordView>) -> Seq<(Seq<char>, Seq<char>)>
    decreases records.len(),
{
    if records.len() == 0 {
        Seq::empty()
    } else {
        let rest = summary_pairs(records.drop_last());
        match records.last().output_summary {
            Some(s) => rest.push((records.last().result_reference + " 的输出摘要"@, s)),
            None => rest,
        }
    }
}

/// Whether a record carries an output summary.
pub open spec fn has_summary() -> spec_fn(StepRunRecordView) -> bool {
    |r: StepRunRecordView| r.output_summary is Some
}

/// A record's summary, labelled `<reference> 的输出摘要`.
pub open spec fn labelled_summary() -> spec_fn(StepRunRecordView) -> (Seq<char>, Seq<char>) {
    |r: StepRunRecordView| (r.result_reference + " 的输出摘要"@, r.output_summary->0)
}

/// Law: the summaries handed to the result step are exactly those of the
/// records that have one, in run order, each labelled with its record's
/// reference; so there are as many as records with a summary, and each such
/// record's labelled summary is among them.
pub proof fn lemma_summaries_cover_records(records: Seq<StepRunRecordView>)
    ensures
        summary_pairs(records) == records.filter(has_summary()).map_values(labelled_summary()),
        summary_pairs(records).len() == records.filter(has_summary()).len(),
        forall|k: int|
            0 <= k < records.len() && (#[trigger] records[k]).output_summary is Some ==> summary_pairs(
                records,
            ).contains((records[k].result_reference + " 的输出摘要"@, records[k].output_summary->0)),
    decreases records.len(),
{
    let p = has_summary();
    let f = labelled_summary();
    if records.len() == 0 {
        reveal(Seq::filter);
        assert(records.filter(p).map_values(f) =~= Seq::empty());
    } else {
        let t = records.drop_last();
        lemma_summaries_cover_records(t);
        assert(t.push(records.last()) =~= records);
        t.lemma_filter_push(records.last(), p);
        if p(records.last()) {
            assert(t.filter(p).push(records.last()).map_values(f) =~= t.filter(p).map_values(f).push(
                f(records.last()),
            ));
        }
    }
    let out = records.filter(p).map_values(f);
    assert forall|k: int|
        0 <= k < records.len() && (#[trigger] records[k]).output_summary is Some implies summary_pairs(
            records,
        ).contains((records[k].result_reference + " 的输出摘要"@, records[k].output_summary->0)) by {
        records.lemma_filter_contains(p, k);
        let j = choose|j: int| 0 <= j < records.filter(p).len() && records.filter(p)[j] == records[k];
        assert(out[j] == f(records[k]));
    }
}

/// The contract text with the run's values put in; the text as written when
/// that fails.
pub open spec fn rendered_contract(text: Seq<char>, values: Map<Seq<char>, Seq<char>>) -> Seq<char> {
    match render_spec(text, values) {
        Ok(t) => t,
        Err(_) => text,
    }
}

/// How the final result is obtained.
#[derive(Debug)]
pub enum ResultPlan {
    /// Known without a result step.
    Ready { result: Option<String> },
    /// The contract is invalid: a failed result step was recorded (the run's
    /// success is not affected); the event is to be sent; there is no result.
    Invalid { event: PlanRunEvent },
    /// The result step runs (with the resolving prompt and no tools): step
    /// `index`, given the deliverable output and the summaries; the event is
    /// to be sent first.
    Run { index: usize, step: PlanStep, prior: Vec<(String, String)>, event: PlanRunEvent },
}

/// Sum of the prompt tokens of records.
pub open spec fn records_prompt(r: Seq<StepRunRecordView>) -> nat
    decreases r.len(),
{
    if r.len() == 0 {
        0
    } else {
        records_prompt(r.drop_last()) + r.last().prompt_tokens as nat
    }
}

/// Sum of the completion tokens of records.
pub open spec fn records_completion(r: Seq<StepRunRecordView>) -> nat
    decreases r.len(),
{
    if r.len() == 0 {
        0
    } else {
        records_completion(r.drop_last()) + r.last().completion_tokens as nat
    }
}

/// Sum of the tool calls of records.
pub open spec fn records_tool_calls(r: Seq<StepRunRecordView>) -> nat
    decreases r.len(),
{
    if r.len() == 0 {
        0
    } else {
        records_tool_calls(r.drop_last()) + r.last().tool_calls as nat
    }
}

/// Sums over a prefix are at most the sums over the whole.
pub proof fn lemma_record_sums_grow(r: Seq<StepRunRecordView>, i: int)
    requires
        0 <= i <= r.len(),
    ensures
        records_prompt(r.take(i)) <= records_prompt(r),
        records_completion(r.take(i)) <= records_completion(r),
        records_tool_calls(r.take(i)) <= records_tool_calls(r),
    decreases r.len() - i,
{
    if i < r.len() {
        lemma_record_sums_grow(r, i + 1);
        assert(r.take(i + 1).drop_last() =~= r.take(i));
    } else {
        assert(r.take(i) =~= r);
    }
}

impl PlanRun {
    /// The labelled summaries of the records so far.
    fn summaries(&self) -> (r: Vec<(String, String)>)
        ensures
            pair_views(r@) == summary_pairs(record_views(self.records@)),
    {
        let ghost rv = record_views(self.records@);
        let mut r: Vec<(String, String)> = Vec::new();
        let mut i: usize = 0;
        while i < self.records.len()
            invariant
                i <= self.records@.len(),
                rv == record_views(self.records@),
                pair_views(r@) == summary_pairs(rv.take(i as int)),
            decreases self.records@.len() - i,
        {
            proof {
                assert(rv.take(i + 1).drop_last() =~= rv.take(i as int));
                assert(rv.take(i + 1).last() == self.records@[i as int]@);
            }
            let record = &self.records[i];
            match &record.output_summary {
                Some(summary) => {
                    let mut label = record.result_reference.clone();
                    label.append(" 的输出摘要");
                    let ghost before = r@;
                    r.push((label, summary.clone()));
                    proof {
                        assert(pair_views(r@) =~= pair_views(before).push((label@, summary@)));
                    }
                },
                None => {},
            }
            i = i + 1;
        }
        proof {
            assert(rv.take(rv.len() as int) =~= rv);
        }
        r
    }

    /// Decides how the final result is obtained once every template step succeeded:
    /// - without a contract, the deliverable output (that of the last step that
    ///   produced one) is the result;
    /// - an invalid contract records a failed result step and gives no result;
    /// - without a deliverable output there is no result;
    /// - otherwise a result step runs, asked for the contract (with the run's
    ///   values put in) and given the deliverable output and the step summaries.
    pub fn plan_result(&mut self, template: &FlexiblePlanTemplate, params: &PlanRunParams) -> (p:
        ResultPlan)
        requires
            old(self).wf(),
            old(self).records@.len() < usize::MAX,
            old(self).success == Some(true),
            old(self).records@.len() == old(self).step_count,
            old(self).result is None,
        ensures
            final(self).wf(),
            final(self).step_count == old(self).step_count,
            final(self).success == old(self).success,
            opt_text(final(self).result) == match p {
                ResultPlan::Ready { result } => opt_text(result),
                _ => None,
            },
            final(self).outputs@ == old(self).outputs@,
            ({
                let outs = output_texts(old(self).outputs@);
                let deliverable = deliverable_from(template.steps@, template.steps@.len() as int, outs);
                let next = (old(self).records@.len() + 1) as usize;
                match template.output_schema {
                    None => {
                        &&& p matches ResultPlan::Ready { result } && match deliverable {
                            Some(d) => result matches Some(t) && t@ == d.1,
                            None => result is None,
                        }
                        &&& record_views(final(self).records@) == record_views(old(self).records@)
                    },
                    Some(raw) => match schema_failure(raw) {
                        Some(msg) => {
                            &&& p matches ResultPlan::Invalid { event } && event@ == (PlanRunEventView::Failed {
                                index: Some(next),
                                error: msg,
                            })
                            &&& record_views(final(self).records@) == record_views(old(self).records@).push(
                                resolve_failed_view(next, msg),
                            )
                        },
                        None => {
                            &&& record_views(final(self).records@) == record_views(old(self).records@)
                            &&& match deliverable {
                                None => p matches ResultPlan::Ready { result } && result is None,
                                Some(d) => p matches ResultPlan::Run { index, step, prior, event } && {
                                    &&& index == next
                                    &&& step.result_reference@ == "#RESULT"@
                                    &&& step.intent@ == "按输出契约整理本次执行的最终结果"@
                                    &&& step.dependencies@.len() == 0
                                    &&& exists|s: OutputSchema| #[trigger] parsed_as(raw, s)
                                        && step.expected_output@ == rendered_contract(contract_text(s), texts_of(params@))
                                    &&& pair_views(prior@) == seq![(d.0 + "（交付步的完整输出）"@, d.1)]
                                        + summary_pairs(record_views(old(self).records@))
                                    &&& event@ == (PlanRunEventView::StepStarted {
                                        index: next,
                                        intent: "按输出契约整理本次执行的最终结果"@,
                                    })
                                },
                            }
                        },
                    },
                }
            }),
    {
        let raw = match &template.output_schema {
            None => {
                let result = match deliverable_output(template, &self.outputs) {
                    Some((_, output)) => Some(output),
                    None => None,
                };
                self.result = match &result {
                    Some(t) => Some(t.clone()),
                    None => None,
                };
                return ResultPlan::Ready { result };
            },
            Some(raw) => raw,
        };
        let schema = match OutputSchema::parse(raw) {
            Ok(schema) => schema,
            Err(reason) => {
                let index = self.records.len() + 1;
                let event = PlanRunEvent::Failed { index: Some(index), error: reason.clone() };
                let ghost before = self.records@;
                self.records.push(resolve_failed_record(index, reason));
                proof {
                    assert(record_views(self.records@) =~= record_views(before).push(
                        self.records@.last()@,
                    ));
                    lemma_push_keeps(record_views(before), self.records@.last()@);
                }
                return ResultPlan::Invalid { event };
            },
        };
        let (reference, output) = match deliverable_output(template, &self.outputs) {
            Some(pair) => pair,
            None => {
                return ResultPlan::Ready { result: None };
            },
        };
        let index = self.records.len() + 1;
        let written = build_output_contract_text(&schema);
        let contract = match params.render(written.as_str()) {
            Ok(text) => text,
            Err(_) => written,
        };
        let mut label = reference;
        label.append("（交付步的完整输出）");
        let mut prior: Vec<(String, String)> = Vec::new();
        prior.push((label, output));
        let summaries = self.summaries();
        let ghost head = prior@;
        let mut i: usize = 0;
        while i < summaries.len()
            invariant
                i <= summaries@.len(),
                prior@ == head + summaries@.take(i as int),
            decreases summaries@.len() - i,
        {
            prior.push((summaries[i].0.clone(), summaries[i].1.clone()));
            proof {
                assert(prior@ =~= head + summaries@.take(i + 1));
            }
            i = i + 1;
        }
        proof {
            assert(summaries@.take(summaries@.len() as int) =~= summaries@);
            assert(pair_views(prior@) =~= pair_views(head) + pair_views(summaries@));
        }
        let step = PlanStep {
            result_reference: "#RESULT".to_owned(),
            intent: "按输出契约整理本次执行的最终结果".to_owned(),
            expected_output: contract,
            dependencies: Vec::new(),
        };
        proof {
            assert(parsed_as(*raw, schema));
            assert(step.dependencies@ =~= Seq::<String>::empty());
        }
        let event = PlanRunEvent::StepStarted {
            index,
            intent: "按输出契约整理本次执行的最终结果".to_owned(),
        };
        ResultPlan::Run { index, step, prior, event }
    }

    /// The result step finished: its output is the result when it completed;
    /// its record is added. Returns the result and the event to send.
    pub fn result_done(&mut self, index: usize, result: StepRunResult) -> (r: (Option<String>, PlanRunEvent))
        requires
            old(self).wf(),
            old(self).success == Some(true),
            old(self).records@.len() == old(self).step_count,
            result.record@.index == old(self).records@.len() + 1,
        ensures
            final(self).wf(),
            final(self).step_count == old(self).step_count,
            final(self).success == old(self).success,
            opt_text(final(self).result) == opt_text(r.0),
            record_views(final(self).records@) == record_views(old(self).records@).push(result.record@),
            final(self).outputs@ == old(self).outputs@,
            opt_text(r.0) == if result.record.status == StepStatus::Done {
                opt_text(result.output)
            } else {
                None
            },
            r.1@ == (PlanRunEventView::StepFinished { index, record: result.record@ }),
    {
        let StepRunResult { record, output } = result;
        let value = if record.status == StepStatus::Done {
            output
        } else {
            None
        };
        let event = PlanRunEvent::StepFinished { index, record: record.duplicate() };
        let ghost before = self.records@;
        self.records.push(record);
        proof {
            assert(record_views(self.records@) =~= record_views(before).push(record@));
            lemma_push_keeps(record_views(before), record@);
        }
        self.result = match &value {
            Some(t) => Some(t.clone()),
            None => None,
        };
        (value, event)
    }

    /// The run's report: tokens and tool calls summed over every record
    /// (the result step's included), the records in run order.
    ///
    /// Law: the steps are numbered 1, 2, ...; the run succeeded exactly when
    /// it had template steps and each of them is done; at most the result
    /// step's record follows them, and only on success; every step after one
    /// that did not complete is skipped; a result is given only on success.
    pub fn report(self, total_duration_ms: u64) -> (r: PlanRunReport)
        requires
            self.wf(),
            self.success is Some,
            records_prompt(record_views(self.records@)) <= u32::MAX,
            records_completion(record_views(self.records@)) <= u32::MAX,
            records_tool_calls(record_views(self.records@)) <= usize::MAX,
        ensures
            r@ == (PlanRunReportView {
                success: self.success->0,
                total_duration_ms,
                prompt_tokens: records_prompt(record_views(self.records@)) as u32,
                completion_tokens: records_completion(record_views(self.records@)) as u32,
                tool_calls: records_tool_calls(record_views(self.records@)) as usize,
                steps: record_views(self.records@),
                result: opt_text(self.result),
            }),
            r@.result is Some ==> r@.success,
            forall|k: int| 0 <= k < r@.steps.len() ==> #[trigger] r@.steps[k].index == k + 1,
            r@.success == (self.step_count > 0 && forall|k: int|
                0 <= k < self.step_count ==> #[trigger] r@.steps[k].status == StepStatus::Done),
            r@.steps.len() == self.step_count || (r@.steps.len() == self.step_count + 1 && r@.success),
            forall|i: int, j: int|
                #![trigger r@.steps[i], r@.steps[j]]
                0 <= i < j < r@.steps.len() && r@.steps[i].status != StepStatus::Done ==> r@.steps[j].status
                    == StepStatus::Skipped,
    {
        let ghost rv = record_views(self.records@);
        let mut prompt_tokens: u32 = 0;
        let mut completion_tokens: u32 = 0;
        let mut tool_calls: usize = 0;
        let mut i: usize = 0;
        while i < self.records.len()
            invariant
                i <= self.records@.len(),
                rv == record_views(self.records@),
                records_prompt(rv) <= u32::MAX,
                records_completion(rv) <= u32::MAX,
                records_tool_calls(rv) <= usize::MAX,
                prompt_tokens == records_prompt(rv.take(i as int)),
                completion_tokens == records_completion(rv.take(i as int)),
                tool_calls == records_tool_calls(rv.take(i as int)),
            decreases self.records@.len() - i,
        {
            proof {
                assert(rv.take(i + 1).drop_last() =~= rv.take(i as int));
                assert(rv.take(i + 1).last() == self.records@[i as int]@);
                lemma_record_sums_grow(rv, i + 1);
            }
            prompt_tokens = prompt_tokens + self.records[i].prompt_tokens;
            completion_tokens = completion_tokens + self.records[i].completion_tokens;
            tool_calls = tool_calls + self.records[i].tool_calls;
            i = i + 1;
        }
        proof {
            assert(rv.take(rv.len() as int) =~= rv);
        }
        let success = match self.success {
            Some(b) => b,
            None => false,
        };
        PlanRunReport {
            success,
            total_duration_ms,
            prompt_tokens,
            completion_tokens,
            tool_calls,
            steps: self.records,
            result: self.result,
        }
    }
}

} // verus!
