//! The run service's scenarios, driven by hand: the table, the start check,
//! the run numbers and the folding of events are the library's; the stop
//! flags, the command queue and the scripted model stand in for the host.

use std::collections::HashMap;

use planned_agent::flexible::event::PlanRunEvent;
use planned_agent::flexible::executor::{PlanRun, ResultPlan, StepPlan};
use planned_agent::flexible::params::PlanRunParams;
use planned_agent::flexible::report::{PlanRunReport, StepStatus};
use planned_agent::flexible::run_service::control::{
    clears_cancel, is_terminal, may_start, merge_event, RunIds,
};
use planned_agent::flexible::run_service::store::RunStore;
use planned_agent::flexible::run_service::types::{
    RunSnapshot, RunStatus, RunUpdate, SessionFilter, StepPhase, StepTrackLine,
};
use planned_agent::flexible::step::{ModelReply, StepRun, StepStage, TokenUsage};
use planned_agent::flexible::template::{FlexiblePlanTemplate, PlanStep};

/// Two steps, the second depending on the first.
fn template() -> FlexiblePlanTemplate {
    FlexiblePlanTemplate {
        output_schema: None,
        task: "维护文件".to_string(),
        inputs: vec![],
        steps: vec![
            PlanStep {
                result_reference: "#E1".to_string(),
                intent: "读取".to_string(),
                expected_output: "内容".to_string(),
                dependencies: vec![],
            },
            PlanStep {
                result_reference: "#E2".to_string(),
                intent: "追加".to_string(),
                expected_output: "完成".to_string(),
                dependencies: vec!["#E1".to_string()],
            },
        ],
    }
}

/// The service as a host runs it, one command at a time.
struct Service {
    store: RunStore<u8>,
    ids: RunIds,
    /// Registered stop flags (`true`: a stop was sent).
    cancels: HashMap<String, bool>,
    /// What the one subscriber received.
    seen: Vec<RunUpdate>,
    /// Model requests made.
    requests: usize,
}

impl Service {
    fn new() -> Self {
        Service { store: RunStore::new(), ids: RunIds::new(), cancels: HashMap::new(), seen: vec![], requests: 0 }
    }

    fn subscribe(&mut self, session_id: &str) {
        let (_, replay) = self.store.subscribe(SessionFilter::One(session_id.to_string()), 0);
        self.seen.extend(replay);
    }

    fn update<F: FnOnce(Option<RunSnapshot>) -> Option<RunSnapshot>>(&mut self, session_id: &str, f: F) {
        if let Some(next) = self.store.update(session_id, f) {
            if !self.store.recipients(session_id).is_empty() {
                self.seen.push(RunUpdate { session_id: session_id.to_string(), snapshot: next });
            }
        }
    }

    /// A start: the run number, or `None` when ignored.
    fn start(&mut self, session_id: &str, template: &FlexiblePlanTemplate) -> Option<u64> {
        if !may_start(self.store.snapshot(session_id).as_ref()) {
            return None;
        }
        let run_id = self.ids.next_run_id();
        self.cancels.insert(session_id.to_string(), false);
        let started = RunSnapshot::started(session_id.to_string(), run_id, template);
        self.update(session_id, |_| Some(started));
        Some(run_id)
    }

    fn on_event(&mut self, session_id: &str, run_id: u64, event: PlanRunEvent) {
        let terminal = is_terminal(&event);
        let cancelled = self.is_cancelled(session_id);
        let mut accepted = false;
        self.update(session_id, |current| {
            let (next, taken) = merge_event(current, run_id, event, cancelled);
            accepted = taken;
            next
        });
        if clears_cancel(terminal, accepted) {
            self.cancels.remove(session_id);
        }
    }

    fn stop(&mut self, session_id: &str) -> bool {
        match self.cancels.get_mut(session_id) {
            Some(flag) => {
                *flag = true;
                true
            }
            None => false,
        }
    }

    fn is_cancelled(&self, session_id: &str) -> bool {
        self.cancels.get(session_id).copied().unwrap_or(false)
    }

    fn last(&self) -> RunSnapshot {
        self.seen.last().expect("an update").snapshot.clone()
    }
}

/// A scripted reply: its text and its token counts.
fn reply(text: &str, prompt_tokens: u32, completion_tokens: u32) -> ModelReply {
    ModelReply {
        usage: Some(TokenUsage { prompt_tokens, completion_tokens }),
        has_choice: true,
        content: text.to_string(),
        reasoning: String::new(),
        tool_calls: 0,
    }
}

/// Runs the executor of run `run_id` against scripted replies (a missing
/// reply is a failed request); each event goes through the service at once,
/// then `after` sees it.
fn execute(
    svc: &mut Service,
    session_id: &str,
    run_id: u64,
    template: &FlexiblePlanTemplate,
    replies: Vec<ModelReply>,
    after: &mut dyn FnMut(&mut Service, &PlanRunEvent),
) -> PlanRunReport {
    let params = PlanRunParams::from_template(template);
    let mut replies = replies.into_iter();
    let mut emit = |svc: &mut Service, event: PlanRunEvent| {
        svc.on_event(session_id, run_id, event.clone());
        after(svc, &event);
    };
    emit(svc, PlanRunEvent::RunStarted { total_steps: template.steps.len() });
    let mut run = PlanRun::new();
    for (offset, step) in template.steps.iter().enumerate() {
        let index = offset + 1;
        let cancelled = svc.is_cancelled(session_id);
        match run.plan_step(step, index, &params, cancelled) {
            StepPlan::Skipped => {}
            StepPlan::Failed { event } => emit(svc, event),
            StepPlan::Run { intent, event, .. } => {
                emit(svc, event);
                let mut s = StepRun::new(index, 50);
                while s.stage != StepStage::Over {
                    let cancelled = svc.is_cancelled(session_id);
                    if !s.begin_round(cancelled) {
                        break;
                    }
                    svc.requests += 1;
                    match replies.next() {
                        Some(r) => {
                            if let Some(thought) = s.model_replied(&r) {
                                emit(svc, thought);
                            }
                        }
                        None => s.model_failed("no scripted reply"),
                    }
                }
                let finished = run.step_done(step, index, s.finish(step, &intent, 0));
                emit(svc, finished);
            }
        }
    }
    let success = run.close_steps(template);
    let _result = if success {
        match run.plan_result(template, &params) {
            ResultPlan::Ready { result } => result,
            _ => panic!("these templates have no output contract"),
        }
    } else {
        None
    };
    let report = run.report(0);
    emit(svc, PlanRunEvent::RunFinished { report: report.clone() });
    report
}

fn nothing(_: &mut Service, _: &PlanRunEvent) {}

#[test]
fn start_runs_to_success() {
    let mut svc = Service::new();
    svc.subscribe("s1");
    let run_id = svc.start("s1", &template()).expect("a first start runs");
    let replies = vec![reply("第一步产出", 10, 1), reply("第二步产出", 20, 2)];
    execute(&mut svc, "s1", run_id, &template(), replies, &mut nothing);

    let snapshot = svc.last();
    assert_eq!(snapshot.status, RunStatus::Succeeded);
    assert_eq!(snapshot.steps.len(), 2);
    assert!(snapshot.steps.iter().all(|step| step.phase == StepPhase::Done));
    assert_eq!(snapshot.progressed(), 2);
    let report = snapshot.report.as_ref().expect("终态应带报告");
    assert!(report.success);
    assert_eq!(report.prompt_tokens, 30);
    assert_eq!(svc.requests, 2);
    assert_eq!(svc.store.snapshot("s1").expect("服务里应有该会话状态"), snapshot);
}

#[test]
fn progress_moves_step_by_step() {
    let mut svc = Service::new();
    svc.subscribe("s1");
    let run_id = svc.start("s1", &template()).unwrap();
    let replies = vec![reply("第一步产出", 1, 1), reply("第二步产出", 1, 1)];
    execute(&mut svc, "s1", run_id, &template(), replies, &mut nothing);

    let seen_steps: Vec<usize> = svc.seen.iter().filter_map(|u| u.snapshot.current_step).collect();
    assert!(seen_steps.contains(&1), "应看到第一步开始: {seen_steps:?}");
    assert!(seen_steps.contains(&2), "应看到第二步开始: {seen_steps:?}");
    assert_eq!(svc.last().current_step, Some(2));
}

#[test]
fn stop_marks_cancelled_and_skips_remaining() {
    let mut svc = Service::new();
    svc.subscribe("s1");
    let run_id = svc.start("s1", &template()).unwrap();
    let replies = vec![reply("第一步产出", 1, 1), reply("第二步不该跑", 1, 1)];
    let mut stop_on_first_step = |svc: &mut Service, _: &PlanRunEvent| {
        if svc.last().current_step == Some(1) && svc.is_cancelled("s1") == false && svc.cancels.contains_key("s1") {
            assert!(svc.stop("s1"), "在跑 → 应能发出取消");
        }
    };
    execute(&mut svc, "s1", run_id, &template(), replies, &mut stop_on_first_step);

    let snapshot = svc.last();
    assert_eq!(snapshot.status, RunStatus::Cancelled);
    assert_eq!(snapshot.steps[1].phase, StepPhase::Skipped);
    assert!(!svc.cancels.contains_key("s1"), "终态后取消通道已清理");
}

#[test]
fn duplicate_start_on_running_session_is_ignored() {
    let mut svc = Service::new();
    svc.subscribe("s1");
    let run_id = svc.start("s1", &template()).unwrap();
    assert!(svc.last().is_running());
    assert_eq!(svc.start("s1", &template()), None, "第二次启动应被忽略");
    let replies = vec![reply("第一步产出", 1, 1), reply("第二步产出", 1, 1)];
    execute(&mut svc, "s1", run_id, &template(), replies, &mut nothing);

    assert_eq!(svc.last().status, RunStatus::Succeeded);
    assert_eq!(svc.requests, 2, "只应跑一轮（2 次 LLM 调用）");
    assert_eq!(svc.start("s1", &template()), Some(2), "结束后可再次启动");
}

#[test]
fn stale_events_are_dropped_by_run_id() {
    let mut svc = Service::new();
    svc.subscribe("s1");
    let run_id = svc.start("s1", &template()).unwrap();
    svc.on_event("s1", 999, PlanRunEvent::StepThought { index: 1, round: 1, text: "陈旧事件".to_string() });
    let replies = vec![reply("第一步产出", 1, 1), reply("第二步产出", 1, 1)];
    execute(&mut svc, "s1", run_id, &template(), replies, &mut nothing);

    let snapshot = svc.last();
    assert_eq!(snapshot.status, RunStatus::Succeeded);
    let thoughts: Vec<&str> = snapshot.steps[0]
        .track
        .iter()
        .filter_map(|line| match line {
            StepTrackLine::Thought { text } => Some(text.as_str()),
            StepTrackLine::Tool { .. } => None,
        })
        .collect();
    assert!(!thoughts.contains(&"陈旧事件"), "旧 run_id 的事件不该被采纳：{thoughts:?}");
}

#[test]
fn step_failure_keeps_report_shape() {
    let mut svc = Service::new();
    svc.subscribe("s1");
    let run_id = svc.start("s1", &template()).unwrap();
    execute(&mut svc, "s1", run_id, &template(), vec![reply("只有第一步", 1, 1)], &mut nothing);

    let snapshot = svc.last();
    assert_eq!(snapshot.status, RunStatus::Failed);
    let report = snapshot.report.as_ref().expect("失败也应带回报告");
    assert_eq!(report.steps[0].status, StepStatus::Done);
    assert_eq!(report.steps[1].status, StepStatus::Failed);
    assert_eq!(snapshot.progressed(), 2);
}

#[test]
fn stale_terminal_event_keeps_new_cancel_channel() {
    let mut svc = Service::new();
    svc.subscribe("s1");
    let first = svc.start("s1", &template()).unwrap();
    let replies = vec![reply("第一步产出", 1, 1), reply("第二步产出", 1, 1)];
    execute(&mut svc, "s1", first, &template(), replies, &mut nothing);
    assert_eq!(svc.last().status, RunStatus::Succeeded);

    let second = svc.start("s1", &template()).unwrap();
    assert_eq!(second, 2);
    let mut checked = false;
    let mut interfere = |svc: &mut Service, event: &PlanRunEvent| {
        if checked || !matches!(event, PlanRunEvent::StepStarted { index: 1, .. }) {
            return;
        }
        checked = true;
        svc.on_event("s1", first, PlanRunEvent::Failed { index: None, error: "陈旧失败".to_string() });
        svc.on_event("s1", second, PlanRunEvent::StepThought { index: 1, round: 1, text: "同步标记".to_string() });
        let current = svc.store.snapshot("s1").expect("应有快照");
        assert_eq!(current.run_id, 2);
        assert!(current.is_running(), "陈旧终态不该改坏新一轮: {current:?}");
        assert!(current.steps.iter().any(|step| step
            .track
            .iter()
            .any(|line| matches!(line, StepTrackLine::Thought { text } if text == "同步标记"))));
        assert!(svc.stop("s1"), "新一轮的取消通道不该被旧事件清掉");
    };
    let replies = vec![reply("第一步产出", 1, 1), reply("第二步产出", 1, 1)];
    execute(&mut svc, "s1", second, &template(), replies, &mut interfere);
    assert!(checked);
    assert_eq!(svc.last().status, RunStatus::Cancelled);
}
