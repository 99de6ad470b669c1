use planned_agent::flexible::event::PlanRunEvent;
use planned_agent::flexible::report::{CallUsage, PlanRunReport, StepRunRecord, StepStatus};
use planned_agent::flexible::run_service::control::{
    clears_cancel, is_terminal, may_start, merge_event, merge_event_at, still_running, RunIds,
};
use planned_agent::flexible::run_service::state::{apply_event, apply_event_at, event_fits};
use planned_agent::flexible::run_service::types::{
    now_ms, to_millis, RunSnapshot, RunStatus, StepPhase, StepSnapshot, StepTrackLine,
};
use planned_agent::flexible::template::{FlexiblePlanTemplate, PlanStep};

fn template() -> FlexiblePlanTemplate {
    FlexiblePlanTemplate {
        output_schema: None,
        task: "维护文件".to_string(),
        inputs: vec![],
        steps: vec![
            PlanStep {
                result_reference: "#E1".to_string(),
                intent: "读取 ${path}".to_string(),
                expected_output: "文件内容".to_string(),
                dependencies: vec![],
            },
            PlanStep {
                result_reference: "#E2".to_string(),
                intent: "追加一行".to_string(),
                expected_output: "追加完成".to_string(),
                dependencies: vec!["#E1".to_string()],
            },
        ],
    }
}

fn record(index: usize, status: StepStatus, error: Option<&str>) -> StepRunRecord {
    StepRunRecord {
        index,
        result_reference: format!("#E{index}"),
        intent: format!("第 {index} 步（展开后）"),
        expected_output: "o".to_string(),
        status,
        duration_ms: 12,
        prompt_tokens: 10,
        completion_tokens: 3,
        tool_calls: 1,
        rounds: 1,
        call_usages: vec![CallUsage { round: 1, prompt_tokens: 10, completion_tokens: 3 }],
        output_summary: None,
        output: None,
        output_truncated: false,
        error: error.map(str::to_string),
    }
}

fn snapshot() -> RunSnapshot {
    RunSnapshot::started("s1".to_string(), 1, &template())
}

#[test]
fn started_snapshot_is_all_pending() {
    let snapshot = snapshot();
    assert_eq!(snapshot.status, RunStatus::Running);
    assert_eq!(snapshot.total_steps, 2);
    assert_eq!(snapshot.progressed(), 0);
    assert_eq!(snapshot.phase_of(0), StepPhase::Pending);
    assert_eq!(snapshot.phase_of(1), StepPhase::Pending);
    assert_eq!(snapshot.steps[0].intent, "读取 ${path}");
}

#[test]
fn step_events_move_progress_forward() {
    let mut snapshot = snapshot();
    apply_event(&mut snapshot, PlanRunEvent::StepStarted { index: 1, intent: "读取 a.txt".to_string() });
    assert_eq!(snapshot.current_step, Some(1));
    assert_eq!(snapshot.phase_of(0), StepPhase::Running);
    assert_eq!(snapshot.steps[0].intent, "读取 a.txt", "展开版应覆盖原文");

    apply_event(
        &mut snapshot,
        PlanRunEvent::StepToolCall {
            index: 1,
            tool: "read_file".to_string(),
            args: "C:/tmp/a.txt".to_string(),
            ok: true,
        },
    );
    assert_eq!(snapshot.steps[0].tool_calls, 1);

    apply_event(
        &mut snapshot,
        PlanRunEvent::StepThought { index: 1, round: 1, text: "先读文件".to_string() },
    );

    apply_event(
        &mut snapshot,
        PlanRunEvent::StepFinished { index: 1, record: record(1, StepStatus::Done, None) },
    );
    assert_eq!(snapshot.phase_of(0), StepPhase::Done);
    assert_eq!(snapshot.progressed(), 1);
    assert_eq!(snapshot.steps[0].tool_calls, 1, "记录里的计数应与累计一致");
    assert_eq!(snapshot.steps[0].duration_ms, 12);
    assert_eq!(
        snapshot.steps[0].track,
        vec![
            StepTrackLine::Tool {
                tool: "read_file".to_string(),
                args: "C:/tmp/a.txt".to_string(),
                ok: true,
            },
            StepTrackLine::Thought { text: "先读文件".to_string() },
        ],
        "轨迹应累积，并在 StepFinished 覆盖后仍在"
    );
}

#[test]
fn run_finished_overwrites_steps_from_report() {
    let mut snapshot = snapshot();
    apply_event(
        &mut snapshot,
        PlanRunEvent::StepThought { index: 1, round: 1, text: "先读文件".to_string() },
    );
    apply_event(
        &mut snapshot,
        PlanRunEvent::StepFinished { index: 1, record: record(1, StepStatus::Done, None) },
    );
    assert_eq!(snapshot.phase_of(1), StepPhase::Pending);

    let report = PlanRunReport {
        success: false,
        total_duration_ms: 30,
        prompt_tokens: 20,
        completion_tokens: 6,
        tool_calls: 2,
        steps: vec![
            record(1, StepStatus::Done, None),
            record(2, StepStatus::Skipped, Some("前序步骤失败")),
        ],
        result: None,
    };
    apply_event(&mut snapshot, PlanRunEvent::RunFinished { report: report.clone() });

    assert_eq!(snapshot.status, RunStatus::Failed);
    assert_eq!(snapshot.phase_of(1), StepPhase::Skipped, "跳过步只能由报告补上");
    assert_eq!(snapshot.steps[1].error.as_deref(), Some("前序步骤失败"));
    assert!(snapshot.finished_at_ms.is_some());
    assert_eq!(snapshot.report.as_ref(), Some(&report));
    assert_eq!(
        snapshot.steps[0].track,
        vec![StepTrackLine::Thought { text: "先读文件".to_string() }],
        "RunFinished 重建步骤后轨迹不能丢"
    );
}

#[test]
fn step_failure_marks_only_that_step() {
    let mut snapshot = snapshot();
    apply_event(
        &mut snapshot,
        PlanRunEvent::Failed { index: Some(1), error: "展开失败：缺少 ${path}".to_string() },
    );
    assert_eq!(snapshot.phase_of(0), StepPhase::Failed);
    assert_eq!(snapshot.steps[0].error.as_deref(), Some("展开失败：缺少 ${path}"));
    assert_eq!(snapshot.status, RunStatus::Running, "单步失败不结束整次");
}

#[test]
fn run_level_failure_finishes_snapshot() {
    let mut snapshot = snapshot();
    apply_event(&mut snapshot, PlanRunEvent::Failed { index: None, error: "模板非法".to_string() });
    assert_eq!(snapshot.status, RunStatus::Failed);
    assert_eq!(snapshot.error.as_deref(), Some("模板非法"));
    assert!(snapshot.finished_at_ms.is_some());
}

#[test]
fn unknown_step_index_is_inserted_in_order() {
    let mut snapshot = RunSnapshot::started("s1".to_string(), 1, &template());
    snapshot.steps.clear();
    snapshot.total_steps = 0;

    apply_event(&mut snapshot, PlanRunEvent::StepStarted { index: 2, intent: "第二步".to_string() });

    assert_eq!(snapshot.steps.len(), 2);
    assert_eq!(snapshot.steps[0].index, 1);
    assert_eq!(snapshot.steps[0].phase, StepPhase::Pending);
    assert_eq!(snapshot.steps[1].phase, StepPhase::Running);
    assert_eq!(snapshot.total_steps, 2);
}

#[test]
fn stand_in_goes_before_a_higher_number() {
    let mut snapshot = snapshot();
    snapshot.steps = vec![StepSnapshot::placeholder(5), StepSnapshot::placeholder(6)];
    let pos = snapshot.step_or_insert(1);
    assert_eq!(pos, 0);
    assert_eq!(
        snapshot.steps.iter().map(|s| s.index).collect::<Vec<_>>(),
        vec![1, 5, 6]
    );
    assert_eq!(snapshot.steps[0].result_reference, "#E1");
    assert_eq!(snapshot.total_steps, 3);
}

#[test]
fn run_started_pads_and_sets_total() {
    let mut snapshot = snapshot();
    apply_event_at(&mut snapshot, PlanRunEvent::RunStarted { total_steps: 4 }, 9);
    assert_eq!(snapshot.total_steps, 4);
    assert_eq!(snapshot.steps.len(), 4);
    assert_eq!(snapshot.steps[3].result_reference, "#E4");
    assert_eq!(snapshot.steps[2].phase, StepPhase::Pending);
    assert!(snapshot.finished_at_ms.is_none());
}

#[test]
fn final_event_stamps_given_time() {
    let mut snapshot = snapshot();
    apply_event_at(&mut snapshot, PlanRunEvent::Failed { index: None, error: "x".to_string() }, 1234);
    assert_eq!(snapshot.finished_at_ms, Some(1234));
    assert_eq!(snapshot.run_id, 1);
    assert_eq!(snapshot.session_id, "s1");
}

#[test]
fn stale_event_is_ignored() {
    let current = snapshot();
    let (next, accepted) = merge_event(
        Some(current.clone()),
        999,
        PlanRunEvent::StepThought { index: 1, round: 1, text: "陈旧事件".to_string() },
        false,
    );
    assert!(!accepted);
    assert_eq!(next, Some(current));
    let (none, accepted) = merge_event(None, 1, PlanRunEvent::RunStarted { total_steps: 1 }, false);
    assert!(none.is_none() && !accepted);
}

#[test]
fn cancelled_run_ends_cancelled_unless_succeeded() {
    let failed = PlanRunReport {
        success: false,
        total_duration_ms: 0,
        prompt_tokens: 0,
        completion_tokens: 0,
        tool_calls: 0,
        steps: vec![],
        result: None,
    };
    let (next, accepted) =
        merge_event_at(Some(snapshot()), 1, PlanRunEvent::RunFinished { report: failed.clone() }, true, 5);
    assert!(accepted);
    let next = next.unwrap();
    assert_eq!(next.status, RunStatus::Cancelled);
    assert_eq!(next.steps.len(), 2, "报告没带步骤时保留现有步");

    let mut ok = failed;
    ok.success = true;
    let (next, _) = merge_event_at(Some(snapshot()), 1, PlanRunEvent::RunFinished { report: ok }, true, 5);
    assert_eq!(next.unwrap().status, RunStatus::Succeeded);
}

#[test]
fn service_decisions() {
    let running = snapshot();
    assert!(!may_start(Some(&running)));
    assert!(may_start(None));
    assert!(still_running(Some(&running), 1));
    assert!(!still_running(Some(&running), 2));
    let mut finished = running.clone();
    finished.status = RunStatus::Failed;
    assert!(may_start(Some(&finished)));
    assert!(is_terminal(&PlanRunEvent::Failed { index: None, error: String::new() }));
    assert!(!is_terminal(&PlanRunEvent::Failed { index: Some(1), error: String::new() }));
    assert!(clears_cancel(true, true));
    assert!(!clears_cancel(true, false));
    let mut ids = RunIds::new();
    assert_eq!(ids.next_run_id(), 1);
    assert_eq!(ids.next_run_id(), 2);
}

#[test]
fn phase_styles_and_tokens() {
    assert_eq!(StepPhase::Running.css_suffix(), "running");
    assert_eq!(StepPhase::Running.line_suffix(), "active");
    assert_eq!(StepPhase::Skipped.line_suffix(), "pending");
    assert_eq!(StepPhase::Skipped.node_suffix(), "skipped");
    assert_eq!(StepPhase::from_status(StepStatus::Failed), StepPhase::Failed);
    let s = StepSnapshot::from_record(&record(3, StepStatus::Done, None));
    assert_eq!(s.total_tokens(), 13);
    assert!(RunStatus::Cancelled.is_finished());
    assert_eq!(to_millis(Some(5)), 5);
    assert_eq!(to_millis(None), 0);
    assert_eq!(to_millis(Some(u128::from(u64::MAX) + 3)), 2);
    assert!(now_ms() > 0);
}

#[test]
fn tool_call_events_fit_unless_the_count_is_full() {
    let mut s = RunSnapshot::started("s".to_string(), 1, &template());
    let call = PlanRunEvent::StepToolCall {
        index: 1,
        tool: "read".to_string(),
        args: "a".to_string(),
        ok: true,
    };
    assert!(event_fits(&s, &call));
    s.steps[0].tool_calls = usize::MAX;
    assert!(!event_fits(&s, &call));
    assert!(event_fits(&s, &PlanRunEvent::RunStarted { total_steps: 2 }));
}
