use planned_agent::flexible::report::{CallUsage, PlanRunReport, StepRunRecord, StepStatus};

fn record(index: usize, status: StepStatus) -> StepRunRecord {
    StepRunRecord {
        index,
        result_reference: format!("#E{index}"),
        intent: "i".to_string(),
        expected_output: "o".to_string(),
        status,
        duration_ms: 0,
        prompt_tokens: 0,
        completion_tokens: 0,
        tool_calls: 0,
        rounds: 0,
        call_usages: vec![],
        output_summary: None,
        output: None,
        output_truncated: false,
        error: None,
    }
}

#[test]
fn counts_done_and_errors() {
    let report = PlanRunReport {
        success: false,
        total_duration_ms: 100,
        prompt_tokens: 10,
        completion_tokens: 5,
        tool_calls: 3,
        result: None,
        steps: vec![
            record(1, StepStatus::Done),
            record(2, StepStatus::Failed),
            record(3, StepStatus::Skipped),
        ],
    };
    assert_eq!(report.steps_done(), 1);
    assert_eq!(report.errors(), 1);
    assert_eq!(report.total_tokens(), 15);
}

#[test]
fn record_total_and_copy() {
    let mut r = record(2, StepStatus::Done);
    r.prompt_tokens = 7;
    r.completion_tokens = 4;
    r.call_usages = vec![CallUsage { round: 1, prompt_tokens: 7, completion_tokens: 4 }];
    assert_eq!(r.total_tokens(), 11);
    assert_eq!(r.duplicate(), r);
}

#[test]
fn empty_report_counts_nothing() {
    let report = PlanRunReport {
        success: false,
        total_duration_ms: 0,
        prompt_tokens: 0,
        completion_tokens: 0,
        tool_calls: 0,
        result: None,
        steps: vec![],
    };
    assert_eq!(report.steps_done(), 0);
    assert_eq!(report.errors(), 0);
    assert_eq!(report.duplicate(), report);
}
