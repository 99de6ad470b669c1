use planned_agent::flexible::event::PlanRunEvent;
use planned_agent::flexible::executor::{
    collect_prior, deliverable_output, placeholder_record, resolve_failed_record, PlanRun, ResultPlan,
    StepPlan,
};
use planned_agent::flexible::params::{ParamValue, PlanRunParams};
use planned_agent::flexible::prompt::{build_step_task, OUTPUT_RESOLVE_SYSTEM_PROMPT, STEP_SYSTEM_PROMPT};
use planned_agent::flexible::report::{PlanRunReport, StepStatus};
use planned_agent::flexible::step::{ModelReply, StepRun, StepStage, TokenUsage};
use planned_agent::flexible::template::{FlexiblePlanTemplate, PlanInput, PlanStep};
use planned_agent::json::JsonValue;
use planned_agent::named_map::NamedMap;

fn from_serde(v: serde_json::Value) -> JsonValue {
    match v {
        serde_json::Value::Null => JsonValue::Null,
        serde_json::Value::Bool(b) => JsonValue::Bool(b),
        serde_json::Value::Number(n) => JsonValue::Number(n.to_string()),
        serde_json::Value::String(s) => JsonValue::Str(s),
        serde_json::Value::Array(items) => JsonValue::Array(items.into_iter().map(from_serde).collect()),
        serde_json::Value::Object(map) => {
            JsonValue::Object(map.into_iter().map(|(k, v)| (k, from_serde(v))).collect())
        }
    }
}

fn j(text: &str) -> JsonValue {
    from_serde(serde_json::from_str(text).unwrap())
}

fn two_step_template() -> FlexiblePlanTemplate {
    FlexiblePlanTemplate {
        output_schema: None,
        task: "维护文件".to_string(),
        inputs: vec![PlanInput {
            name: "path".to_string(),
            default: Some(ParamValue::Text("a.txt".to_string())),
            description: None,
        }],
        steps: vec![
            PlanStep {
                result_reference: "#E1".to_string(),
                intent: "读取 ${path}".to_string(),
                expected_output: "文件内容".to_string(),
                dependencies: vec![],
            },
            PlanStep {
                result_reference: "#E2".to_string(),
                intent: "基于 #E1 追加一行".to_string(),
                expected_output: "追加完成".to_string(),
                dependencies: vec!["#E1".to_string()],
            },
        ],
    }
}

/// One model request of the scripted run: its system prompt and its task text.
struct Request {
    system: &'static str,
    task: String,
}

/// Runs a plan the way a host does, with scripted model replies (a missing
/// reply is a failed request).
fn run_plan(
    template: &FlexiblePlanTemplate,
    params: &PlanRunParams,
    replies: Vec<(&str, u32, u32)>,
    cancelled: bool,
) -> (PlanRunReport, Vec<Request>, Vec<PlanRunEvent>) {
    let mut replies = replies.into_iter();
    let mut requests = Vec::new();
    let mut events = vec![PlanRunEvent::RunStarted { total_steps: template.steps.len() }];
    let mut run = PlanRun::new();
    let mut one_step = |system: &'static str, index: usize, step: &PlanStep, intent: &str, prior: &[(String, String)], requests: &mut Vec<Request>, events: &mut Vec<PlanRunEvent>| {
        let mut s = StepRun::new(index, 50);
        while s.stage != StepStage::Over {
            if !s.begin_round(cancelled) {
                break;
            }
            requests.push(Request { system, task: build_step_task(intent, &step.expected_output, prior) });
            match replies.next() {
                Some((text, p, c)) => {
                    let reply = ModelReply {
                        usage: Some(TokenUsage { prompt_tokens: p, completion_tokens: c }),
                        has_choice: true,
                        content: text.to_string(),
                        reasoning: String::new(),
                        tool_calls: 0,
                    };
                    if let Some(e) = s.model_replied(&reply) {
                        events.push(e);
                    }
                }
                None => s.model_failed("script exhausted"),
            }
        }
        s.finish(step, intent, 0)
    };
    for (offset, step) in template.steps.iter().enumerate() {
        let index = offset + 1;
        match run.plan_step(step, index, params, cancelled) {
            StepPlan::Skipped => {}
            StepPlan::Failed { event } => events.push(event),
            StepPlan::Run { intent, prior, event } => {
                events.push(event);
                let result = one_step(STEP_SYSTEM_PROMPT, index, step, &intent, &prior, &mut requests, &mut events);
                events.push(run.step_done(step, index, result));
            }
        }
    }
    let success = run.close_steps(template);
    let _result = if success {
        match run.plan_result(template, params) {
            ResultPlan::Ready { result } => result,
            ResultPlan::Invalid { event } => {
                events.push(event);
                None
            }
            ResultPlan::Run { index, step, prior, event } => {
                events.push(event);
                let intent = step.intent.clone();
                let r = one_step(OUTPUT_RESOLVE_SYSTEM_PROMPT, index, &step, &intent, &prior, &mut requests, &mut events);
                let (value, finished) = run.result_done(index, r);
                events.push(finished);
                value
            }
        }
    } else {
        None
    };
    let report = run.report(0);
    events.push(PlanRunEvent::RunFinished { report: report.clone() });
    (report, requests, events)
}

#[test]
fn output_contract_appends_resolve_step_and_returns_result() {
    let template = FlexiblePlanTemplate {
        output_schema: Some(j(
            r#"{"kind": "bool", "goal": "向 ${path} 末尾追加一行", "success": "文件末尾新增一行即视为成功"}"#,
        )),
        ..two_step_template()
    };
    let params = PlanRunParams::from_template(&template);
    let (report, requests, events) = run_plan(
        &template,
        &params,
        vec![("第一步产出", 10, 1), ("第二步产出", 20, 2), ("文件末尾已新增一行（index=8）", 30, 3)],
        false,
    );
    assert!(report.success, "整理步不参与任务成败");
    assert_eq!(report.steps.len(), 3, "两个模板步 + 一个整理步");
    let resolve = &report.steps[2];
    assert_eq!(resolve.result_reference, "#RESULT");
    assert_eq!(resolve.index, 3);
    assert_eq!(resolve.status, StepStatus::Done);
    assert_eq!(report.result.as_deref(), Some("文件末尾已新增一行（index=8）"), "最终结果 = 整理步的输出");
    assert_eq!(requests.len(), 3);
    assert!(requests[2].system.contains("结果整理助手"), "应换整理专用 system prompt");
    let task = &requests[2].task;
    assert!(task.contains("文件末尾新增一行即视为成功"), "契约应进请求: {task}");
    assert!(task.contains("第二步产出"), "交付步输出应进请求: {task}");
    assert!(task.contains("向 a.txt 末尾追加一行"), "${{path}} 应被渲染: {task}");
    assert!(events.iter().any(|e| matches!(e, PlanRunEvent::StepStarted { index: 3, intent } if intent.contains("整理"))));
    assert!(events.iter().any(|e| matches!(e, PlanRunEvent::StepFinished { index: 3, .. })));
}

#[test]
fn missing_contract_falls_back_to_deliverable_output() {
    let template = two_step_template();
    let params = PlanRunParams::from_template(&template);
    let (report, requests, _) = run_plan(&template, &params, vec![("第一步产出", 10, 1), ("第二步产出", 20, 2)], false);
    assert_eq!(report.steps.len(), 2, "无契约不应追加整理步");
    assert_eq!(report.result.as_deref(), Some("第二步产出"));
    assert_eq!(requests.len(), 2, "无契约不应多一次 LLM 调用");
}

#[test]
fn invalid_contract_records_failed_resolve_step_without_failing_run() {
    let template = FlexiblePlanTemplate {
        output_schema: Some(j(r#"{ "kind": "success_only", "success": "s" }"#)),
        ..two_step_template()
    };
    let params = PlanRunParams::from_template(&template);
    let (report, requests, _) = run_plan(&template, &params, vec![("第一步产出", 10, 1), ("第二步产出", 20, 2)], false);
    assert!(report.success, "契约非法不该把任务判成失败");
    assert_eq!(report.steps.len(), 3);
    let resolve = &report.steps[2];
    assert_eq!(resolve.status, StepStatus::Failed);
    assert!(resolve.error.as_deref().unwrap_or_default().contains("success_only"));
    assert!(report.result.is_none());
    assert_eq!(requests.len(), 2, "契约非法时不该再调一次 LLM");
}

#[test]
fn passes_prior_output_and_expands_params() {
    let template = two_step_template();
    let params = PlanRunParams::from_template(&template);
    let (report, requests, events) = run_plan(&template, &params, vec![("第一步产出", 10, 1), ("第二步产出", 20, 2)], false);
    assert!(report.success);
    assert_eq!(report.steps_done(), 2);
    assert_eq!(report.prompt_tokens, 30);
    assert_eq!(report.completion_tokens, 3);
    assert_eq!(report.tool_calls, 0);
    assert_eq!(requests.len(), 2);
    assert!(requests[0].task.contains("a.txt"), "第一步 intent 应展开 ${{path}}");
    assert!(requests[1].task.contains("第一步产出"), "第二步应收到 #E1 的产出");
    assert!(events.iter().any(|e| matches!(e, PlanRunEvent::RunStarted { total_steps: 2 })));
    assert!(events.iter().any(|e| matches!(e, PlanRunEvent::RunFinished { .. })));
}

#[test]
fn failure_marks_downstream_steps_skipped() {
    let template = two_step_template();
    let params = PlanRunParams::from_template(&template);
    let (report, requests, _) = run_plan(&template, &params, vec![("只有第一步", 10, 1)], false);
    assert!(!report.success, "第二步 LLM 失败应使整体失败");
    assert_eq!(report.steps[0].status, StepStatus::Done);
    assert_eq!(report.steps[1].status, StepStatus::Failed);
    assert_eq!(requests.len(), 2);
}

#[test]
fn missing_param_marks_step_failed_and_skips_rest() {
    let template = two_step_template();
    let params = PlanRunParams::new();
    let (report, requests, events) = run_plan(&template, &params, vec![("不该被调用", 1, 1)], false);
    assert!(!report.success);
    assert_eq!(report.steps[0].status, StepStatus::Failed);
    assert_eq!(report.steps[1].status, StepStatus::Skipped);
    assert_eq!(report.steps[1].error.as_deref(), Some("前序步骤失败"));
    assert!(requests.is_empty(), "展开失败时不应发起 LLM 请求");
    assert!(events.iter().any(|e| matches!(e, PlanRunEvent::Failed { index: Some(1), .. })));
}

#[test]
fn cancelled_before_start_skips_everything() {
    let template = two_step_template();
    let params = PlanRunParams::from_template(&template);
    let (report, requests, _) = run_plan(&template, &params, vec![("不该被调用", 1, 1)], true);
    assert!(!report.success);
    assert!(report.steps.iter().all(|step| step.status == StepStatus::Skipped));
    assert_eq!(report.steps[0].error.as_deref(), Some("用户取消"));
    assert!(requests.is_empty());
}

#[test]
fn helpers_follow_dependencies_and_last_output() {
    let template = two_step_template();
    let mut outputs = NamedMap::new();
    assert!(deliverable_output(&template, &outputs).is_none());
    outputs.insert("#E1".to_string(), "一".to_string());
    assert_eq!(collect_prior(&template.steps[1], &outputs), vec![("#E1".to_string(), "一".to_string())]);
    assert!(collect_prior(&template.steps[0], &outputs).is_empty());
    assert_eq!(deliverable_output(&template, &outputs), Some(("#E1".to_string(), "一".to_string())));
    outputs.insert("#E2".to_string(), "二".to_string());
    assert_eq!(deliverable_output(&template, &outputs), Some(("#E2".to_string(), "二".to_string())));

    let r = placeholder_record(4, &template.steps[0], StepStatus::Skipped, Some("用户取消"));
    assert_eq!(r.index, 4);
    assert_eq!(r.intent, "读取 ${path}");
    assert_eq!(r.rounds, 0);
    let f = resolve_failed_record(3, "坏".to_string());
    assert_eq!(f.result_reference, "#RESULT");
    assert_eq!(f.expected_output, "（输出契约非法，未执行整理）");
    assert_eq!(f.error.as_deref(), Some("坏"));
}

#[test]
fn empty_template_is_not_a_success() {
    let template = FlexiblePlanTemplate { steps: vec![], ..two_step_template() };
    let params = PlanRunParams::from_template(&template);
    let (report, _, _) = run_plan(&template, &params, vec![], false);
    assert!(!report.success);
    assert!(report.steps.is_empty());
}

#[test]
fn steps_are_numbered_and_skipped_after_a_failure() {
    let template = two_step_template();
    let params = PlanRunParams::from_template(&template);
    let (report, requests, _) = run_plan(&template, &params, vec![], false);
    assert!(!report.success);
    assert_eq!(report.steps.len(), 2);
    for (k, step) in report.steps.iter().enumerate() {
        assert_eq!(step.index, k + 1);
    }
    assert_eq!(report.steps[0].status, StepStatus::Failed);
    assert_eq!(report.steps[1].status, StepStatus::Skipped);
    assert!(report.result.is_none());
    assert_eq!(requests.len(), 1, "a skipped step makes no request");
}
