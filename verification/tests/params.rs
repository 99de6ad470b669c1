use planned_agent::flexible::params::{render_step_intent, ParamValue, PlanRunParams};
use planned_agent::flexible::template::{FlexiblePlanTemplate, PlanInput, PlanStep};

const INTENT_WITH_PARAMS: &str = "处理文件 ${file_path}，起始索引 ${default_index}";

fn sample_template() -> FlexiblePlanTemplate {
    FlexiblePlanTemplate {
        task: "维护日志".to_string(),
        inputs: vec![
            PlanInput {
                name: "file_path".to_string(),
                default: Some(ParamValue::Text("C:/a/b.txt".to_string())),
                description: None,
            },
            PlanInput {
                name: "default_index".to_string(),
                default: Some(ParamValue::Literal("1".to_string())),
                description: None,
            },
            PlanInput {
                name: "no_default".to_string(),
                default: None,
                description: None,
            },
        ],
        steps: vec![PlanStep {
            result_reference: "#E1".to_string(),
            intent: INTENT_WITH_PARAMS.to_string(),
            expected_output: "${file_path} 内容".to_string(),
            dependencies: vec![],
        }],
        output_schema: None,
    }
}

#[test]
fn seeds_defaults_and_skips_missing() {
    let params = PlanRunParams::from_template(&sample_template());
    assert_eq!(params.get("file_path"), Some(&ParamValue::Text("C:/a/b.txt".to_string())));
    assert_eq!(params.get("default_index"), Some(&ParamValue::Literal("1".to_string())));
    assert_eq!(params.get("no_default"), None);
}

#[test]
fn set_overrides_default() {
    let mut params = PlanRunParams::from_template(&sample_template());
    params.set("file_path".to_string(), ParamValue::Text("D:/x.txt".to_string()));
    assert_eq!(params.get("file_path"), Some(&ParamValue::Text("D:/x.txt".to_string())));
}

#[test]
fn renders_string_and_number() {
    let tpl = sample_template();
    let params = PlanRunParams::from_template(&tpl);
    assert_eq!(
        render_step_intent(&tpl.steps[0], &params).unwrap(),
        "处理文件 C:/a/b.txt，起始索引 1"
    );
}

#[test]
fn reports_missing_value_with_step_reference() {
    let tpl = sample_template();
    let params = PlanRunParams::new();
    let err = render_step_intent(&tpl.steps[0], &params).unwrap_err();
    assert!(err.contains("#E1"), "错误应点名步骤: {err}");
    assert!(err.contains("${file_path}"), "错误应点名占位符: {err}");
}

#[test]
fn rejects_undefined_placeholder() {
    let tpl = sample_template();
    let mut step = tpl.steps[0].clone();
    step.intent = "处理 ${ghost}".to_string();
    let params = PlanRunParams::from_template(&tpl);
    let err = render_step_intent(&step, &params).unwrap_err();
    assert!(err.contains("${ghost}"), "错误应点名未定义占位符: {err}");
}

#[test]
fn later_definition_of_a_name_wins_and_text_map_matches() {
    let mut tpl = sample_template();
    tpl.inputs.push(PlanInput {
        name: "file_path".to_string(),
        default: Some(ParamValue::Text("E:/later.txt".to_string())),
        description: None,
    });
    let params = PlanRunParams::from_template(&tpl);
    assert_eq!(params.get("file_path"), Some(&ParamValue::Text("E:/later.txt".to_string())));
    let texts = params.as_text_map();
    assert_eq!(texts.len(), 2);
    assert_eq!(texts.get(&"default_index".to_string()), Some(&"1".to_string()));
    assert_eq!(params.render("${file_path}").unwrap(), "E:/later.txt");
}
