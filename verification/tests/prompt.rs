use planned_agent::flexible::output_schema::OutputSchema;
use planned_agent::flexible::prompt::{build_output_contract_text, build_step_task, kind_label};
use planned_agent::flexible::output_schema::OutputKind;
use planned_agent::json::JsonValue;

fn from_serde(v: serde_json::Value) -> JsonValue {
    match v {
        serde_json::Value::Null => JsonValue::Null,
        serde_json::Value::Bool(b) => JsonValue::Bool(b),
        serde_json::Value::Number(n) => JsonValue::Number(n.to_string()),
        serde_json::Value::String(s) => JsonValue::Str(s),
        serde_json::Value::Array(items) => JsonValue::Array(items.into_iter().map(from_serde).collect()),
        serde_json::Value::Object(map) => {
            JsonValue::Object(map.into_iter().map(|(k, v)| (k, from_serde(v))).collect())
        }
    }
}

fn j(text: &str) -> JsonValue {
    from_serde(serde_json::from_str(text).unwrap())
}

#[test]
fn task_without_prior_omits_section() {
    let task = build_step_task("读取文件", "得到内容", &[]);
    assert!(task.contains("## 本次子目标\n读取文件"));
    assert!(task.contains("## 期望产出（满足什么算完成）\n得到内容"));
    assert!(!task.contains("前序步骤结果"), "无依赖时不应出现前序段");
}

#[test]
fn task_with_prior_lists_references() {
    let prior = vec![
        ("#E1".to_string(), "索引=7".to_string()),
        ("#E2".to_string(), "已写入".to_string()),
    ];
    let task = build_step_task("基于 #E1 写入", "新增一行", &prior);
    assert!(task.contains("## 前序步骤结果"));
    assert!(task.contains("### #E1\n索引=7"));
    assert!(task.contains("### #E2\n已写入"));
}

#[test]
fn contract_text_covers_bool_and_structured() {
    let bool_schema = OutputSchema::parse(&j(
        r#"{"kind": "bool", "goal": "向 ${file_path} 追加一行", "success": "文件末尾新增一行即视为成功"}"#,
    ))
    .unwrap();
    let text = build_output_contract_text(&bool_schema);
    assert!(text.contains("什么算成功：文件末尾新增一行即视为成功"));
    assert!(text.contains("只给一句判断"), "bool 型要有专门的交付要求: {text}");
    assert!(!text.contains("必须包含的字段"), "bool 不谈字段: {text}");
    assert!(text.contains("向 ${file_path} 追加一行"));
}

#[test]
fn contract_text_lists_field_requirements() {
    let schema = OutputSchema::parse(&j(
        r#"{"kind": "csv", "goal": "导出 ${dir} 下的商品清单", "format": "UTF-8 CSV，首行表头", "required": ["title", "price"], "wanted": ["stock"]}"#,
    ))
    .unwrap();
    let text = build_output_contract_text(&schema);
    assert!(text.contains("一份 CSV 表格"));
    assert!(text.contains("必须包含的字段（缺一即视为未达成）：title, price"));
    assert!(text.contains("尽力去找的字段"));
    assert!(text.contains("stock"));
    assert!(text.contains("UTF-8 CSV，首行表头"));
}

#[test]
fn step_task_text_is_exact() {
    let prior = vec![("#E1".to_string(), "x".to_string())];
    assert_eq!(
        build_step_task("做", "完", &prior),
        "## 本次子目标\n做\n\n## 期望产出（满足什么算完成）\n完\n\n## 前序步骤结果\n### #E1\nx\n"
    );
    assert_eq!(build_step_task("做", "完", &[]), "## 本次子目标\n做\n\n## 期望产出（满足什么算完成）\n完");
}

#[test]
fn contract_text_starts_with_kind_label() {
    let schema = OutputSchema::parse(&j(r#"{"kind": "text", "goal": "总结"}"#)).unwrap();
    let text = build_output_contract_text(&schema);
    assert!(text.starts_with(&format!("结果形态：{}\n要交付什么：总结\n", kind_label(OutputKind::Text))));
}
