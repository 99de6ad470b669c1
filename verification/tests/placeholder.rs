use planned_agent::json::JsonValue;
use planned_agent::flexible::placeholder::{collect_placeholders, render, render_lenient};
use planned_agent::named_map::NamedMap;

fn values(pairs: &[(&str, &str)]) -> NamedMap<String> {
    let mut map = NamedMap::new();
    for (k, v) in pairs {
        map.insert(k.to_string(), v.to_string());
    }
    map
}

#[test]
fn collects_names_in_order_without_duplicates() {
    let text = "在 ${filepath} 维护日志，写入 ${time_format}；再次打开 ${filepath}";
    assert_eq!(
        collect_placeholders(text),
        vec!["filepath".to_string(), "time_format".to_string()]
    );
}

#[test]
fn ignores_unclosed_and_empty_placeholders() {
    assert!(collect_placeholders("没有占位符").is_empty());
    assert!(collect_placeholders("${未闭合").is_empty());
    assert!(collect_placeholders("${}").is_empty());
    assert!(collect_placeholders("价格 $100 与 {A}").is_empty());
}

#[test]
fn render_substitutes_and_reports_missing() {
    let values = values(&[("filepath", "C:/a/b.txt")]);
    assert_eq!(
        render("读取 ${filepath} 内容", &values).unwrap(),
        "读取 C:/a/b.txt 内容"
    );
    let err = render("读取 ${other}", &values).unwrap_err();
    assert!(err.contains("${other}"), "{err}");
    assert!(render("读取 ${未闭合", &values).is_err());
}

#[test]
fn lenient_keeps_unfilled_placeholders_and_reports_them() {
    let values = values(&[("filled", "V"), ("blank", "   ")]);
    let (text, missing) = render_lenient("A ${filled} B ${blank} C ${absent}", &values);
    assert_eq!(text, "A V B ${blank} C ${absent}");
    assert_eq!(missing, vec!["blank".to_string(), "absent".to_string()]);
}

#[test]
fn lenient_reports_each_missing_name_once() {
    let (_, missing) = render_lenient("${x} 与 ${x}", &NamedMap::new());
    assert_eq!(missing, vec!["x".to_string()]);
}

#[test]
fn lenient_keeps_unclosed_placeholder_verbatim() {
    let (text, missing) = render_lenient("读取 ${未闭合", &NamedMap::new());
    assert_eq!(text, "读取 ${未闭合");
    assert!(missing.is_empty());
}

#[test]
fn render_reports_exact_error_texts() {
    let values = values(&[("a", "1")]);
    assert_eq!(render("x ${b} y", &values).unwrap_err(), "未定义的占位符: ${b}");
    assert_eq!(render("x ${a} ${open", &values).unwrap_err(), "占位符未闭合: ${open");
    assert_eq!(render("${a}${a}", &values).unwrap(), "11");
    // an empty name is looked up like any other
    assert_eq!(render("${}", &values).unwrap_err(), "未定义的占位符: ${}");
}

#[test]
fn collect_skips_empty_and_continues_after_closing_brace() {
    assert_eq!(
        collect_placeholders("${}${a}$${b}}"),
        vec!["a".to_string(), "b".to_string()]
    );
}

fn from_serde(v: serde_json::Value) -> JsonValue {
    match v {
        serde_json::Value::Null => JsonValue::Null,
        serde_json::Value::Bool(b) => JsonValue::Bool(b),
        serde_json::Value::Number(n) => JsonValue::Number(n.to_string()),
        serde_json::Value::String(s) => JsonValue::Str(s),
        serde_json::Value::Array(items) => JsonValue::Array(items.into_iter().map(from_serde).collect()),
        serde_json::Value::Object(map) => {
            JsonValue::Object(map.into_iter().map(|(k, v)| (k, from_serde(v))).collect())
        }
    }
}

fn j(text: &str) -> JsonValue {
    from_serde(serde_json::from_str(text).unwrap())
}

#[test]
fn collects_from_steps_only_intent_and_expected_output() {
    let steps = j(r##"[
        {"result_reference": "#E1", "intent": "读取 ${filepath}", "expected_output": "${filepath} 内容", "dependencies": []},
        {"result_reference": "#E2", "intent": "按 ${time_format} 格式化", "expected_output": "格式化结果", "dependencies": ["#E1"]}
    ]"##);
    assert_eq!(
        planned_agent::flexible::placeholder::collect_from_steps(&steps),
        vec!["filepath".to_string(), "time_format".to_string()]
    );
}

#[test]
fn validate_accepts_defined_placeholders() {
    let steps = j(r#"[{ "intent": "读取 ${filepath}", "expected_output": "内容" }]"#);
    let inputs = j(r#"[{ "name": "filepath", "default": "C:/a/b.txt" }]"#);
    assert!(planned_agent::flexible::placeholder::validate(&steps, &inputs).is_ok());
}

#[test]
fn validate_rejects_undefined_placeholder() {
    let steps = j(r#"[{ "intent": "读取 ${filepath}", "expected_output": "写入 ${out_dir}" }]"#);
    let inputs = j(r#"[{ "name": "filepath", "default": "C:/a/b.txt" }]"#);
    let err = planned_agent::flexible::placeholder::validate(&steps, &inputs).unwrap_err();
    assert!(err.contains("${out_dir}"), "错误应点名未定义占位符: {err}");
    assert!(!err.contains("${filepath}"), "已定义的占位符不应出现在错误里: {err}");
}

#[test]
fn validate_rejects_placeholder_without_inputs() {
    let steps = j(r#"[{ "intent": "读取 ${filepath}", "expected_output": "内容" }]"#);
    assert!(planned_agent::flexible::placeholder::validate(&steps, &j("[]")).is_err());
}

#[test]
fn validate_lists_every_undefined_name_exactly() {
    let steps = j(r#"[{ "intent": "${a} ${b}", "expected_output": "${c} ${a}" }]"#);
    let err = planned_agent::flexible::placeholder::validate(&steps, &j(r#"[{"name": "b"}]"#)).unwrap_err();
    assert_eq!(err, "steps 中出现未定义的占位符: ${a}, ${c}");
}

#[test]
fn collects_from_schema_text_fields_only() {
    let schema = j(r#"{"kind": "${nope}", "goal": "写 ${x}", "success": "${y} 与 ${x}", "format": "${z}"}"#);
    assert_eq!(
        planned_agent::flexible::placeholder::collect_from_schema(&schema),
        vec!["x".to_string(), "y".to_string(), "z".to_string()]
    );
    assert!(planned_agent::flexible::placeholder::collect_from_schema(&j("null")).is_empty());
    assert!(planned_agent::flexible::placeholder::collect_from_steps(&j("{}")).is_empty());
}

#[test]
fn values_for_every_collected_name_render_the_text() {
    let text = "读 ${a}，写 ${b}，再读 ${a}";
    let mut map = NamedMap::new();
    for name in collect_placeholders(text) {
        let value = format!("<{name}>");
        map.insert(name, value);
    }
    assert_eq!(render(text, &map).unwrap(), "读 <a>，写 <b>，再读 <a>");
    // an empty `${}` is no placeholder, so no value is collected for it
    assert!(collect_placeholders("空 ${}").is_empty());
    assert!(render("空 ${}", &map).is_err());
}

#[test]
fn strict_and_lenient_agree_when_values_are_filled() {
    let map = values(&[("a", "甲"), ("b", "乙")]);
    let text = "读 ${a} 写 ${b}";
    let (lenient, missing) = render_lenient(text, &map);
    assert!(missing.is_empty());
    assert_eq!(render(text, &map).unwrap(), lenient);
    let (_, missing) = render_lenient("读 ${c}", &map);
    assert_eq!(missing, vec!["c".to_string()]);
    assert!(render("读 ${c}", &map).is_err());
    let (_, missing) = render_lenient("读 ${a", &map);
    assert!(missing.is_empty());
    assert!(render("读 ${a", &map).is_err());
}

#[test]
fn blank_values_leave_the_text_unchanged() {
    let map = values(&[("x", "  ")]);
    let (text, missing) = render_lenient("${x} 与 ${y} 与 ${x}", &map);
    assert_eq!(text, "${x} 与 ${y} 与 ${x}");
    assert_eq!(missing, vec!["x".to_string(), "y".to_string()]);
}
