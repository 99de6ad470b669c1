use planned_agent::flexible::output_schema::{OutputKind, OutputSchema};
use planned_agent::json::JsonValue;

fn s(text: &str) -> JsonValue {
    JsonValue::Str(text.to_string())
}

fn arr(items: &[&str]) -> JsonValue {
    JsonValue::Array(items.iter().map(|t| s(t)).collect())
}

fn obj(fields: Vec<(&str, JsonValue)>) -> JsonValue {
    JsonValue::Object(fields.into_iter().map(|(k, v)| (k.to_string(), v)).collect())
}

#[test]
fn parses_bool_contract() {
    let schema = OutputSchema::parse(&obj(vec![
        ("kind", s("bool")),
        ("goal", s("向指定文件追加一行")),
        ("success", s("文件末尾新增一行即视为成功")),
    ]))
    .unwrap();
    assert_eq!(schema.kind, OutputKind::Bool);
    assert!(schema.kind.is_bool());
    assert!(!schema.kind.uses_fields());
    assert!(schema.required.is_empty() && schema.wanted.is_empty());
}

#[test]
fn bool_requires_success() {
    let err = OutputSchema::parse(&obj(vec![("kind", s("bool")), ("goal", s("g"))])).unwrap_err();
    assert!(err.contains("success"), "{err}");
}

#[test]
fn non_bool_requires_goal() {
    let err = OutputSchema::parse(&obj(vec![("kind", s("csv")), ("success", s("s"))])).unwrap_err();
    assert!(err.contains("goal"), "{err}");
    let err = OutputSchema::parse(&obj(vec![("kind", s("csv")), ("goal", s("  "))])).unwrap_err();
    assert!(err.contains("goal"), "{err}");
}

#[test]
fn rejects_unknown_kind_and_non_object() {
    let err = OutputSchema::parse(&obj(vec![("kind", s("success_only")), ("success", s("s"))]))
        .unwrap_err();
    assert!(err.contains("success_only"), "{err}");
    assert!(err.contains("bool"), "错误里应列出合法取值: {err}");
    assert!(OutputSchema::parse(&s("csv")).is_err());
    assert!(OutputSchema::parse(&JsonValue::Null).is_err());
}

#[test]
fn field_lists_only_apply_to_structured_kinds() {
    let schema = OutputSchema::parse(&obj(vec![
        ("kind", s("json")),
        ("goal", s("抽字段")),
        ("required", arr(&["title", "title", " "])),
        ("wanted", arr(&["stock", "title"])),
    ]))
    .unwrap();
    assert_eq!(schema.required, vec!["title".to_string()]);
    assert_eq!(schema.wanted, vec!["stock".to_string()]);

    let schema = OutputSchema::parse(&obj(vec![
        ("kind", s("text")),
        ("goal", s("写一段总结")),
        ("required", arr(&["a"])),
        ("wanted", arr(&["b"])),
    ]))
    .unwrap();
    assert!(schema.required.is_empty() && schema.wanted.is_empty());
}

#[test]
fn kind_round_trips_through_str() {
    for kind in OutputKind::ALL {
        assert_eq!(OutputKind::parse(kind.as_str()), Some(kind));
    }
    assert_eq!(OutputKind::parse(" success_only "), None);
}

#[test]
fn exact_error_texts_and_trimming() {
    assert_eq!(
        OutputSchema::parse(&JsonValue::Null).unwrap_err(),
        "output_schema 必须是对象"
    );
    assert_eq!(
        OutputSchema::parse(&obj(vec![("goal", s("g"))])).unwrap_err(),
        "output_schema.kind 非法: \"\"（应为 bool / text / markdown / json / csv / file）"
    );
    assert_eq!(
        OutputSchema::parse(&obj(vec![("kind", s("file"))])).unwrap_err(),
        "output_schema.kind 为 file 时必须给出非空 goal"
    );
    let schema = OutputSchema::parse(&obj(vec![
        ("kind", s(" markdown ")),
        ("goal", s("  报告 ")),
        ("format", s("\t")),
    ]))
    .unwrap();
    assert_eq!(schema.kind, OutputKind::Markdown);
    assert_eq!(schema.goal.as_deref(), Some("报告"));
    assert_eq!(schema.format, None);
    assert_eq!(OutputKind::parse("\u{3000}csv\n"), Some(OutputKind::Csv));
}

#[test]
fn invalid_kind_is_quoted_in_the_error() {
    let err = OutputSchema::parse(&obj(vec![("kind", s("success_only")), ("success", s("s"))]))
        .unwrap_err();
    assert!(err.contains("\"success_only\""), "{err}");
    assert_eq!(
        err,
        "output_schema.kind 非法: \"success_only\"（应为 bool / text / markdown / json / csv / file）"
    );
}
