use planned_agent::chat::tools::select_tools_by_tokens;

fn tool(name: &str, cats: &[&str]) -> (String, Vec<String>) {
    (name.to_string(), cats.iter().map(|c| c.to_string()).collect())
}

fn categories() -> Vec<String> {
    ["Browser", "Data", "File", "Utility", "SubAgent"].iter().map(|c| c.to_string()).collect()
}

fn tokens(items: &[&str]) -> Vec<String> {
    items.iter().map(|t| t.to_string()).collect()
}

#[test]
fn all_excludes_utility_and_subagent() {
    let enabled = vec![
        tool("browser", &["Browser"]),
        tool("data", &["Data"]),
        tool("flexible_state", &["Utility"]),
        tool("step1", &["SubAgent"]),
        tool("hybrid", &["Browser", "Utility"]),
    ];
    let out = select_tools_by_tokens(&enabled, &tokens(&["all"]), &categories());
    assert_eq!(out, vec!["browser", "data"]);
}

#[test]
fn all_plus_named_utility_is_readded() {
    let enabled = vec![tool("browser", &["Browser"]), tool("flexible_state", &["Utility"])];
    let out = select_tools_by_tokens(&enabled, &tokens(&["all", "flexible_state"]), &categories());
    assert_eq!(out, vec!["browser", "flexible_state"]);
}

#[test]
fn category_token_loads_whole_category() {
    let enabled = vec![tool("a", &["Browser"]), tool("b", &["Browser"]), tool("c", &["File"])];
    let out = select_tools_by_tokens(&enabled, &tokens(&["Browser"]), &categories());
    assert_eq!(out, vec!["a", "b"]);
}

#[test]
fn none_named_or_unknown_tokens_yield_nothing() {
    let enabled = vec![tool("a", &["Browser"])];
    let out = select_tools_by_tokens(&enabled, &tokens(&["NotACategory", "missing_tool"]), &categories());
    assert!(out.is_empty());
    let out2 = select_tools_by_tokens(&enabled, &tokens(&[]), &categories());
    assert!(out2.is_empty());
}

#[test]
fn named_nonexistent_tool_is_ignored() {
    let enabled = vec![tool("real", &["File"])];
    let out = select_tools_by_tokens(&enabled, &tokens(&["all", "ghost_tool"]), &categories());
    assert_eq!(out, vec!["real"]);
}

#[test]
fn union_of_tokens_keeps_enabled_order() {
    let enabled = vec![tool("x", &["Utility"]), tool("y", &["File"]), tool("z", &["SubAgent"])];
    let out = select_tools_by_tokens(&enabled, &tokens(&["z", "SubAgent", "y"]), &categories());
    assert_eq!(out, vec!["y", "z"]);
}
