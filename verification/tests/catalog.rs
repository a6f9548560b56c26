use codewhale_tui::json::{object1, object2, text_array, text_value, Json};
use codewhale_tui::models::{AppMode, Tool, ToolError};
use codewhale_tui::names::NameSet;
use codewhale_tui::tool_catalog::{
    active_tool_list_from_catalog, active_tools_for_step, build_model_tool_catalog,
    build_model_tool_catalog_with_surface,
    catalog_contains_tool, deferred_tool_schema_hydration_result, discover_tools_with_bm25_like,
    discover_tools_with_regex, edit_distance, ensure_advanced_tooling, execute_tool_search,
    initial_active_tools, is_shell_tool_name, is_tool_search_tool, likely_field_corrections,
    maybe_activate_requested_deferred_tool, maybe_hydrate_requested_deferred_tool,
    missing_tool_error_message, preflight_requested_deferred_tool, received_field_names,
    schema_fields, schema_required_fields, schema_type_label, should_default_defer_tool,
    should_keep_mcp_tool_loaded, suggest_tool_names, tool_catalog_consistency_issues,
    tool_search_haystack, unavailable_core_action_tools_with_bm25_like, ToolSurfaceBudget,
};

fn tool(name: &str, description: &str) -> Tool {
    Tool {
        tool_type: None,
        name: name.to_string(),
        description: description.to_string(),
        input_schema: object2(
            "properties",
            object1("path", object1("type", text_value("string"))),
            "required",
            text_array(&vec!["path".to_string()]),
        ),
        allowed_callers: None,
        defer_loading: None,
        input_examples: None,
        strict: None,
        cache_control: None,
    }
}

fn deferred(name: &str) -> Tool {
    let mut t = tool(name, "waits");
    t.defer_loading = Some(true);
    t
}

#[test]
fn core_tools_are_offered_from_the_start() {
    let none = NameSet::new();
    assert!(!should_default_defer_tool("read_file", &none));
    assert!(should_default_defer_tool("some_rare_tool", &none));
    let mut always = NameSet::new();
    always.insert("some_rare_tool");
    assert!(!should_default_defer_tool("some_rare_tool", &always));
    assert!(should_keep_mcp_tool_loaded("list_mcp_resources"));
    assert!(!should_keep_mcp_tool_loaded("mcp_git_push"));
}

#[test]
fn catalogs_are_sorted_in_two_parts() {
    let catalog = build_model_tool_catalog(
        vec![tool("write_file", ""), tool("read_file", "")],
        vec![tool("mcp_b", ""), tool("mcp_a", "")],
        AppMode::Agent,
        &NameSet::new(),
    );
    let names: Vec<&str> = catalog.iter().map(|t| t.name.as_str()).collect();
    assert_eq!(names, vec!["read_file", "write_file", "mcp_a", "mcp_b"]);
    assert!(catalog_contains_tool(&catalog, "mcp_a"));
    assert!(!catalog_contains_tool(&catalog, "mcp_c"));
}

#[test]
fn active_tools_grow_at_the_end() {
    let catalog = vec![tool("a", ""), deferred("b"), tool("c", "")];
    let mut active = initial_active_tools(&catalog);
    assert!(active.contains("a") && !active.contains("b"));
    assert_eq!(active_tool_list_from_catalog(&catalog, &active).len(), 2);
    assert!(maybe_activate_requested_deferred_tool("b", &catalog, &mut active));
    assert!(!maybe_activate_requested_deferred_tool("b", &catalog, &mut active));
    let listed = active_tool_list_from_catalog(&catalog, &active);
    let names: Vec<&str> = listed.iter().map(|t| t.name.as_str()).collect();
    assert_eq!(names, vec!["a", "c", "b"]);
}

#[test]
fn plans_can_be_forced() {
    let catalog = vec![tool("update_plan", ""), tool("read_file", "")];
    let active = initial_active_tools(&catalog);
    let forced = active_tools_for_step(&catalog, &active, true);
    assert_eq!(forced.len(), 1);
    assert_eq!(forced[0].name, "update_plan");
    assert_eq!(active_tools_for_step(&catalog, &active, false).len(), 2);
}

#[test]
fn distances_count_edits() {
    assert_eq!(edit_distance("kitten", "sitting"), 3);
    assert_eq!(edit_distance("", "abc"), 3);
    assert_eq!(edit_distance("same", "same"), 0);
    assert_eq!(edit_distance("sitting", "kitten"), 3);
    assert_eq!(edit_distance("caf\u{e9}", "cafe"), 1);
    let words = ["", "a", "grep", "grep_files", "read_file", "edit_file"];
    for a in words {
        for b in words {
            let d = edit_distance(a, b);
            assert!(a.len().abs_diff(b.len()) <= d && d <= a.len().max(b.len()));
            for c in words {
                assert!(edit_distance(a, c) <= d + edit_distance(b, c));
            }
        }
    }
}

#[test]
fn names_that_are_near_are_suggested() {
    let catalog = vec![tool("read_file", ""), tool("write_file", ""), tool("grep_files", "")];
    let names = suggest_tool_names(&catalog, "read_fil", 2);
    assert_eq!(names[0], "read_file");
    assert!(missing_tool_error_message("read_fil", &catalog).contains("read_file"));
    assert!(is_shell_tool_name("exec_shell"));
}

#[test]
fn catalogs_are_searched() {
    let catalog = vec![
        tool("read_file", "Read the text of a file"),
        tool("git_log", "Show the history"),
    ];
    assert_eq!(
        discover_tools_with_bm25_like(&catalog, "history", 5),
        vec!["git_log".to_string()]
    );
    let tried = discover_tools_with_regex(&catalog, ".", 0).expect("this is a pattern");
    assert_eq!(tried, vec![catalog[0].name.clone()]);
    let found = match discover_tools_with_regex(&catalog, "^read_.*", 5) {
        Ok(names) => names,
        Err(_) => panic!("the pattern is well formed"),
    };
    assert_eq!(found, vec!["read_file".to_string()]);
    assert!(matches!(
        discover_tools_with_regex(&catalog, "(", 5),
        Err(ToolError::InvalidInput { .. })
    ));
    assert!(tool_search_haystack(&catalog[1]).contains("history"));
    assert!(!unavailable_core_action_tools_with_bm25_like(&catalog, "shell command", 5).is_empty());
}

#[test]
fn searches_make_tools_active() {
    let catalog = vec![deferred("git_log"), deferred("git_blame")];
    let mut active = NameSet::new();
    let input = object1("query", text_value("git_log"));
    let searched = execute_tool_search("tool_search_tool_regex", &input, &catalog, &mut active);
    assert!(searched.is_ok());
    assert!(active.contains("git_log"));
    assert!(!active.contains("git_blame"));
    let input = object1("query", text_value("git"));
    let again = execute_tool_search("tool_search_tool_regex", &input, &catalog, &mut active);
    let text = again.expect("this is a pattern").content;
    assert!(text.contains("git_blame"));
    assert!(!text.contains("git_log"));
    assert!(active.contains("git_blame"));
    let refused = execute_tool_search(
        "tool_search_tool_regex",
        &Json::Object(Vec::new()),
        &catalog,
        &mut active,
    );
    assert!(refused.is_err());
    assert!(is_tool_search_tool("tool_search_tool_regex"));
}

#[test]
fn tools_that_wait_show_their_parameters_once() {
    let catalog = vec![deferred("git_log")];
    let mut hydrated = NameSet::new();
    let input = object1("file", text_value("a"));
    let first = maybe_hydrate_requested_deferred_tool(
        "git_log",
        &input,
        &catalog,
        &NameSet::new(),
        &mut hydrated,
    );
    assert!(first.expect("the tool waited").content.contains("path"));
    let mut active = NameSet::new();
    assert!(preflight_requested_deferred_tool("git_log", &input, &catalog, &mut active).is_some());
    assert!(preflight_requested_deferred_tool("git_log", &input, &catalog, &mut active).is_none());
    let shown = deferred_tool_schema_hydration_result(&catalog[0], &input);
    assert!(shown.content.contains("git_log"));
}

#[test]
fn schemas_are_put_into_words() {
    let schema = tool("t", "").input_schema;
    let fields = schema_fields(&schema);
    assert_eq!(fields.len(), 1);
    assert_eq!((fields[0].name.as_str(), fields[0].kind.as_str()), ("path", "string"));
    assert_eq!(schema_required_fields(&schema), vec!["path".to_string()]);
    assert_eq!(schema_type_label(&object1("type", text_value("integer"))), "integer");
    assert_eq!(
        received_field_names(&object1("file", Json::Null)),
        vec!["file".to_string()]
    );
    let advice = likely_field_corrections(
        &vec!["old_string".to_string(), "new_str".to_string()],
        &vec!["search".to_string(), "replace".to_string()],
        "edit_file",
    );
    assert_eq!(
        advice,
        vec!["old_string -> search".to_string(), "new_str -> replace".to_string()]
    );
}

#[test]
fn engines_bring_tools_of_their_own() {
    let mut catalog = vec![tool("read_file", "")];
    ensure_advanced_tooling(&mut catalog, AppMode::Agent, &NameSet::new(), true, None);
    assert!(catalog.iter().any(|t| is_tool_search_tool(&t.name)));
    assert!(catalog_contains_tool(&catalog, "code_execution"));
    let script = Some(tool("script", ""));
    ensure_advanced_tooling(&mut catalog, AppMode::Agent, &NameSet::new(), true, script);
    let names: Vec<&str> = catalog.iter().map(|t| t.name.as_str()).collect();
    assert_eq!(names, vec!["read_file", "code_execution", "tool_search", "js_execution"]);
    let script = Some(tool("script", ""));
    ensure_advanced_tooling(&mut catalog, AppMode::Agent, &NameSet::new(), true, script);
    assert_eq!(catalog.len(), 4);
}

#[test]
fn tools_without_handlers_are_complained_about() {
    let catalog = vec![tool("ghost", "")];
    let issues = tool_catalog_consistency_issues(
        &catalog,
        &NameSet::new(),
        &NameSet::new(),
        &NameSet::new(),
    );
    assert!(issues.iter().any(|line| line.contains("ghost")));
}

#[test]
fn wanted_tools_do_not_wait() {
    let mut always = NameSet::new();
    always.insert("agent");
    let catalog = build_model_tool_catalog_with_surface(
        vec![tool("agent", ""), tool("rare", "")],
        vec![tool("mcp_x", "")],
        AppMode::Agent,
        &always,
        ToolSurfaceBudget::Compact,
    );
    assert_eq!(catalog[0].defer_loading, Some(false));
    assert_eq!(catalog[1].defer_loading, Some(true));
}

#[test]
fn some_tool_is_active() {
    let active = initial_active_tools(&vec![deferred("a"), deferred("b")]);
    assert!(active.contains("a"));
    assert!(!active.contains("b"));
}
