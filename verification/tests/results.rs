use codewhale_tui::context::{
    clean_text, compact_run_tests_result_for_context, compact_run_verifiers_result_for_context,
    compact_structured_tool_result_for_context, compact_subagent_tool_result_for_context,
    compact_task_gate_run_result_for_context, compact_tool_result_for_context,
    context_input_budget_for_route, effective_max_output_tokens,
    effective_max_output_tokens_for_route, estimate_input_tokens_conservative,
    estimate_text_tokens_conservative, extract_compaction_summary_prompt, json_field_text,
    route_output_reservation_for_window, run_verifier_status_rank, summarize_text,
    summarize_text_head_tail, tool_result_context_limits_for_model, tool_result_is_noisy,
};
use codewhale_tui::engine::state_block::{
    append_plan_field, append_plan_list, capture, ItemStatus, OpenSubAgent, TodoSnapshot,
    WorkItem,
};
use codewhale_tui::json::{object1, text_value};
use codewhale_tui::models::{SystemPrompt, ToolResult};
use codewhale_tui::text::{
    comes_before, join, parse_number, replace_text, split_lines, split_words,
    to_ascii_lowercase, trim,
};

#[test]
fn texts_are_cut_and_joined() {
    assert_eq!(trim("  a b \n"), "a b");
    assert_eq!(join(&vec!["a".to_string(), "b".to_string()], ", "), "a, b");
    assert_eq!(split_lines("a\r\nb\n"), vec!["a".to_string(), "b".to_string()]);
    assert_eq!(split_words(" a  b "), vec!["a".to_string(), "b".to_string()]);
    assert_eq!(to_ascii_lowercase("ÄbC"), "Äbc");
    assert_eq!(parse_number("42", 100), Some(42));
    assert_eq!(parse_number("101", 100), None);
    assert_eq!(parse_number("x", 100), None);
    assert_eq!(replace_text("aXbX", "X", "--"), "a--b--");
    assert!(comes_before("a", "b") && !comes_before("b", "a"));
    assert_eq!(clean_text("  "), None);
    assert_eq!(clean_text(" x "), Some("x".to_string()));
}

#[test]
fn short_texts_pass() {
    assert_eq!(summarize_text("abc", 10), "abc");
    assert!(summarize_text(&"x".repeat(50), 10).starts_with("xxxxx"));
    assert!(summarize_text(&"x".repeat(50), 10).chars().count() < 50);
    assert_eq!(summarize_text_head_tail("abc", 10), "abc");
    let cut = summarize_text_head_tail(&format!("head{}tail", "x".repeat(5000)), 200);
    assert!(cut.starts_with("head") && cut.ends_with("tail"));
    assert!(cut.chars().count() < 5000);
}

#[test]
fn long_results_are_shortened() {
    let short = ToolResult {
        content: "fine".to_string(),
        success: true,
        metadata: None,
    };
    assert_eq!(compact_tool_result_for_context(None, "read_file", &short), "fine");
    let limits = tool_result_context_limits_for_model(None);
    let long = ToolResult {
        content: "x".repeat(limits.hard_limit_chars + 1000),
        success: true,
        metadata: Some(object1("path", text_value("a"))),
    };
    let cut = compact_tool_result_for_context(None, "read_file", &long);
    assert!(cut.chars().count() < long.content.chars().count());
    assert!(tool_result_is_noisy("exec_shell"));
    assert!(!tool_result_is_noisy("update_plan"));
}

#[test]
fn structured_results_are_summed_up() {
    assert!(compact_run_tests_result_for_context("no json").is_none());
    let tests = r#"{"success": false, "exit_code": 101, "command": "cargo test", "stdout": "boom"}"#;
    let text = compact_run_tests_result_for_context(tests).expect("is an object");
    assert!(text.contains("101"));
    assert_eq!(
        compact_structured_tool_result_for_context("run_tests", tests),
        Some(text)
    );
    let gates = r#"{"success": false, "gates": [{"name": "b", "status": "passed"}, {"name": "a", "status": "failed"}]}"#;
    let text = compact_run_verifiers_result_for_context(gates).expect("has gates");
    assert!(text.find("a").is_some());
    assert!(run_verifier_status_rank(Some("failed")) < run_verifier_status_rank(Some("passed")));
    assert!(compact_task_gate_run_result_for_context("[]").is_none());
    assert!(compact_subagent_tool_result_for_context("read_file", "{}").is_none());
    assert!(compact_structured_tool_result_for_context("read_file", "{}").is_none());
    assert_eq!(
        json_field_text(&object1("a", text_value(" b ")), "a"),
        Some("b".to_string())
    );
}

#[test]
fn summaries_are_found_in_prompts() {
    let with = SystemPrompt::Text("x Conversation Summary (Auto-Generated)".to_string());
    assert!(extract_compaction_summary_prompt(Some(with)).is_some());
    let without = SystemPrompt::Text("x".to_string());
    assert!(extract_compaction_summary_prompt(Some(without)).is_none());
    assert!(extract_compaction_summary_prompt(None).is_none());
}

#[test]
fn estimates_are_generous() {
    assert_eq!(estimate_text_tokens_conservative(""), 0);
    assert!(estimate_text_tokens_conservative("abcdef") >= 2);
    let small = estimate_input_tokens_conservative(100, 1, None);
    let large = estimate_input_tokens_conservative(100, 10, None);
    assert!(small >= 100 && large > small);
}

#[test]
fn outputs_are_capped() {
    assert!(effective_max_output_tokens(None, Some(128_000)) > 0);
    assert_eq!(effective_max_output_tokens(Some("1234"), Some(128_000)), 1234);
    let half = |window: u64, cap: u64| cap.min(window / 2);
    assert_eq!(effective_max_output_tokens_for_route(1000, Some(500), None, &half), 500);
    assert_eq!(effective_max_output_tokens_for_route(1000, Some(500), Some(0), &half), 500);
    assert_eq!(effective_max_output_tokens_for_route(1000, Some(500), Some(1 << 32), &half), 500);
    assert_eq!(effective_max_output_tokens_for_route(1000, None, Some(600), &half), 300);
    assert_eq!(effective_max_output_tokens_for_route(1000, None, Some(1), &half), 1);
    let endless = |_: u64, _: u64| u64::MAX;
    assert_eq!(effective_max_output_tokens_for_route(1000, None, Some(600), &endless), 1000);
}

#[test]
fn input_is_budgeted_with_the_reservation_of_the_window() {
    assert_eq!(route_output_reservation_for_window(1000, 100_000, Some(500)), 500);
    assert_eq!(route_output_reservation_for_window(1000, 100_000, Some(300_000)), 262_144);
    assert_eq!(route_output_reservation_for_window(1000, 100_000, None), 1000);
    assert_eq!(route_output_reservation_for_window(1000, 500_000, None), 262_144);
    let budget = |window: u32| move |kept: u32| window.checked_sub(kept).map(u64::from);
    assert_eq!(context_input_budget_for_route(100_000, 1000, Some(500), &budget(100_000)), Some(99_500));
    assert_eq!(context_input_budget_for_route(100_000, 1000, None, &budget(100_000)), Some(99_000));
    assert_eq!(context_input_budget_for_route(500_000, 1000, None, &budget(500_000)), Some(237_856));
    assert_eq!(context_input_budget_for_route(400, 1000, None, &budget(400)), None);
}

#[test]
fn states_are_written_down() {
    let mut out = String::new();
    append_plan_field(&mut out, "Title", Some(" Ship "));
    append_plan_field(&mut out, "Objective", None);
    append_plan_list(&mut out, "Files", &vec!["a.rs".to_string()]);
    assert!(out.contains("Ship") && out.contains("a.rs") && !out.contains("Objective"));
    let state = capture(
        "agent".to_string(),
        "/w".to_string(),
        None,
        None,
        TodoSnapshot {
            completion_pct: 50,
            items: vec![WorkItem {
                status: ItemStatus::InProgress,
                text: "write tests".to_string(),
            }],
        },
        None,
        vec![
            (
                OpenSubAgent {
                    agent_id: "a1".to_string(),
                    role: None,
                    objective: "look".to_string(),
                },
                true,
            ),
            (
                OpenSubAgent {
                    agent_id: "a2".to_string(),
                    role: None,
                    objective: "done".to_string(),
                },
                false,
            ),
        ],
    );
    assert_eq!(state.subagent_snapshots.len(), 1);
    let block = state.to_system_block().expect("there is something to tell");
    assert!(block.contains("write tests") && block.contains("a1"));
}
