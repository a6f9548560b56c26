use codewhale_tui::dispatch::{
    caller_allowed_for_tool, caller_type_for_tool_use, extract_balanced_segment,
    extract_json_segment, final_tool_input, format_tool_error, is_transient_tool_failure,
    malformed_tool_arguments_error, malformed_tool_arguments_input, mcp_tool_approval_description,
    mcp_tool_is_parallel_safe, mcp_tool_is_read_only, mentions_mode_word,
    normalize_parallel_tool_name, parse_parallel_tool_calls, parse_tool_input,
    plan_tool_execution_batches, should_force_update_plan_first, should_parallelize_tool_batch,
    should_stop_after_plan_tool, stamp_tool_result_approval, strip_code_fences,
    with_transient_tool_fallback_hint, ToolApprovalStamp, ToolExecutionBatch, ToolExecutionPlan,
    ToolUseState,
};
use codewhale_tui::engine::execution::{
    audit_line, code_execution_result, error_kind_label, execute_parallel_tool,
    execute_tool_with_lock, mcp_tool_result, needs_shell_permit, refuse_parallel_call, tool_route,
    CallFacts, CallOutcome, ParallelToolResult, ToolFacts, ToolRoute, MAX_PARALLEL_SHELL_EXEC,
};
use codewhale_tui::json::{object2, text_value, Json};
use codewhale_tui::models::{AppMode, Tool, ToolCaller, ToolError, ToolResult};
use codewhale_tui::streaming::{
    contains_fake_tool_wrapper, filter_tool_call_delta, filter_tool_call_delta_with_state,
    flush_tool_call_delta_state, should_resume_after_sleep, should_transparently_retry_stream,
    sleep_gap_detected, stream_read_error_user_message, ToolCallDeltaFilterState,
};

fn plan(index: usize, parallel: bool) -> ToolExecutionPlan {
    ToolExecutionPlan {
        index,
        id: format!("c{index}"),
        name: "read_file".to_string(),
        input: Json::Null,
        caller: None,
        interactive: false,
        approval_required: false,
        approval_description: String::new(),
        approval_force_prompt: false,
        supports_parallel: parallel,
        read_only: parallel,
        detached_start: false,
        blocked_error: None,
        guard_result: None,
    }
}

#[test]
fn neighbours_that_may_run_together_are_batched() {
    let batches = plan_tool_execution_batches(vec![
        plan(0, true),
        plan(1, true),
        plan(2, false),
        plan(3, true),
    ]);
    assert_eq!(batches.len(), 3);
    assert!(matches!(&batches[0], ToolExecutionBatch::Parallel(p) if p.len() == 2));
    assert!(matches!(&batches[1], ToolExecutionBatch::Serial(p) if p.index == 2));
    assert!(should_parallelize_tool_batch(&vec![plan(0, true), plan(1, true)]));
    assert!(!should_parallelize_tool_batch(&vec![plan(0, true), plan(1, false)]));
}

fn result(content: &str) -> ToolResult {
    ToolResult {
        content: content.to_string(),
        success: true,
        metadata: None,
    }
}

#[test]
fn stamps_are_put_on_once() {
    let mut value = result("out");
    stamp_tool_result_approval(&mut value, ToolApprovalStamp::ApprovedByUser);
    let once = value.content.clone();
    assert!(once.starts_with("[approval] "));
    assert!(once.ends_with("\n\nout"));
    stamp_tool_result_approval(&mut value, ToolApprovalStamp::ApprovedWithPolicy);
    assert_eq!(value.content, once);
}

fn tool(callers: Option<Vec<&str>>) -> Tool {
    Tool {
        tool_type: None,
        name: "t".to_string(),
        description: String::new(),
        input_schema: Json::Null,
        allowed_callers: callers.map(|list| list.iter().map(|s| s.to_string()).collect()),
        defer_loading: None,
        input_examples: None,
        strict: None,
        cache_control: None,
    }
}

#[test]
fn callers_are_held_to_the_list() {
    let code = ToolCaller {
        caller_type: "code_execution".to_string(),
        tool_id: None,
    };
    assert_eq!(caller_type_for_tool_use(None), "direct");
    assert_eq!(caller_type_for_tool_use(Some(&code)), "code_execution");
    assert!(caller_allowed_for_tool(None, None));
    assert!(caller_allowed_for_tool(Some(&code), Some(&tool(Some(vec!["code_execution"])))));
    assert!(!caller_allowed_for_tool(None, Some(&tool(Some(vec!["code_execution"])))));
}

#[test]
fn errors_are_put_into_words() {
    let missing = ToolError::MissingField {
        field: "path".to_string(),
    };
    assert!(format_tool_error(&missing, "read_file").contains("path"));
    let slow = ToolError::Timeout { seconds: 9 };
    let text = format_tool_error(&slow, "exec_shell");
    assert!(text.contains('9'));
    assert!(is_transient_tool_failure(&slow, &text));
    assert_eq!(
        with_transient_tool_fallback_hint("m".to_string(), &missing, "read_file"),
        "m"
    );
    assert!(mentions_mode_word("switch mode now"));
    assert!(!mentions_mode_word("a model"));
}

#[test]
fn arguments_are_dug_out() {
    assert_eq!(
        strip_code_fences("```json\n{\"a\": 1}\n```"),
        Some("{\"a\": 1}".to_string())
    );
    assert_eq!(strip_code_fences("plain"), None);
    assert_eq!(
        extract_balanced_segment("x {a {b} c} y", '{', '}'),
        Some("{a {b} c}".to_string())
    );
    assert_eq!(extract_balanced_segment("x {a", '{', '}'), None);
    assert_eq!(extract_json_segment("say [1, 2] now"), Some("[1, 2]".to_string()));
    let direct = parse_tool_input("{\"path\": \"a\"}", None).expect("parses");
    assert_eq!(direct.get_str("path"), Some("a"));
    let inside = parse_tool_input("here: {\"path\": \"b\"} ok", None).expect("parses");
    assert_eq!(inside.get_str("path"), Some("b"));
    assert!(parse_tool_input("nothing", None).is_none());
}

#[test]
fn broken_arguments_are_told() {
    let text = malformed_tool_arguments_error("{\"a");
    assert!(text.contains("{\\\"a"));
    let input = malformed_tool_arguments_input("{\"a");
    assert!(matches!(input, Json::Object(_)));
    let state = ToolUseState {
        id: "c".to_string(),
        name: "n".to_string(),
        input: Json::Bool(true),
        caller: None,
        input_buffer: String::new(),
        input_parse_error: None,
    };
    assert!(matches!(final_tool_input(&state, None), Json::Bool(true)));
}

#[test]
fn bundled_calls_are_unpacked() {
    assert_eq!(normalize_parallel_tool_name("functions.read_file"), "read_file");
    let input = object2(
        "tool_uses",
        Json::Array(vec![object2(
            "recipient_name",
            text_value("functions.read_file"),
            "parameters",
            Json::Object(Vec::new()),
        )]),
        "x",
        Json::Null,
    );
    let calls = match parse_parallel_tool_calls(&input) {
        Ok(calls) => calls,
        Err(_) => panic!("the calls are well formed"),
    };
    assert_eq!(calls.len(), 1);
    assert_eq!(calls[0].0, "read_file");
    assert!(parse_parallel_tool_calls(&Json::Object(Vec::new())).is_err());
}

#[test]
fn plans_come_first_and_end_a_turn() {
    assert!(should_force_update_plan_first(AppMode::Plan, "A Quick Plan please"));
    assert!(!should_force_update_plan_first(AppMode::Agent, "a quick plan please"));
    assert!(should_stop_after_plan_tool(AppMode::Plan, "update_plan", true));
    assert!(!should_stop_after_plan_tool(AppMode::Plan, "update_plan", false));
    assert!(!should_stop_after_plan_tool(AppMode::Agent, "update_plan", true));
}

#[test]
fn reading_tools_of_servers_are_known() {
    assert!(mcp_tool_is_read_only("list_mcp_resources"));
    assert!(mcp_tool_is_parallel_safe("list_mcp_resources"));
    assert!(!mcp_tool_is_read_only("mcp_git_push"));
    assert!(mcp_tool_approval_description("mcp_git_push").contains("mcp_git_push"));
}

#[test]
fn calls_go_their_way() {
    assert_eq!(tool_route("x", true, true), ToolRoute::Mcp);
    assert_eq!(tool_route("code_execution", false, true), ToolRoute::CodeInterpreter);
    assert_eq!(tool_route("js_execution", false, true), ToolRoute::ScriptInterpreter);
    assert_eq!(tool_route("read_file", false, true), ToolRoute::Registry);
    assert_eq!(tool_route("read_file", false, false), ToolRoute::Missing);
    let run = match execute_tool_with_lock("read_file", false, true, false, true, false) {
        Ok(run) => run,
        Err(_) => panic!("the registry is there"),
    };
    assert!(run.shared && !run.hands_over_terminal);
    assert!(execute_tool_with_lock("read_file", false, false, false, true, false).is_err());
    assert!(execute_tool_with_lock("mcp_x", true, true, false, true, false).is_err());
    assert!(!error_kind_label(&ToolError::Timeout { seconds: 1 }).is_empty());
    assert!(mcp_tool_result(Err("down".to_string())).is_err());
    let fine = mcp_tool_result(Ok(Json::Bool(true)));
    assert!(matches!(fine, Ok(r) if r.content.contains("true")));
}

#[test]
fn audit_lines_are_json() {
    let entry = object2("event", text_value("tool.result"), "tool_id", text_value("call-xyz"));
    let line = audit_line(&entry);
    assert_eq!(line, "{\"event\":\"tool.result\",\"tool_id\":\"call-xyz\"}");
}

#[test]
fn code_that_ran_tells_its_outcome() {
    let done = code_execution_result("out", "err", Some(3), false);
    assert!(done.content.contains("out"));
    assert!(done.content.contains("3"));
    assert!(!done.success);
}

#[test]
fn only_reading_calls_run_side_by_side() {
    let reading = CallFacts {
        is_mcp_tool: false,
        registered: Some(ToolFacts {
            read_only: true,
            needs_no_approval: true,
            supports_parallel: true,
        }),
    };
    let writing = CallFacts {
        is_mcp_tool: false,
        registered: Some(ToolFacts {
            read_only: false,
            needs_no_approval: true,
            supports_parallel: true,
        }),
    };
    assert!(refuse_parallel_call("read_file", reading).is_none());
    assert!(refuse_parallel_call("write_file", writing).is_some());
    let unknown = CallFacts {
        is_mcp_tool: false,
        registered: None,
    };
    assert!(refuse_parallel_call("nothing", unknown).is_some());
    let calls = vec![
        ("read_file".to_string(), Json::Null),
        ("write_file".to_string(), Json::Null),
    ];
    assert!(execute_parallel_tool(&calls, &vec![reading, reading], true).is_ok());
    assert!(execute_parallel_tool(&calls, &vec![reading, writing], true).is_err());
}

#[test]
fn results_keep_the_order_of_the_calls() {
    let done = |content: &str| CallOutcome::Done {
        success: true,
        content: content.to_string(),
    };
    let mut a = ParallelToolResult::new(2);
    a.put(0, "x".to_string(), done("1"));
    a.put(1, "y".to_string(), CallOutcome::Failed { message: "bad".to_string() });
    let mut b = ParallelToolResult::new(2);
    b.put(1, "y".to_string(), CallOutcome::Failed { message: "bad".to_string() });
    b.put(0, "x".to_string(), done("1"));
    assert_eq!(audit_line(&a.to_json()), audit_line(&b.to_json()));
    assert!(audit_line(&a.to_json()).contains("bad"));
}

#[test]
fn calls_are_cut_out_of_streams() {
    let mut state = ToolCallDeltaFilterState::default();
    let mut seen = String::new();
    for piece in ["before [TOOL", "_CALL] hidden [/TO", "OL_CALL] after"] {
        seen.push_str(&filter_tool_call_delta_with_state(piece, &mut state));
    }
    seen.push_str(&flush_tool_call_delta_state(&mut state));
    assert!(seen.contains("before ") && seen.contains(" after"));
    assert!(!seen.contains("hidden") && !seen.contains("TOOL"));
    assert!(!state.in_tool_call());
    let mut inside = false;
    assert_eq!(filter_tool_call_delta("plain text", &mut inside), "plain text");
    assert!(!inside);
    assert!(contains_fake_tool_wrapper("x <function_calls> y"));
    assert!(!contains_fake_tool_wrapper("nothing"));
}

#[test]
fn streams_are_retried_a_few_times() {
    assert!(should_transparently_retry_stream(false, 0, false));
    assert!(!should_transparently_retry_stream(true, 0, false));
    assert!(!should_transparently_retry_stream(false, 0, true));
    assert!(!should_transparently_retry_stream(false, 1_000, false));
    assert!(sleep_gap_detected(1_000_000_000, 3_600_000_000_000));
    assert!(!sleep_gap_detected(1_000_000_000, 1_000_000_000));
    assert!(should_resume_after_sleep(true, 0, false));
    assert!(!should_resume_after_sleep(false, 0, false));
    assert!(!should_resume_after_sleep(true, 0, true));
    assert!(stream_read_error_user_message("boom", true).contains("boom"));
}

#[test]
fn shell_commands_beside_others_need_a_permit() {
    assert_eq!(MAX_PARALLEL_SHELL_EXEC, 4);
    assert!(needs_shell_permit("exec_shell"));
    assert!(!needs_shell_permit("exec_shell_wait"));
    assert!(!needs_shell_permit("read_file"));
}
