use codewhale_tui::context::{
    route_capped, route_window_tokens, summarize_subagent_status, tool_result_metadata_summary,
};
use codewhale_tui::dispatch::{
    message_already_has_recovery_hint, transient_tool_fallback_hint,
};
use codewhale_tui::engine::approval::CancelReason;
use codewhale_tui::engine::goal::GoalSnapshot;
use codewhale_tui::engine::mailbox::{subagent_mailbox_message_is_best_effort, MailboxKind};
use codewhale_tui::engine::metadata::{
    active_goal_resource_line, active_input_tokens_with_current_text, context_pressure_line,
    mode_runtime_instructions, turn_metadata_text, ContextPressure, GoalResources, ModeTexts,
    PressureLevel, TurnFacts, TurnRoute,
};
use codewhale_tui::engine::rules::exec_shell_question;
use codewhale_tui::engine::state::{seam_config, SeamConfig, SeamSettings};
use codewhale_tui::ids::compaction_id;
use codewhale_tui::json::{object1, text_value, Json};
use codewhale_tui::lsp::diagnostics::{Diagnostic, Severity};
use codewhale_tui::models::{AppMode, Tool, ToolError, Usage};
use codewhale_tui::names::NameSet;
use codewhale_tui::ops::UserInputProvenance;
use codewhale_tui::session::SessionUsage;
use codewhale_tui::tool_catalog::{
    apply_mcp_tool_deferral, apply_native_tool_deferral, build_model_tool_catalog_with_surface,
    core_action_tool_fallbacks, default_active_native_tool_names, is_synthetic_catalog_tool,
    unavailable_core_action_tools_with_regex, ToolSurfaceBudget,
};
use codewhale_tui::turn::TurnContext;

fn usage(input: u32, output: u32) -> Usage {
    Usage {
        input_tokens: input,
        output_tokens: output,
        prompt_cache_hit_tokens: Some(1),
        prompt_cache_miss_tokens: None,
        reasoning_tokens: None,
        reasoning_replay_tokens: None,
        server_tool_use: None,
    }
}

fn tool(name: &str) -> Tool {
    Tool {
        tool_type: None,
        name: name.to_string(),
        description: String::new(),
        input_schema: Json::Object(Vec::new()),
        allowed_callers: None,
        defer_loading: None,
        input_examples: None,
        strict: None,
        cache_control: None,
    }
}

fn facts() -> TurnFacts {
    TurnFacts {
        today: "2026-01-02".to_string(),
        workspace: "/w".to_string(),
        mode: AppMode::Plan,
        mode_setting: "plan".to_string(),
        working_set_summary: None,
        git_snapshot: Some("main".to_string()),
        pressure: None,
        goal: None,
    }
}

fn texts() -> ModeTexts {
    ModeTexts {
        agent: " act ".to_string(),
        plan: " look ".to_string(),
        operate: " run ".to_string(),
    }
}

#[test]
fn turns_count_calls_and_tokens() {
    let mut turn = TurnContext::new(3, 0);
    assert!(!turn.has_tool_calls());
    turn.record_tool_call();
    turn.record_tool_call();
    assert!(turn.has_tool_calls());
    assert_eq!(turn.tool_call_count, 2);
    turn.add_usage(&usage(10, 4));
    turn.add_usage(&usage(5, 1));
    assert_eq!((turn.usage.input_tokens, turn.usage.output_tokens), (15, 5));
    assert_eq!(turn.usage.prompt_cache_hit_tokens, Some(2));
    assert_eq!(turn.usage.prompt_cache_miss_tokens, None);
}

#[test]
fn identifiers_of_compactions_are_short() {
    let id = compaction_id();
    assert!(id.starts_with("compact_"));
    assert_eq!(id.len(), 16);
    assert!(id[8..].chars().all(|c| c.is_ascii_hexdigit()));
    assert_ne!(id, compaction_id());
}

#[test]
fn windows_of_routes_fit_in_32_bits() {
    assert_eq!(route_window_tokens(Some(128_000)), Some(128_000));
    assert_eq!(route_window_tokens(Some(0)), None);
    assert_eq!(route_window_tokens(Some(u64::MAX)), None);
    assert_eq!(route_window_tokens(None), None);
    assert_eq!(route_capped(100, Some(7)), 7);
    assert_eq!(route_capped(100, Some(700)), 100);
    assert_eq!(route_capped(100, None), 100);
}

#[test]
fn pressure_is_told_with_its_level() {
    let mut pressure = ContextPressure {
        label: "high".to_string(),
        percent: "81.0".to_string(),
        level: PressureLevel::Normal,
        input_tokens: 81,
        window_tokens: 100,
        available_input_tokens: 9,
    };
    let line = "Context pressure: high (81.0% used, 81 / 100 tokens; 9 input tokens available)";
    assert_eq!(context_pressure_line(&pressure), line);
    pressure.level = PressureLevel::Warning;
    assert!(context_pressure_line(&pressure).contains("ESCALATED"));
    pressure.level = PressureLevel::Critical;
    assert!(context_pressure_line(&pressure).contains("CRITICAL"));
}

#[test]
fn goals_are_told_with_their_rate() {
    let mut resources = GoalResources {
        goal: GoalSnapshot {
            objective: Some("ship".to_string()),
            status: "active".to_string(),
            active: true,
            token_budget: None,
            tokens_used: 10,
            time_used_seconds: 5,
            continuation_count: 2,
        },
        summary: "10 tokens in 5s".to_string(),
        rate: "2.0".to_string(),
    };
    assert_eq!(
        active_goal_resource_line(&resources).as_deref(),
        Some("Active goal resource usage: 10 tokens in 5s; 2.0 tok/s; 2 continuations")
    );
    resources.goal.time_used_seconds = 0;
    assert_eq!(
        active_goal_resource_line(&resources).as_deref(),
        Some("Active goal resource usage: 10 tokens in 5s; 2 continuations")
    );
    resources.goal.active = false;
    assert!(active_goal_resource_line(&resources).is_none());
}

#[test]
fn modes_have_rules() {
    assert_eq!(mode_runtime_instructions(AppMode::Plan, &texts()), "look");
    assert_eq!(mode_runtime_instructions(AppMode::Operate, &texts()), "run");
    assert_eq!(mode_runtime_instructions(AppMode::Yolo, &texts()), "act");
}

#[test]
fn metadata_stand_between_tags() {
    let route = TurnRoute {
        model: "m".to_string(),
        auto_model: false,
        reasoning_effort: None,
        reasoning_effort_auto: false,
    };
    let text = turn_metadata_text(
        &facts(),
        &route,
        UserInputProvenance::ExternalUser,
        &SessionUsage::default(),
        &texts(),
    );
    assert!(text.starts_with("<turn_meta>\nCurrent local date: 2026-01-02\n"));
    assert!(text.contains("\nCurrent model: m\nCurrent mode: plan\n"));
    assert!(text.ends_with("\nGit workspace: main\n</turn_meta>"));
}

#[test]
fn current_texts_count_as_messages() {
    let without = active_input_tokens_with_current_text(2, 100, None, "  ");
    let with = active_input_tokens_with_current_text(2, 100, None, "hello");
    assert!(without < with);
    assert_eq!(with, active_input_tokens_with_current_text(3, 100, None, ""));
}

#[test]
fn layers_take_what_was_set() {
    let usual = SeamConfig {
        enabled: true,
        verbatim_window_turns: 16,
        l1_threshold: 1,
        l2_threshold: 2,
        l3_threshold: 3,
        seam_model: "small".to_string(),
    };
    let settings = SeamSettings {
        enabled: None,
        verbatim_window_turns: Some(4),
        l1_threshold: None,
        l2_threshold: Some(20),
        l3_threshold: None,
        seam_model: Some("other".to_string()),
    };
    let seam = seam_config(settings, usual);
    assert!(!seam.enabled);
    assert_eq!((seam.verbatim_window_turns, seam.l1_threshold), (4, 1));
    assert_eq!((seam.l2_threshold, seam.l3_threshold), (20, 3));
    assert_eq!(seam.seam_model, "other");
}

#[test]
fn native_and_remote_tools_wait_by_different_rules() {
    let none = NameSet::new();
    let mut native = vec![tool("read_file"), tool("rare")];
    apply_native_tool_deferral(&mut native, &none);
    assert_eq!((native[0].defer_loading, native[1].defer_loading), (Some(false), Some(true)));
    let mut remote = vec![tool("list_mcp_resources"), tool("mcp_x")];
    apply_mcp_tool_deferral(&mut remote, AppMode::Agent, &none);
    assert_eq!((remote[0].defer_loading, remote[1].defer_loading), (Some(false), Some(true)));
    apply_mcp_tool_deferral(&mut remote, AppMode::Yolo, &none);
    assert_eq!(remote[1].defer_loading, Some(false));
}

#[test]
fn little_room_makes_bulky_tools_wait() {
    let none = NameSet::new();
    let compact = build_model_tool_catalog_with_surface(
        vec![tool("read_file"), tool("agent")],
        Vec::new(),
        AppMode::Agent,
        &none,
        ToolSurfaceBudget::Compact,
    );
    let names: Vec<&str> = compact.iter().map(|t| t.name.as_str()).collect();
    assert_eq!(names, vec!["agent", "read_file"]);
    assert_eq!((compact[0].defer_loading, compact[1].defer_loading), (Some(true), Some(false)));
}

#[test]
fn absent_tools_are_found_by_patterns() {
    let found = unavailable_core_action_tools_with_regex(&Vec::new(), "^write_file$|write_f", 5);
    let names: Vec<&str> = found.expect("a pattern").iter().map(|f| f.name).collect();
    assert!(names.contains(&"write_file"));
    assert!(unavailable_core_action_tools_with_regex(&Vec::new(), "(", 5).is_err());
    let none = unavailable_core_action_tools_with_regex(&Vec::new(), "(", 0);
    assert!(none.expect("there is no room").is_empty());
    assert_eq!(core_action_tool_fallbacks().len(), 4);
}

#[test]
fn names_of_core_tools_are_in_order() {
    let names = default_active_native_tool_names();
    assert!(names.windows(2).all(|pair| pair[0] < pair[1]));
    assert!(is_synthetic_catalog_tool("code_execution", &NameSet::new()));
    assert!(!is_synthetic_catalog_tool("read_file", &NameSet::new()));
}

#[test]
fn advice_is_given_where_a_failure_may_pass() {
    let timeout = ToolError::Timeout { seconds: 3 };
    assert!(transient_tool_fallback_hint(&timeout, "grep_files", "slow").is_some());
    let refused = ToolError::PermissionDenied { message: "timeout".to_string() };
    assert!(transient_tool_fallback_hint(&refused, "grep_files", "timeout").is_none());
    assert!(message_already_has_recovery_hint("Recovery: try again"));
    assert!(!message_already_has_recovery_hint("try again"));
}

#[test]
fn metadata_of_results_are_summed_up() {
    let metadata = Some(object1("stdout_summary", text_value("all  good")));
    assert_eq!(tool_result_metadata_summary(&metadata).as_deref(), Some("all  good"));
    assert!(tool_result_metadata_summary(&None).is_none());
}

#[test]
fn statuses_of_sub_agents_are_texts() {
    assert_eq!(summarize_subagent_status(&text_value("Running")), "Running");
}

#[test]
fn questions_are_asked_about_shell_commands_only() {
    let input = object1("command", text_value("ls"));
    assert_eq!(exec_shell_question("exec_shell", &input), Some("ls"));
    assert_eq!(exec_shell_question("read_file", &input), None);
}

#[test]
fn reasons_have_words() {
    let words = [
        CancelReason::User.describe(),
        CancelReason::External.describe(),
        CancelReason::Preempted.describe(),
        CancelReason::Internal.describe(),
    ];
    assert!(words.iter().all(|word| !word.is_empty()));
    assert_ne!(words[0], words[1]);
}

#[test]
fn progress_may_be_lost_and_ends_may_not() {
    assert!(subagent_mailbox_message_is_best_effort(MailboxKind::Progress));
    assert!(!subagent_mailbox_message_is_best_effort(MailboxKind::Other));
}

#[test]
fn severities_have_an_order_and_remarks_a_line() {
    assert!(Severity::Error.order() < Severity::Warning.order());
    assert!(Severity::Information.order() < Severity::Hint.order());
    let remark = Diagnostic {
        line: 3,
        column: 7,
        severity: Severity::Error,
        message: "no such thing".to_string(),
    };
    assert!(remark.render_message().contains("no such thing"));
}
