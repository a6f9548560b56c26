use codewhale_tui::authority::{ApprovalMode, SandboxPolicy, ShellPolicy};
use codewhale_tui::dispatch::ToolApprovalStamp;
use codewhale_tui::engine::approval::ApprovalResult;
use codewhale_tui::engine::compaction::{CompactionResult, PurgeResult};
use codewhale_tui::engine::goal::{
    goal_continuation_if_active, goal_objective_for_prompt, goal_snapshot_for_event, goal_updated,
    handle_set_goal_status, normalized_goal_objective, record_goal_usage_for_turn, GoalSnapshot,
};
use codewhale_tui::engine::mailbox::{MailboxKind, SentTimes};
use codewhale_tui::engine::metadata::{
    session_token_usage_line, system_prompt_hash, ModeTexts, TurnFacts,
};
use codewhale_tui::engine::prompt::GateCache;
use codewhale_tui::engine::recovery::{
    seam_failed_message, seam_way, SeamStep, SeamWay,
};
use codewhale_tui::engine::requests::{
    cancel_failed, spawn_outcome, Step, SubagentCeilings,
};
use codewhale_tui::engine::rules::PolicyAnswer;
use codewhale_tui::engine::shell::{
    shell_approval, stamp_shell_result, ShellApproval, ShellStep, ShellToolFacts,
};
use codewhale_tui::engine::state::{
    env_only_api_key_recovery_hint, CompactionConfig, ConfigDefaults, Engine, EngineConfig,
    Features, RouteLimits, SeamConfig, SeamSettings,
};
use codewhale_tui::engine::tool_setup::{
    default_plugin_tools_dir, filter_tool_catalog_for_gates, mcp_connect_failures,
    plugin_tool_names, plugin_tools_dir, should_register_remember_tool, subagent_role_models,
    ToolGroup, TurnTools,
};
use codewhale_tui::engine::turns::{RouteFailure, RouteSetup, TurnOutcome};
use codewhale_tui::events::{Event, FailureKind};
use codewhale_tui::json::Json;
use codewhale_tui::lsp::diagnostics::{Diagnostic, DiagnosticBlock, Severity};
use codewhale_tui::models::{
    AppMode, ContentBlock, Message, SystemPrompt, Tool, ToolError, ToolResult, Usage,
};
use codewhale_tui::names::NameSet;
use codewhale_tui::ops::{
    GoalStatus, Op, SendMessage, SyncSession, TurnOutcomeStatus, UserInputProvenance,
};
use codewhale_tui::session::SessionUsage;
use codewhale_tui::tool_catalog::ToolSurfaceBudget;

fn config() -> EngineConfig {
    EngineConfig::with_defaults(ConfigDefaults {
        text_model: "model-a".to_string(),
        skills_dir: "/skills".to_string(),
        features: Features {
            shell_tool: true,
            mcp: true,
            subagents: true,
            apply_patch: true,
            web_search: true,
            vision_model: false,
        },
        compaction: CompactionConfig {
            enabled: false,
            token_threshold: 500,
        },
        max_subagents: 4,
        max_spawn_depth: 3,
        snapshot_workspace_bytes: 1000,
        subagent_api_timeout_secs: 60,
        stream_chunk_timeout_secs: 30,
        subagent_heartbeat_timeout_secs: 90,
    })
}

fn no_settings() -> SeamSettings {
    SeamSettings {
        enabled: None,
        verbatim_window_turns: None,
        l1_threshold: None,
        l2_threshold: None,
        l3_threshold: None,
        seam_model: None,
    }
}

fn usual_seam() -> SeamConfig {
    SeamConfig {
        enabled: false,
        verbatim_window_turns: 16,
        l1_threshold: 100,
        l2_threshold: 200,
        l3_threshold: 300,
        seam_model: "small".to_string(),
    }
}

fn engine_with(connected: Result<String, String>, settings: SeamSettings) -> Engine {
    let (mut engine, events) = Engine::new(
        config(),
        "deepseek".to_string(),
        connected,
        None,
        None,
        SystemPrompt::Text("prompt".to_string()),
        settings,
        usual_seam(),
    );
    assert!(events.is_empty());
    engine.session.id = "session-1".to_string();
    engine
}

fn engine() -> Engine {
    engine_with(Ok("deepseek".to_string()), no_settings())
}

fn ceilings() -> SubagentCeilings {
    SubagentCeilings {
        max_subagents: 8,
        max_spawn_depth: 5,
    }
}

fn text_message(role: &str, text: &str) -> Message {
    Message {
        role: role.to_string(),
        content: vec![ContentBlock::Text {
            text: text.to_string(),
            cache_control: None,
        }],
    }
}

fn submission(content: &str) -> SendMessage {
    SendMessage {
        content: content.to_string(),
        mode: AppMode::Agent,
        provider: None,
        model: "model-b".to_string(),
        goal_objective: None,
        goal_token_budget: None,
        goal_status: GoalStatus::Active,
        reasoning_effort: Some("high".to_string()),
        reasoning_effort_auto: false,
        auto_model: false,
        allow_shell: true,
        trust_mode: false,
        auto_approve: false,
        approval_mode: ApprovalMode::Suggest,
        translation_enabled: false,
        show_thinking: false,
        allowed_tools: None,
        dynamic_tools: Vec::new(),
        hook_executor: None,
        verbosity: None,
        provenance: UserInputProvenance::ExternalUser,
    }
}

fn facts() -> TurnFacts {
    TurnFacts {
        today: "2026-01-02".to_string(),
        workspace: "/w".to_string(),
        mode: AppMode::Agent,
        mode_setting: "agent".to_string(),
        working_set_summary: None,
        git_snapshot: None,
        pressure: None,
        goal: None,
    }
}

fn texts() -> ModeTexts {
    ModeTexts {
        agent: "act".to_string(),
        plan: "plan".to_string(),
        operate: "operate".to_string(),
    }
}

fn count(messages: &Vec<Message>) -> usize {
    messages.len() * 100
}

fn status_of(event: &Event) -> &str {
    match event {
        Event::Status { message } => message.as_str(),
        _ => panic!("this is no status: {event:?}"),
    }
}

fn tool(name: &str) -> Tool {
    Tool {
        tool_type: None,
        name: name.to_string(),
        description: "does things".to_string(),
        input_schema: Json::Object(Vec::new()),
        allowed_callers: None,
        defer_loading: None,
        input_examples: None,
        strict: None,
        cache_control: None,
    }
}

// Settings and new engines ---------------------------------------------------

#[test]
fn remember_tool_registration_respects_moraine_fallback() {
    assert!(should_register_remember_tool(true, false));
    assert!(!should_register_remember_tool(false, false));
    assert!(!should_register_remember_tool(true, true));
}

#[test]
fn new_engines_hold_their_settings() {
    let engine = engine();
    assert_eq!(engine.config.max_steps, 1000);
    assert_eq!(engine.session.model, "model-a");
    assert_eq!(engine.client.connected, Some("deepseek".to_string()));
    assert!(engine.seam.is_some());
    assert_eq!(engine.current_mode, AppMode::Agent);
    let broken = engine_with(Err("no key".to_string()), no_settings());
    assert_eq!(broken.client.error, Some("no key".to_string()));
    assert!(broken.seam.is_none());
    assert!(!engine.session.system_prompt_override);
    assert!(!engine.session.auto_model);
    assert!(!engine.session.reasoning_effort_auto);
    assert_eq!(engine.session.reasoning_effort, None);
}

#[test]
fn new_engines_sum_up_as_it_was_set() {
    let settings = SeamSettings {
        enabled: Some(true),
        l2_threshold: Some(250),
        seam_model: Some("tiny".to_string()),
        ..no_settings()
    };
    let seam = engine_with(Ok("deepseek".to_string()), settings)
        .seam
        .expect("there is a client");
    assert!(seam.enabled);
    assert_eq!(seam.verbatim_window_turns, 16);
    assert_eq!((seam.l1_threshold, seam.l2_threshold, seam.l3_threshold), (100, 250, 300));
    assert_eq!(seam.seam_model, "tiny");
}

#[test]
fn new_engines_seed_the_goal() {
    let mut settings = config();
    settings.goal_objective = Some("  ship it ".to_string());
    settings.goal_token_budget = Some(900);
    settings.goal_status = GoalStatus::Paused;
    let (engine, events) = Engine::new(
        settings,
        "deepseek".to_string(),
        Err("no key".to_string()),
        None,
        None,
        SystemPrompt::Text("prompt".to_string()),
        no_settings(),
        usual_seam(),
    );
    assert_eq!(engine.session.id.len(), 36);
    assert!(matches!(
        events.as_slice(),
        [Event::GoalSynced { objective: Some(o), token_budget: Some(900), status: GoalStatus::Paused }]
            if o == "ship it"
    ));
    let mut blank = config();
    blank.goal_objective = Some("   ".to_string());
    assert!(blank.seed_goal().is_empty());
}

#[test]
fn hints_for_keys_are_given_once() {
    let hint = env_only_api_key_recovery_hint(true, "DEEPSEEK_API_KEY", "deepseek");
    assert!(hint.as_deref().unwrap_or("").contains("codewhale auth set --provider deepseek"));
    assert!(env_only_api_key_recovery_hint(false, "X", "y").is_none());
    let mut engine = engine();
    engine.api_key_env_only_recovery = hint;
    let once = engine.decorate_auth_error_message("401".to_string(), true);
    assert!(once.starts_with("401\n\nThe rejected key came from DEEPSEEK_API_KEY"));
    let twice = engine.decorate_auth_error_message(once.clone(), true);
    assert_eq!(once, twice);
    assert_eq!(engine.decorate_auth_error_message("500".to_string(), false), "500");
}

#[test]
fn prompts_are_hashed_by_what_they_say() {
    let a = SystemPrompt::Text("a".to_string());
    let b = SystemPrompt::Text("b".to_string());
    assert_eq!(system_prompt_hash(Some(&a)), system_prompt_hash(Some(&a)));
    assert_ne!(system_prompt_hash(Some(&a)), system_prompt_hash(Some(&b)));
    assert_ne!(system_prompt_hash(None), system_prompt_hash(Some(&a)));
}

// Requests -------------------------------------------------------------------

#[test]
fn requests_that_only_tell_are_done_at_once() {
    let mut engine = engine();
    match engine.handle(Op::ApproveToolCall { id: "c1".to_string() }, ceilings()) {
        Step::Done(events) => assert_eq!(status_of(&events[0]), "Approved tool call: c1"),
        _ => panic!("nothing is left to be done"),
    }
    match engine.handle(Op::DenyToolCall { id: "c1".to_string() }, ceilings()) {
        Step::Done(events) => assert_eq!(status_of(&events[0]), "Denied tool call: c1"),
        _ => panic!("nothing is left to be done"),
    }
    match engine.handle(Op::CancelRequest, ceilings()) {
        Step::Done(events) => {
            assert!(matches!(events[0], Event::CancelRunning));
            assert!(matches!(events[1], Event::CancelReset));
        }
        _ => panic!("nothing is left to be done"),
    }
    assert!(matches!(engine.handle(Op::Shutdown, ceilings()), Step::Stop));
    assert!(matches!(engine.handle(Op::CompactContext, ceilings()), Step::Compact));
    assert!(matches!(engine.handle(Op::PurgeContext, ceilings()), Step::Purge));
    assert!(matches!(engine.handle(Op::GetSessionSnapshot, ceilings()), Step::Snapshot));
    assert!(matches!(
        engine.handle(Op::GetProviderRuntimeStatus, ceilings()),
        Step::ProviderStatus
    ));
    assert!(matches!(engine.handle(Op::ListSubAgents, ceilings()), Step::ListSubAgents));
}

#[test]
fn settings_change_at_once() {
    let mut engine = engine();
    let compaction = CompactionConfig {
        enabled: true,
        token_threshold: 7,
    };
    match engine.handle(Op::SetCompaction { config: compaction }, ceilings()) {
        Step::Done(events) => assert_eq!(status_of(&events[0]), "Auto-compaction enabled"),
        _ => panic!("nothing is left to be done"),
    }
    assert_eq!(engine.config.compaction, compaction);
    match engine.handle(Op::SetStreamChunkTimeout { timeout_secs: 12 }, ceilings()) {
        Step::Done(events) => {
            assert_eq!(status_of(&events[0]), "Stream chunk timeout set to 12s")
        }
        _ => panic!("nothing is left to be done"),
    }
    assert_eq!(engine.config.stream_chunk_timeout_secs, 12);
}

#[test]
fn limits_of_sub_agents_are_held() {
    let mut engine = engine();
    let step = engine.handle(
        Op::SetSubagentRuntimeConfig {
            enabled: true,
            max_subagents: 100,
            launch_concurrency: 0,
            max_spawn_depth: 9,
            api_timeout_secs: 1,
            heartbeat_timeout_secs: 2,
        },
        ceilings(),
    );
    assert!(matches!(step, Step::SubagentLimitsChanged { enabled: true }));
    assert_eq!(engine.config.max_subagents, 8);
    assert_eq!(engine.config.launch_concurrency, 1);
    assert_eq!(engine.config.max_spawn_depth, 5);
    assert_eq!(
        status_of(&engine.subagent_limits_changed(true, true)),
        "Sub-agent runtime updated: enabled=true, max_subagents=8, launch_concurrency=1, max_depth=5"
    );
    assert!(status_of(&engine.subagent_limits_changed(true, false)).ends_with(
        "; launch_concurrency takes full effect after active sub-agents finish or the session restarts"
    ));
}

#[test]
fn models_and_modes_are_changed() {
    let mut engine = engine();
    let limits = RouteLimits {
        context_tokens: Some(1000),
        output_tokens: None,
    };
    let step = engine.handle(
        Op::SetModel {
            model: " AUTO ".to_string(),
            mode: AppMode::Agent,
            route_limits: Some(limits),
        },
        ceilings(),
    );
    assert!(matches!(step, Step::ModelChanged));
    assert!(engine.session.auto_model);
    assert_eq!(engine.config.model, " AUTO ");
    assert_eq!(engine.active_route_limits, Some(limits));
    let events = engine.model_changed(Some(SystemPrompt::Text("new".to_string())), &None);
    assert_eq!(status_of(&events[1]), "Model set to:  AUTO ");
    assert!(matches!(&engine.session.system_prompt, Some(SystemPrompt::Text(t)) if t == "new"));

    let step = engine.handle(
        Op::ChangeMode {
            mode: AppMode::Yolo,
            allow_shell: true,
            trust_mode: true,
            auto_approve: true,
            approval_mode: ApprovalMode::Suggest,
        },
        ceilings(),
    );
    assert!(matches!(step, Step::ModeChanged { mode: AppMode::Yolo }));
    assert_eq!(engine.session.approval_mode, ApprovalMode::Bypass);
    assert_eq!(status_of(&engine.mode_changed("all")[1]), "Mode changed to: all");
}

#[test]
fn sub_agents_need_a_client() {
    let mut broken = engine_with(Err("no key".to_string()), no_settings());
    let op = Op::SpawnSubAgent {
        prompt: "go".to_string(),
    };
    match broken.handle(op, ceilings()) {
        Step::Done(events) => assert!(matches!(
            &events[0],
            Event::Error { kind: FailureKind::Fatal, message }
                if message == "Failed to spawn sub-agent: no key"
        )),
        _ => panic!("there is no client"),
    }
    assert_eq!(status_of(&spawn_outcome(Ok("a1".to_string()))), "Spawned sub-agent a1");
    assert!(matches!(
        cancel_failed("a1", "gone"),
        Event::Error { kind: FailureKind::Transient, message }
            if message == "Failed to cancel sub-agent a1: gone"
    ));
}

#[test]
fn last_turns_are_taken_back() {
    let mut engine = engine();
    engine.session.add_message(text_message("user", "one"));
    engine.session.add_message(text_message("assistant", "two"));
    engine.session.add_message(text_message("user", "three"));
    engine.session.add_message(text_message("assistant", "four"));
    let revision = engine.session.messages_revision;
    let op = Op::EditLastTurn {
        new_message: "drei".to_string(),
    };
    match engine.handle(op, ceilings()) {
        Step::Send(message) => {
            assert_eq!(message.content, "drei");
            assert_eq!(message.provenance, UserInputProvenance::ExternalUser);
            assert_eq!(message.provider, Some("deepseek".to_string()));
        }
        _ => panic!("the message is sent"),
    }
    assert_eq!(engine.session.messages.len(), 2);
    assert_eq!(engine.session.messages_revision, revision + 1);
}

#[test]
fn kept_sessions_are_taken_over() {
    let mut engine = engine();
    let revision = engine.session.messages_revision;
    let request = SyncSession {
        session_id: Some("kept".to_string()),
        messages: vec![text_message("user", "hi")],
        system_prompt: Some(SystemPrompt::Text(
            "x Conversation Summary (Auto-Generated) y".to_string(),
        )),
        system_prompt_override: true,
        model: "auto".to_string(),
        workspace: "/other".to_string(),
        mode: AppMode::Plan,
    };
    let events = engine.sync_session(request, Some("context".to_string()));
    assert_eq!(status_of(&events[1]), "Session context synced");
    assert!(matches!(
        &events[0],
        Event::SessionUpdated { session_id, messages, model, workspace, .. }
            if session_id == "kept" && messages.len() == 1 && model == "auto" && workspace == "/other"
    ));
    assert_eq!(engine.session.id, "kept");
    assert_eq!(engine.session.messages.len(), 1);
    assert_eq!(engine.session.messages_revision, revision + 1);
    assert!(engine.session.compaction_summary_prompt.is_some());
    assert!(engine.session.system_prompt_override);
    assert!(engine.session.auto_model);
    assert_eq!(engine.config.workspace, "/other");
    assert_eq!(engine.current_mode, AppMode::Plan);

    let empty = SyncSession {
        session_id: None,
        messages: Vec::new(),
        system_prompt: None,
        system_prompt_override: true,
        model: "m".to_string(),
        workspace: "/w".to_string(),
        mode: AppMode::Agent,
    };
    let _ = engine.sync_session(empty, None);
    assert_eq!(engine.session.id.len(), 36);
    assert!(!engine.session.system_prompt_override);
}

#[test]
fn snapshots_hold_the_session() {
    let mut engine = engine();
    engine.session.add_message(text_message("user", "hi"));
    engine.session.total_usage = SessionUsage {
        input_tokens: 10,
        output_tokens: 5,
        cache_creation_input_tokens: None,
        cache_read_input_tokens: None,
    };
    let snapshot = engine.session_snapshot("agent");
    assert_eq!(snapshot.total_tokens, 15);
    assert_eq!(snapshot.messages.len(), 1);
    assert_eq!(snapshot.model_provider, "deepseek");
    assert_eq!(snapshot.mode, "agent");
    let status = engine.provider_runtime_status(Some(4), 2, "other", None);
    assert_eq!(
        (status.provider.as_str(), status.request_concurrency_limit, status.active_provider_requests),
        ("deepseek", Some(4), 2)
    );
    let broken = engine_with(Err("x".to_string()), no_settings());
    let status = broken.provider_runtime_status(Some(4), 2, "other", Some(1));
    assert_eq!(
        (status.provider.as_str(), status.request_concurrency_limit, status.active_provider_requests),
        ("other", Some(1), 0)
    );
}

#[test]
fn idle_completions_go_to_the_model_together() {
    let engine = engine();
    let (event, message) =
        engine.idle_completion(&vec!["first".to_string(), "second".to_string()]);
    assert_eq!(
        status_of(&event),
        "Resuming turn with 2 idle sub-agent completion(s)"
    );
    assert_eq!(message.content, "first\n\nsecond");
    assert_eq!(message.provenance, UserInputProvenance::SubAgentHandoff);
}

// Shell commands -------------------------------------------------------------

#[test]
fn shell_commands_are_turns_of_their_own() {
    let mut engine = engine();
    let (turn, events) = engine.begin_shell_command(
        "ls -l".to_string(),
        AppMode::Agent,
        true,
        false,
        false,
        ApprovalMode::Suggest,
    );
    assert_eq!(turn.tool_id, "user_shell_1");
    assert_eq!(turn.input.get_str("command"), Some("ls -l"));
    assert_eq!(turn.input.get_str("source"), Some("user"));
    assert_eq!(events.len(), 4);
    assert!(matches!(&events[1], Event::TurnStarted { turn_id } if turn_id == "user_shell_1"));
    assert!(matches!(&events[2], Event::SnapshotBefore { request } if request.label == "pre-turn:1: ls -l"));
    let result = Ok(ToolResult {
        content: "out".to_string(),
        success: true,
        metadata: None,
    });
    let events = engine.finish_shell_command(turn, result, String::new(), Some("/tmp/full"));
    assert_eq!(events.len(), 4);
    match &events[0] {
        Event::Audit { entry } => {
            assert_eq!(entry.get_str("event"), Some("tool.spillover"));
            assert_eq!(entry.get_str("path"), Some("/tmp/full"));
            assert_eq!(entry.get_str("source"), Some("composer_bang"));
        }
        _ => panic!("the record comes first"),
    }
    assert!(matches!(
        &events[2],
        Event::TurnComplete { status: TurnOutcomeStatus::Completed, error: None, .. }
    ));
}

fn shell_facts(needs_approval: bool) -> Option<ShellToolFacts> {
    Some(ShellToolFacts {
        needs_approval,
        auto_approve: false,
        description: "runs a command".to_string(),
    })
}

#[test]
fn shell_commands_are_refused_asked_about_or_run() {
    let mut engine = engine();
    let (turn, _) = engine.begin_shell_command(
        "ls".to_string(),
        AppMode::Agent,
        true,
        false,
        false,
        ApprovalMode::Suggest,
    );
    let key = || "k".to_string();
    assert!(matches!(
        engine.shell_step(&turn, AppMode::Plan, &shell_facts(false), &None, key(), key()),
        ShellStep::Refused(ToolError::PermissionDenied { message })
            if message == "Tool 'exec_shell' is unavailable in Plan mode"
    ));
    assert!(matches!(
        engine.shell_step(&turn, AppMode::Agent, &None, &None, key(), key()),
        ShellStep::Refused(ToolError::NotAvailable { message })
            if message == "tool 'exec_shell' is not registered"
    ));
    assert!(matches!(
        engine.shell_step(&turn, AppMode::Agent, &shell_facts(false), &None, key(), key()),
        ShellStep::Run
    ));
    let ask = Some(PolicyAnswer {
        allow: true,
        requires_approval: true,
        reason: "rule".to_string(),
    });
    match engine.shell_step(&turn, AppMode::Agent, &shell_facts(false), &ask, key(), key()) {
        ShellStep::Ask(events) => assert!(matches!(
            &events[1],
            Event::ApprovalRequired { description, approval_force_prompt: true, .. }
                if description == "rule"
        )),
        _ => panic!("the rule asks the user"),
    }
    let block = Some(PolicyAnswer {
        allow: false,
        requires_approval: false,
        reason: "never".to_string(),
    });
    assert!(matches!(
        engine.shell_step(&turn, AppMode::Agent, &shell_facts(true), &block, key(), key()),
        ShellStep::Refused(ToolError::PermissionDenied { message }) if message == "never"
    ));
    engine.session.auto_approve = true;
    assert!(matches!(
        engine.shell_step(&turn, AppMode::Agent, &shell_facts(false), &ask, key(), key()),
        ShellStep::Run
    ));
    assert!(matches!(
        engine.shell_step(&turn, AppMode::Agent, &shell_facts(false), &block, key(), key()),
        ShellStep::Refused(_)
    ));
    engine.config.features.shell_tool = false;
    assert!(matches!(
        engine.shell_step(&turn, AppMode::Agent, &shell_facts(false), &None, key(), key()),
        ShellStep::Refused(ToolError::NotAvailable { message })
            if message == "Tool 'exec_shell' is disabled by feature flag"
    ));
}

#[test]
fn decisions_about_shell_commands_are_recorded() {
    let mut engine = engine();
    let (turn, _) = engine.begin_shell_command(
        "ls".to_string(),
        AppMode::Agent,
        true,
        false,
        false,
        ApprovalMode::Suggest,
    );
    let (step, entry) = shell_approval(&turn, Ok(ApprovalResult::Denied), "");
    assert!(matches!(
        step,
        ShellApproval::Refused(ToolError::PermissionDenied { message })
            if message == "Tool 'exec_shell' denied by user"
    ));
    assert_eq!(entry.expect("is recorded").get_str("decision"), Some("denied"));
    let (step, entry) = shell_approval(
        &turn,
        Ok(ApprovalResult::RetryWithPolicy(SandboxPolicy::ReadOnly)),
        "ReadOnly",
    );
    assert!(matches!(
        step,
        ShellApproval::Run { stamp: ToolApprovalStamp::ApprovedWithPolicy, policy: Some(_) }
    ));
    assert_eq!(entry.expect("is recorded").get_str("policy"), Some("ReadOnly"));
    let stamped = stamp_shell_result(
        Ok(ToolResult {
            content: "out".to_string(),
            success: true,
            metadata: None,
        }),
        ToolApprovalStamp::ApprovedByUser,
    );
    match stamped {
        Ok(result) => {
            assert!(result.content.ends_with("\n\nout"));
            assert!(result.metadata.expect("is marked").get("approval").is_some());
        }
        Err(_) => panic!("the call succeeded"),
    }
}

// Turns ----------------------------------------------------------------------

#[test]
fn turns_begin_with_their_permissions() {
    let mut engine = engine();
    let mut message = submission("hello");
    message.provenance = UserInputProvenance::ImportedTranscript;
    message.auto_approve = true;
    let (start, events) = engine.begin_turn(&message, 5);
    assert!(!start.authority.auto_approve);
    assert_eq!(start.turn.id.len(), 36);
    assert_eq!(engine.turn_counter, 1);
    assert!(status_of(&events[0]).starts_with("Input provenance 'imported_transcript'"));
    assert!(matches!(events[1], Event::CancelReset));
    assert!(matches!(events[2], Event::SteerDropped));
    assert!(matches!(events[3], Event::TurnStarted { .. }));
    assert!(matches!(events[4], Event::SnapshotBefore { .. }));
    assert!(matches!(events[5], Event::RetryCleared));
}

#[test]
fn routes_are_taken_where_they_differ() {
    let mut engine = engine();
    let mut message = submission("hello");
    assert!(!engine.needs_route(&message));
    message.provider = Some("deepseek".to_string());
    assert!(!engine.needs_route(&message));
    message.provider = Some("openai".to_string());
    assert!(engine.needs_route(&message));
    let failed = engine.activate_runtime_route(
        "openai".to_string(),
        "gpt",
        Err(RouteFailure::Unresolved("no such model".to_string())),
    );
    assert_eq!(
        failed,
        Err("Failed to resolve provider route openai / gpt: no such model".to_string())
    );
    let unconfigured = engine.activate_runtime_route(
        "openai".to_string(),
        "gpt",
        Err(RouteFailure::Unconfigured("no key".to_string())),
    );
    assert_eq!(
        unconfigured,
        Err("Failed to configure provider route openai / gpt: no key".to_string())
    );
    let setup = RouteSetup {
        limits: None,
        key_hint: None,
    };
    assert_eq!(
        engine.activate_runtime_route("openai".to_string(), "gpt", Ok(setup)),
        Ok(())
    );
    assert_eq!(engine.provider, "openai");
    assert!(!engine.needs_route(&message));
    assert!(engine.seam.is_none());
}

#[test]
fn turns_without_a_client_fail() {
    let mut broken = engine_with(Err("no key".to_string()), no_settings());
    let events = broken.client_missing().expect("there is no client");
    assert!(matches!(
        &events[0],
        Event::Error { kind: FailureKind::FatalAuth, message }
            if message == "Failed to send message: no key"
    ));
    assert!(matches!(
        &events[1],
        Event::TurnComplete { status: TurnOutcomeStatus::Failed, .. }
    ));
    let events = broken.route_failed("bad route".to_string());
    assert_eq!(broken.client.error, Some("bad route".to_string()));
    assert_eq!(events.len(), 2);
    assert!(engine().client_missing().is_none());
}

#[test]
fn messages_bring_their_settings() {
    let mut engine = engine();
    let mut message = submission("quick plan for it");
    message.goal_objective = Some("  ship it ".to_string());
    message.goal_token_budget = Some(100);
    let (terms, events) = engine.take_message(message, AppMode::Plan, &facts(), &texts());
    assert!(terms.force_update_plan_first);
    assert_eq!(terms.prompt, "quick plan for it");
    assert_eq!(engine.session.model, "model-b");
    assert_eq!(engine.config.model, "model-b");
    assert_eq!(engine.session.messages.len(), 1);
    assert_eq!(engine.session.messages[0].role, "user");
    match &engine.session.messages[0].content[1] {
        ContentBlock::Text { text, .. } => assert!(text.starts_with("<turn_meta>\n")),
        _ => panic!("what is told besides is text"),
    }
    assert!(matches!(
        &events[0],
        Event::GoalSynced { objective: Some(o), token_budget: Some(100), .. } if o == "ship it"
    ));
    let mut again = submission("go on");
    again.goal_objective = Some("ship it".to_string());
    again.goal_token_budget = Some(100);
    let (_, events) = engine.take_message(again, AppMode::Agent, &facts(), &texts());
    assert!(events.is_empty());
    let runtime = engine.runtime_text_message_with_turn_metadata(
        "note".to_string(),
        UserInputProvenance::Runtime,
        &facts(),
        &texts(),
    );
    assert_eq!(runtime.content.len(), 2);
    let own = engine.user_text_message_with_turn_metadata("note".to_string(), &facts(), &texts());
    assert_eq!(own.role, "user");
}

fn goal(status: &str, active: bool, used: u64) -> GoalSnapshot {
    GoalSnapshot {
        objective: Some("ship".to_string()),
        status: status.to_string(),
        active,
        token_budget: Some(100),
        tokens_used: used,
        time_used_seconds: 0,
        continuation_count: 1,
    }
}

#[test]
fn turns_end_with_what_they_used() {
    let mut engine = engine();
    let message = submission("hello");
    let (start, _) = engine.begin_turn(&message, 0);
    let (terms, _) = engine.take_message(message, AppMode::Agent, &facts(), &texts());
    let mut turn = start.turn;
    turn.usage = Usage {
        input_tokens: 30,
        output_tokens: 12,
        ..Usage::default()
    };
    let charged = engine.count_turn(&turn, 3_000_000_000);
    assert!(matches!(charged.as_slice(), [Event::GoalCharged { tokens: 42, seconds: 3 }]));
    assert_eq!(engine.session.total_usage.input_tokens, 30);
    let (status, events) = engine.finish_turn(
        turn,
        TurnOutcome::Ended {
            status: TurnOutcomeStatus::Completed,
            error: None,
        },
        Some(goal("active", true, 52)),
        None,
        Some("https://api".to_string()),
        &terms,
    );
    assert_eq!(status, TurnOutcomeStatus::Completed);
    assert!(matches!(&events[0], Event::GoalUpdated { snapshot } if snapshot.tokens_used == 52));
    assert!(matches!(&events[1], Event::TurnComplete { base_url: Some(u), .. } if u == "https://api"));
    assert!(matches!(&events[2], Event::SnapshotAfter { request } if request.label == "post-turn:1: hello"));

    let next = engine.goal_continuation(status, &goal("active", true, 10), &terms, "go on".to_string());
    let next = next.expect("the goal goes on");
    assert_eq!(next.provenance, UserInputProvenance::Runtime);
    assert_eq!(next.goal_objective, None);
    assert_eq!(next.model, "model-b");
    for stopped in [goal("active", true, 100), goal("complete", true, 0), goal("active", false, 0), goal("odd", true, 0)] {
        assert!(engine
            .goal_continuation(status, &stopped, &terms, "go on".to_string())
            .is_none());
    }
    assert!(engine
        .goal_continuation(TurnOutcomeStatus::Failed, &goal("active", true, 10), &terms, "x".to_string())
        .is_none());
}

#[test]
fn broken_turns_say_so() {
    let mut engine = engine();
    let message = submission("hello");
    let (start, _) = engine.begin_turn(&message, 0);
    let (terms, _) = engine.take_message(message, AppMode::Agent, &facts(), &texts());
    let (status, events) = engine.finish_turn(
        start.turn,
        TurnOutcome::Broken {
            detail: "index out of bounds".to_string(),
        },
        None,
        None,
        None,
        &terms,
    );
    assert_eq!(status, TurnOutcomeStatus::Failed);
    assert!(matches!(
        &events[0],
        Event::TurnComplete { error: Some(e), .. } if e == "The engine hit an internal error and stopped this turn: index out of bounds. Your session is intact — send your message again to retry. A crash report was saved to ~/.codewhale/crashes/."
    ));
}

// Goals ----------------------------------------------------------------------

#[test]
fn goals_are_set_cleared_and_told() {
    assert_eq!(normalized_goal_objective(Some("  x ")), Some("x".to_string()));
    assert_eq!(normalized_goal_objective(Some("   ")), None);
    let events = handle_set_goal_status(GoalStatus::Paused, false, Some("x".to_string()), Some(5));
    assert!(matches!(
        &events[0],
        Event::GoalSynced { objective: Some(o), token_budget: Some(5), status: GoalStatus::Paused } if o == "x"
    ));
    assert_eq!(status_of(&events[1]), "Goal paused.");
    let events = handle_set_goal_status(GoalStatus::Complete, true, Some("x".to_string()), Some(5));
    assert_eq!(status_of(&events[1]), "Goal cleared.");
    assert!(goal_updated(None).is_empty());
    let told = goal_updated(Some(goal("paused", false, 7)));
    assert!(matches!(
        told.as_slice(),
        [Event::GoalUpdated { snapshot }] if snapshot.status == "paused" && snapshot.tokens_used == 7
    ));
    assert!(goal_continuation_if_active(&goal("active", true, 10)));
    assert_eq!(
        goal_objective_for_prompt(Some("configured"), Some(&goal("active", false, 0))),
        None
    );
    assert_eq!(
        goal_objective_for_prompt(Some(" configured "), None),
        Some("configured".to_string())
    );
    let mut nameless = goal("active", true, 0);
    nameless.objective = None;
    assert!(goal_snapshot_for_event(Some(nameless)).is_none());
    let mut nameless = goal("active", true, 0);
    nameless.objective = None;
    assert!(goal_updated(Some(nameless)).is_empty());
    assert!(goal_snapshot_for_event(Some(goal("active", true, 0))).is_some());
    assert_eq!(record_goal_usage_for_turn(&Usage::default(), 999), None);
}

// Making the context shorter -------------------------------------------------

fn long_engine(n: usize) -> Engine {
    let mut engine = engine();
    for i in 0..n {
        engine
            .session
            .add_message(text_message(if i % 2 == 0 { "user" } else { "assistant" }, &format!("m{i}")));
    }
    engine
}

#[test]
fn passes_over_the_context_are_taken_over() {
    let mut engine = long_engine(6);
    let (goes_on, events) = engine.begin_manual_compaction("compact_1");
    assert!(goes_on);
    assert!(matches!(&events[0], Event::CompactionStarted { auto: false, .. }));
    let result = CompactionResult {
        messages: vec![text_message("user", "short")],
        retries_used: 2,
        merged: Some((
            Some(SystemPrompt::Text("sum".to_string())),
            Some(SystemPrompt::Text("prompt with sum".to_string())),
        )),
    };
    let events = engine.finish_manual_compaction("compact_1", Ok(result));
    assert_eq!(engine.session.messages.len(), 1);
    assert!(events.iter().any(|e| matches!(
        e,
        Event::CompactionCompleted { message, summary_prompt: Some(s), .. }
            if message == "Compaction complete: 6 → 1 messages (5 removed, 2 retries)" && s == "sum"
    )));
    let empty = CompactionResult {
        messages: Vec::new(),
        retries_used: 0,
        merged: None,
    };
    let events = engine.finish_manual_compaction("compact_2", Ok(empty));
    assert_eq!(engine.session.messages.len(), 1);
    assert!(events.iter().any(|e| matches!(
        e,
        Event::CompactionFailed { message, .. } if message == "Compaction skipped: produced empty result"
    )));
    let events = engine.finish_manual_compaction("compact_3", Err("down".to_string()));
    assert!(events.iter().any(|e| matches!(
        e,
        Event::CompactionFailed { message, .. } if message == "Manual context compaction failed: down"
    )));
    let broken = engine_with(Err("x".to_string()), no_settings());
    assert!(!broken.begin_manual_compaction("c").0);
    assert!(!broken.begin_purge().0);
}

#[test]
fn purges_are_taken_over() {
    let mut engine = long_engine(4);
    assert!(engine.begin_purge().0);
    let events = engine.finish_purge(Ok(PurgeResult {
        messages: vec![text_message("user", "a")],
        removed_count: 2,
        replaced_count: 1,
    }));
    assert_eq!(engine.session.messages.len(), 1);
    assert!(events.iter().any(|e| matches!(
        e,
        Event::PurgeCompleted { message, .. }
            if message == "Purge complete: 4 → 1 messages (2 removed, 1 condensed)"
    )));
    let events = engine.finish_purge(Err("no".to_string()));
    assert!(events.iter().any(|e| matches!(e, Event::PurgeFailed { .. })));
}

#[test]
fn oldest_messages_are_dropped_first() {
    let mut engine = long_engine(12);
    let all = engine.estimated_input_tokens(&count);
    assert!(all >= 1200);
    let removed = engine.trim_oldest_messages_to_budget(1, &count);
    assert!(removed > 0);
    assert_eq!(engine.session.messages.len() + removed, 12);
    match &engine.session.messages[0].content[0] {
        ContentBlock::Text { text, .. } => assert_eq!(text, &format!("m{removed}")),
        _ => panic!("all messages are texts"),
    }
    let untouched = engine.trim_oldest_messages_to_budget(usize::MAX, &count);
    assert_eq!(untouched, 0);
}

#[test]
fn recoveries_cut_the_context_down() {
    let mut engine = long_engine(12);
    assert!(engine.begin_recovery(None, "c", "too long", &count).is_none());
    let (plan, event) = engine
        .begin_recovery(Some(900), "c", "too long", &count)
        .expect("a budget is known");
    assert_eq!(plan.before_count, 12);
    assert_eq!(plan.forced.token_threshold, 500);
    assert!(plan.forced.enabled);
    assert!(matches!(
        event,
        Event::CompactionStarted { auto: true, message, .. }
            if message == "Emergency context compaction started (too long)"
    ));
    let before = plan.before_tokens;
    let outcome = engine.finish_recovery(plan, Err("down".to_string()), &count);
    assert_eq!(
        status_of(&outcome.events[0]),
        "Emergency compaction API pass failed: down. Falling back to local trim."
    );
    assert_eq!(engine.session.messages.len() + outcome.trimmed, 12);
    assert_eq!(outcome.recovered, outcome.after_tokens <= 900);
    assert!(outcome.after_tokens < before);

    let (plan, _) = engine
        .begin_recovery(Some(0), "d", "still", &count)
        .expect("a budget is known");
    assert_eq!(plan.forced.token_threshold, 1);
    let outcome = engine.finish_recovery(plan, Err("down".to_string()), &count);
    assert!(!outcome.recovered);
    assert!(outcome
        .events
        .iter()
        .any(|e| matches!(e, Event::CompactionFailed { auto: true, .. })));
}

#[test]
fn contexts_are_summed_up_in_layers() {
    let mut settings = no_settings();
    settings.enabled = Some(true);
    let mut engine = engine_with(Ok("deepseek".to_string()), settings);
    assert!(matches!(engine.begin_seam(None, 5), SeamStep::Skip));
    assert!(matches!(engine.begin_seam(Some(1), 0), SeamStep::Skip));
    match engine.begin_seam(Some(2), 5) {
        SeamStep::Produce { level, end, status } => {
            assert_eq!((level, end), (2, 5));
            assert_eq!(status, "⏻ producing L2 context seam (5 messages)…");
        }
        SeamStep::Skip => panic!("summing up is on"),
    }
    assert!(engine.finish_seam(2, 5, String::new(), 1).is_empty());
    let events = engine.finish_seam(2, 5, "sum".to_string(), 1);
    assert_eq!(engine.session.messages[0].role, "assistant");
    assert_eq!(
        status_of(&events[1]),
        "⏻ L2 seam complete (1 total, 5 messages covered)"
    );
    assert_eq!(seam_way(0), SeamWay::Fresh);
    assert_eq!(seam_failed_message(seam_way(2), 3, "x"), "L3 recompact failed: x");
    assert_eq!(seam_failed_message(SeamWay::Fresh, 1, "x"), "L1 soft seam failed: x");
    assert!(matches!(
        engine_with(Ok("x".to_string()), no_settings()).begin_seam(Some(1), 5),
        SeamStep::Skip
    ));
}

// Prompts --------------------------------------------------------------------

#[test]
fn same_prompts_are_kept() {
    let mut engine = engine();
    engine.refresh_system_prompt(Some(SystemPrompt::Text("prompt".to_string())), &None);
    let hash = engine.session.last_system_prompt_hash;
    engine.refresh_system_prompt(
        Some(SystemPrompt::Text("prompt".to_string())),
        &Some("gate".to_string()),
    );
    assert_ne!(engine.session.last_system_prompt_hash, hash);
    assert!(matches!(&engine.session.system_prompt, Some(SystemPrompt::Text(t)) if t == "prompt\n\ngate"));
    engine.session.system_prompt_override = true;
    engine.refresh_system_prompt(Some(SystemPrompt::Text("other".to_string())), &None);
    assert!(matches!(&engine.session.system_prompt, Some(SystemPrompt::Text(t)) if t == "prompt\n\ngate"));
}

#[test]
fn gates_are_read_anew_when_they_change() {
    let mut cache = GateCache { read: None };
    assert!(cache.lookup(Some(1)).is_none());
    cache.store(Some(1), Some("open".to_string()), true);
    assert!(cache.lookup(Some(1)).is_some());
    assert!(cache.lookup(Some(2)).is_none());
}

#[test]
fn usage_is_told_where_there_is_some() {
    assert!(session_token_usage_line(&SessionUsage::default()).is_none());
    let usage = SessionUsage {
        input_tokens: 3,
        output_tokens: 4,
        cache_creation_input_tokens: None,
        cache_read_input_tokens: Some(1),
    };
    let line = session_token_usage_line(&usage).expect("tokens were used");
    assert!(line.contains('7'));
}

// Tools ----------------------------------------------------------------------

#[test]
fn planning_offers_what_reads() {
    let engine = engine();
    match engine.build_turn_tool_registry_builder(AppMode::Plan, true, true) {
        TurnTools::Planning(groups) => {
            assert_eq!(groups[0], ToolGroup::ReadOnlyFiles);
            assert!(groups.contains(&ToolGroup::Web));
            assert!(!groups.contains(&ToolGroup::Vision));
            assert!(!groups.contains(&ToolGroup::Remember));
            assert_eq!(groups.last(), Some(&ToolGroup::RuntimeMcp));
        }
        _ => panic!("this is planning"),
    }
    match engine.build_turn_tool_registry_builder(AppMode::Agent, true, true) {
        TurnTools::Acting(options) => {
            assert_eq!(options.shell_policy, ShellPolicy::Full);
            assert!(options.apply_patch_enabled && !options.vision_enabled);
        }
        _ => panic!("this is acting"),
    }
    assert!(engine.subagents_available());
    assert_eq!(engine.subagent_shell_policy(AppMode::Agent), (true, ShellPolicy::Full));
    assert!(!engine.subagent_shell_policy(AppMode::Plan).0);
}

#[test]
fn surroundings_of_tools_follow_the_mode() {
    let engine = engine();
    let context = engine.build_tool_context(
        AppMode::Plan,
        false,
        vec!["/clip/".to_string()],
        "/clip",
    );
    assert_eq!(context.trusted_external_paths, vec!["/clip/".to_string()]);
    assert!(matches!(context.sandbox_policy, SandboxPolicy::ReadOnly));
    assert!(context.shell_network_denied_hint.is_some());
    assert_eq!(context.memory_path, None);
    let context = engine.build_tool_context(AppMode::Yolo, false, Vec::new(), "/clip");
    assert!(context.auto_approve);
    assert_eq!(context.trusted_external_paths, vec!["/clip".to_string()]);
    assert!(context.shell_network_denied_hint.is_none());
}

#[test]
fn own_tools_are_found_and_never_wait() {
    assert_eq!(default_plugin_tools_dir(Some("/own"), Some("/home/u")), "/own/tools");
    assert_eq!(default_plugin_tools_dir(None, Some("/home/u")), "/home/u/.codewhale/tools");
    assert_eq!(default_plugin_tools_dir(None, None), ".codewhale/tools");
    assert_eq!(plugin_tools_dir(None, "/usual".to_string()), "/usual");
    assert_eq!(plugin_tools_dir(Some("/set"), "/usual".to_string()), "/set");
    assert!(plugin_tools_dir(Some("~/tools"), "/usual".to_string()).ends_with("/tools"));
    let mut before = NameSet::new();
    before.insert("a");
    let mut after = before.copy();
    after.insert("mine");
    let plugins = plugin_tool_names(&before, &after);
    assert!(plugins.contains("mine") && !plugins.contains("a"));

    let engine = engine();
    let catalog = engine.turn_catalog(
        vec![tool("mine"), tool("denied"), tool("strange")],
        vec![tool("mcp_x")],
        &plugins,
        AppMode::Agent,
        ToolSurfaceBudget::Full,
        |name: &str| name == "denied",
        |name: &str| name != "mcp_x",
    );
    assert_eq!(catalog.len(), 2);
    let mine = catalog.iter().find(|t| t.name == "mine").expect("is offered");
    assert_eq!(mine.defer_loading, Some(false));
    let kept = filter_tool_catalog_for_gates(vec![tool("a"), tool("b")], |_| false, |n| n == "b");
    assert_eq!(kept.len(), 1);
    let denied = filter_tool_catalog_for_gates(vec![tool("a"), tool("b")], |n| n == "a", |_| true);
    assert_eq!(denied.len(), 1);
    assert_eq!(denied[0].name, "b");
}

#[test]
fn servers_that_fail_are_told() {
    let events = mcp_connect_failures(&vec![("git".to_string(), "refused".to_string())]);
    assert_eq!(status_of(&events[0]), "Failed to connect MCP server 'git': refused");
}

#[test]
fn settings_outrank_the_roster() {
    let pair = |a: &str, b: &str| (a.to_string(), b.to_string());
    let models = subagent_role_models(
        vec![pair("plan", "small"), pair("review", "small")],
        vec![pair("plan", "large")],
    );
    let last = models.iter().rev().find(|p| p.0 == "plan").expect("is named");
    assert_eq!(last.1, "large");
}

#[test]
fn news_are_passed_on_once_in_a_while() {
    let mut times = SentTimes::new();
    assert!(times.permit(MailboxKind::Progress, "a", 0));
    assert!(!times.permit(MailboxKind::Progress, "a", 99_999_999));
    assert!(times.permit(MailboxKind::Progress, "b", 1));
    assert!(times.permit(MailboxKind::Other, "a", 2));
    assert!(times.permit(MailboxKind::ToolCallStarted, "a", 100_000_000));
    assert!(!times.permit(MailboxKind::ToolCallCompleted, "a", 5));
}

#[test]
fn prompts_of_turns_are_taken_over() {
    let mut engine = engine();
    let events = engine.prompt_for_turn(Some(SystemPrompt::Text("new".to_string())), &None);
    let [Event::SessionUpdated { session_id, messages, system_prompt, model, workspace }] =
        events.as_slice()
    else {
        panic!("the session was not told");
    };
    assert_eq!(session_id, "session-1");
    assert!(messages.is_empty());
    assert!(matches!(system_prompt, Some(SystemPrompt::Text(t)) if t == "new"));
    assert_eq!(model, &engine.session.model);
    assert_eq!(workspace, &engine.session.workspace);
    assert!(matches!(&engine.session.system_prompt, Some(SystemPrompt::Text(t)) if t == "new"));
}

#[test]
fn diagnostics_that_are_kept_go_to_the_model() {
    let mut engine = engine();
    assert!(engine.flush_pending_lsp_diagnostics(&facts(), &texts()).is_empty());
    engine.pending_lsp_blocks.push(DiagnosticBlock {
        file: "a.rs".to_string(),
        items: vec![Diagnostic {
            line: 1,
            column: 2,
            severity: Severity::Error,
            message: "no such thing".to_string(),
        }],
    });
    let events = engine.flush_pending_lsp_diagnostics(&facts(), &texts());
    assert!(matches!(&events[0], Event::SessionUpdated { messages, .. } if messages.len() == 1));
    assert!(matches!(
        &events[1],
        Event::LspRepairUpdate { diagnostics_found: 1, files: 1, injected: true }
    ));
    assert!(engine.pending_lsp_blocks.is_empty());
    let last = engine.session.messages.last().expect("a message was put");
    assert_eq!(last.role, "user");
    assert!(matches!(
        &last.content[0],
        ContentBlock::Text { text, .. } if text.contains("no such thing")
    ));
}
