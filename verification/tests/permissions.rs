use codewhale_tui::authority::{
    agent_approval_mode_for_turn, base_policy_for_mode, effective_input_policy,
    provenance_can_inherit_standing_auto_authority, sandbox_policy_for_mode,
    shell_policy_for_mode, ApprovalMode, ModeSessionPrefs, SandboxPolicy, ShellPolicy,
    TurnAuthority,
};
use codewhale_tui::engine::approval::{
    await_tool_approval, await_user_input, cancel_reason_suffix, ApprovalDecision, ApprovalEvent,
    ApprovalResult, CancelReason, ControlMarks, UserInputDecision, UserInputEvent, Waiting,
};
use codewhale_tui::engine::rules::{
    ask_for_approval, auto_review_plan_decision, auto_review_run_origin_for_plan,
    edited_paths_for_tool, exec_shell_ask_rule_decision, file_tool_ask_rule_decision,
    file_tool_permission_paths, files_to_check, flush_diagnostics, keep_diagnostics,
    tool_ask_rule_decision, AskForApproval, AutoReviewAction, AutoReviewPlanDecision,
    PolicyAnswer, RunOrigin, ToolAskRuleDecision,
};
use codewhale_tui::events::Event;
use codewhale_tui::json::{object1, text_value, Json};
use codewhale_tui::lsp::diagnostics::{Diagnostic, DiagnosticBlock, Severity};
use codewhale_tui::models::{AppMode, ToolError};
use codewhale_tui::ops::UserInputProvenance;

#[test]
fn only_the_user_authorizes_work() {
    assert!(UserInputProvenance::ExternalUser.can_authorize_work());
    assert!(!UserInputProvenance::Runtime.can_authorize_work());
    assert_eq!(UserInputProvenance::MemoryRecall.as_str(), "memory_recall");
    assert!(provenance_can_inherit_standing_auto_authority(
        UserInputProvenance::SubAgentHandoff
    ));
    assert!(!provenance_can_inherit_standing_auto_authority(
        UserInputProvenance::ImportedTranscript
    ));
}

#[test]
fn foreign_input_loses_standing_authority() {
    let policy = effective_input_policy(
        UserInputProvenance::MemoryRecall,
        AppMode::Yolo,
        "do it",
        true,
        true,
        true,
        ApprovalMode::Bypass,
    );
    assert_eq!(policy.mode, AppMode::Agent);
    assert!(policy.allow_shell);
    assert!(!policy.trust_mode);
    assert!(!policy.auto_approve);
    assert_eq!(policy.approval_mode, ApprovalMode::Suggest);
    assert_eq!(
        policy.status,
        Some("Input provenance 'memory_recall' cannot inherit standing auto-approval authority; continuing with approvals required.".to_string())
    );
}

#[test]
fn user_input_keeps_what_was_asked_for() {
    let policy = effective_input_policy(
        UserInputProvenance::ExternalUser,
        AppMode::Yolo,
        "do it",
        true,
        true,
        true,
        ApprovalMode::Bypass,
    );
    assert_eq!(policy.mode, AppMode::Yolo);
    assert!(policy.trust_mode && policy.auto_approve && policy.status.is_none());
}

#[test]
fn modes_bound_what_the_shell_may_do() {
    assert_eq!(
        shell_policy_for_mode(AppMode::Agent, false),
        ShellPolicy::Disabled
    );
    assert_eq!(
        shell_policy_for_mode(AppMode::Agent, true),
        ShellPolicy::Full
    );
    assert!(matches!(
        sandbox_policy_for_mode(AppMode::Plan, "/w"),
        SandboxPolicy::ReadOnly
    ));
    assert!(matches!(
        sandbox_policy_for_mode(AppMode::Yolo, "/w"),
        SandboxPolicy::DangerFullAccess
    ));
    match sandbox_policy_for_mode(AppMode::Agent, "/w") {
        SandboxPolicy::WorkspaceWrite {
            writable_roots,
            network_access,
            ..
        } => {
            assert_eq!(writable_roots, vec!["/w".to_string()]);
            assert!(network_access);
        }
        _ => panic!("an agent writes to its workspace"),
    }
    assert_eq!(
        agent_approval_mode_for_turn(true, ApprovalMode::Never),
        ApprovalMode::Bypass
    );
    let authority = TurnAuthority::from_effective_fields(
        AppMode::Plan,
        true,
        false,
        false,
        ApprovalMode::Never,
    );
    assert_eq!(authority.approval_mode_for_session(), ApprovalMode::Never);
}

#[test]
fn base_policies_follow_the_mode() {
    let prefs = ModeSessionPrefs {
        agent_allow_shell: false,
        agent_trust_mode: false,
        agent_approval_mode: ApprovalMode::Suggest,
    };
    let agent = base_policy_for_mode(AppMode::Agent, &prefs);
    assert!(!agent.allow_shell);
    assert_eq!(agent.approval_mode, ApprovalMode::Suggest);
    let plan = base_policy_for_mode(AppMode::Plan, &prefs);
    assert!(plan.allow_shell && !plan.trust_mode);
    assert_eq!(plan.approval_mode, ApprovalMode::Suggest);
    let yolo = base_policy_for_mode(AppMode::Yolo, &prefs);
    assert!(yolo.allow_shell && yolo.trust_mode);
    assert_eq!(yolo.approval_mode, ApprovalMode::Bypass);
}

#[test]
fn decisions_about_other_calls_are_passed_over() {
    let other = ApprovalEvent::Decided(ApprovalDecision::Approved {
        id: "b".to_string(),
    });
    assert!(matches!(await_tool_approval("a", other), Waiting::GoesOn));
    let own = ApprovalEvent::Decided(ApprovalDecision::Denied {
        id: "a".to_string(),
    });
    assert!(matches!(
        await_tool_approval("a", own),
        Waiting::Over(Ok(ApprovalResult::Denied))
    ));
    let policy = ApprovalEvent::Decided(ApprovalDecision::RetryWithPolicy {
        id: "a".to_string(),
        policy: SandboxPolicy::DangerFullAccess,
    });
    assert!(matches!(
        await_tool_approval("a", policy),
        Waiting::Over(Ok(ApprovalResult::RetryWithPolicy(
            SandboxPolicy::DangerFullAccess
        )))
    ));
}

#[test]
fn waits_for_consent_end_with_the_request() {
    match await_tool_approval("a", ApprovalEvent::Cancelled(Some(CancelReason::User))) {
        Waiting::Over(Err(ToolError::ExecutionFailed { message })) => {
            assert!(message.starts_with("Request cancelled while awaiting approval"));
            assert!(message.ends_with(&cancel_reason_suffix(Some(CancelReason::User))));
        }
        _ => panic!("the wait is over"),
    }
    assert!(matches!(
        await_tool_approval("a", ApprovalEvent::Closed),
        Waiting::Over(Err(ToolError::ExecutionFailed { .. }))
    ));
    assert_eq!(cancel_reason_suffix(None), "");
}

#[test]
fn answers_of_the_user_are_handed_on() {
    let submitted = UserInputEvent::Decided(UserInputDecision::Submitted {
        id: "q".to_string(),
        response: Json::Bool(true),
    });
    assert!(matches!(
        await_user_input("q", submitted).0,
        Waiting::Over(Ok(Json::Bool(true)))
    ));
    let other = UserInputEvent::Decided(UserInputDecision::Cancelled {
        id: "x".to_string(),
    });
    assert!(matches!(await_user_input("q", other).0, Waiting::GoesOn));
    assert!(matches!(
        await_user_input("q", UserInputEvent::TimedOut).0,
        Waiting::Over(Err(_))
    ));
    assert!(matches!(
        await_user_input("q", UserInputEvent::Closed).0,
        Waiting::Over(Err(_))
    ));
}

#[test]
fn first_reason_to_cancel_is_kept_until_the_reset() {
    let mut marks = ControlMarks::new();
    assert!(!marks.is_cancelled());
    marks.cancel_with_reason(CancelReason::Preempted);
    assert!(marks.is_cancelled());
    assert_eq!(marks.reason, Some(CancelReason::Preempted));
    marks.set_paused(true);
    assert!(marks.is_paused());
    marks.reset();
    assert!(!marks.is_cancelled());
    assert_eq!(marks.reason, None);
    marks.cancel();
    assert!(marks.is_cancelled());
}

fn answer(allow: bool, requires_approval: bool, reason: &str) -> Option<PolicyAnswer> {
    Some(PolicyAnswer {
        allow,
        requires_approval,
        reason: reason.to_string(),
    })
}

#[test]
fn rules_block_ask_or_stay_silent() {
    assert!(matches!(
        tool_ask_rule_decision(&answer(false, false, "no")),
        Some(ToolAskRuleDecision::Block(reason)) if reason == "no"
    ));
    assert!(matches!(
        tool_ask_rule_decision(&answer(true, true, "ask")),
        Some(ToolAskRuleDecision::Prompt(reason)) if reason == "ask"
    ));
    assert!(tool_ask_rule_decision(&answer(true, false, "fine")).is_none());
    assert!(tool_ask_rule_decision(&None).is_none());
    let input = object1("command", text_value("ls"));
    assert!(exec_shell_ask_rule_decision("exec_shell", &input, &answer(false, false, "no")).is_some());
    assert!(exec_shell_ask_rule_decision("read_file", &input, &answer(false, false, "no")).is_none());
}

#[test]
fn one_blocked_path_blocks_the_call() {
    let input = object1("path", text_value(" a.txt "));
    let paths = file_tool_permission_paths("read_file", &input, &None).expect("works on a path");
    assert_eq!(paths, vec!["a.txt".to_string()]);
    assert_eq!(
        file_tool_permission_paths("list_dir", &Json::Object(Vec::new()), &None),
        Some(vec![".".to_string()])
    );
    assert_eq!(file_tool_permission_paths("exec_shell", &input, &None), None);
    let patched = Some(vec!["a".to_string(), "b".to_string()]);
    let answers = vec![answer(true, true, "ask"), answer(false, false, "no")];
    assert!(matches!(
        file_tool_ask_rule_decision("apply_patch", &Json::Object(Vec::new()), &patched, &answers),
        Some(ToolAskRuleDecision::Block(reason)) if reason == "no"
    ));
}

#[test]
fn automatic_reviews_ask_or_block() {
    assert!(matches!(
        auto_review_plan_decision(AutoReviewAction::Allow, "r", "t", ApprovalMode::Auto),
        AutoReviewPlanDecision::NoChange
    ));
    assert!(matches!(
        auto_review_plan_decision(AutoReviewAction::AskUser, "r", "t", ApprovalMode::Suggest),
        AutoReviewPlanDecision::NoChange
    ));
    assert!(matches!(
        auto_review_plan_decision(AutoReviewAction::HoldForReview, "r", "t", ApprovalMode::Suggest),
        AutoReviewPlanDecision::ForcePrompt(reason)
            if reason == "Built-in safety gate requires approval: r"
    ));
    assert!(matches!(
        auto_review_plan_decision(AutoReviewAction::HoldForReview, "r", "t", ApprovalMode::Never),
        AutoReviewPlanDecision::Block(_)
    ));
    assert!(matches!(
        auto_review_plan_decision(AutoReviewAction::Block, "r", "t", ApprovalMode::Suggest),
        AutoReviewPlanDecision::Block(reason)
            if reason == "Auto-review policy blocked tool 't': r"
    ));
    assert_eq!(
        auto_review_run_origin_for_plan(true),
        RunOrigin::Background
    );
    assert_eq!(
        auto_review_run_origin_for_plan(false),
        RunOrigin::Interactive
    );
    assert_eq!(ask_for_approval(ApprovalMode::Never), AskForApproval::Never);
}

#[test]
fn edited_files_are_checked() {
    let input = object1("path", text_value("src/a.rs"));
    assert_eq!(
        edited_paths_for_tool("edit_file", &input, &None),
        vec!["src/a.rs".to_string()]
    );
    assert!(edited_paths_for_tool("read_file", &input, &None).is_empty());
    assert_eq!(
        files_to_check(true, "/w", "write_file", &input, &None),
        vec!["/w/src/a.rs".to_string()]
    );
    assert!(files_to_check(false, "/w", "write_file", &input, &None).is_empty());
}

#[test]
fn diagnostics_wait_until_they_are_told() {
    let mut pending = Vec::new();
    let blocks = vec![DiagnosticBlock {
        file: "a.rs".to_string(),
        items: vec![Diagnostic {
            line: 1,
            column: 2,
            severity: Severity::Error,
            message: "bad".to_string(),
        }],
    }];
    let events = keep_diagnostics(&mut pending, blocks);
    assert_eq!(pending.len(), 1);
    assert!(events
        .iter()
        .any(|e| matches!(e, Event::LspRepairUpdate { diagnostics_found: 1, .. })));
    let (text, _) = flush_diagnostics(&mut pending).expect("one block waits");
    assert!(text.contains("ERROR [1:2] bad"));
    assert!(pending.is_empty());
    assert!(flush_diagnostics(&mut pending).is_none());
}
