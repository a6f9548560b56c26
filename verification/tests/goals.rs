use codewhale_tui::goal_loop::{
    decide_continuation, is_success, ContinuationDecision, GoalBudget, GoalProgress,
    GoalRunStatus, StopReason,
};
use codewhale_tui::logging::{
    is_verbose, log_value_enables_verbose, restore_verbose_state, set_verbose,
    snapshot_verbose_state, VerboseState,
};

#[test]
fn completed_status_stops_with_success() {
    let d = decide_continuation(
        GoalRunStatus::Completed,
        GoalProgress::default(),
        GoalBudget::unbounded(),
    );
    assert_eq!(d, ContinuationDecision::Stop(StopReason::Completed));
    assert!(is_success(StopReason::Completed));
}

#[test]
fn blocked_status_stops_without_success() {
    let d = decide_continuation(
        GoalRunStatus::Blocked,
        GoalProgress::default(),
        GoalBudget::unbounded(),
    );
    assert_eq!(d, ContinuationDecision::Stop(StopReason::Blocked));
    assert!(!is_success(StopReason::Blocked));
}

#[test]
fn active_under_budget_continues() {
    let progress = GoalProgress {
        tokens_used: 10,
        time_used_seconds: 5,
        continuations: 2,
    };
    let budget = GoalBudget {
        token_budget: Some(1000),
        time_budget_seconds: Some(600),
    };
    assert_eq!(
        decide_continuation(GoalRunStatus::Active, progress, budget),
        ContinuationDecision::Continue
    );
}

#[test]
fn active_with_no_budget_continues_indefinitely() {
    let progress = GoalProgress {
        continuations: 1_000_000,
        ..GoalProgress::default()
    };
    assert_eq!(
        decide_continuation(GoalRunStatus::Active, progress, GoalBudget::unbounded()),
        ContinuationDecision::Continue
    );
}

#[test]
fn token_budget_exhaustion_stops() {
    let progress = GoalProgress {
        tokens_used: 1000,
        continuations: 1,
        ..GoalProgress::default()
    };
    let budget = GoalBudget::with_token_budget(1000);
    assert_eq!(
        decide_continuation(GoalRunStatus::Active, progress, budget),
        ContinuationDecision::Stop(StopReason::TokenBudget)
    );
}

#[test]
fn time_budget_exhaustion_stops() {
    let progress = GoalProgress {
        time_used_seconds: 601,
        continuations: 1,
        ..GoalProgress::default()
    };
    let budget = GoalBudget {
        token_budget: None,
        time_budget_seconds: Some(600),
    };
    assert_eq!(
        decide_continuation(GoalRunStatus::Active, progress, budget),
        ContinuationDecision::Stop(StopReason::TimeBudget)
    );
}

#[test]
fn terminal_status_outranks_remaining_budget() {
    let progress = GoalProgress::default();
    let budget = GoalBudget {
        token_budget: Some(1_000_000),
        time_budget_seconds: Some(86_400),
    };
    assert_eq!(
        decide_continuation(GoalRunStatus::Completed, progress, budget),
        ContinuationDecision::Stop(StopReason::Completed)
    );
}

#[test]
fn log_value_parser_accepts_common_rust_log_directives() {
    assert!(log_value_enables_verbose("debug"));
    assert!(log_value_enables_verbose("codewhale_cli=debug"));
    assert!(log_value_enables_verbose(
        "warn,codewhale_tui::client=trace"
    ));
    assert!(!log_value_enables_verbose("warn"));
    assert!(!log_value_enables_verbose("codewhale_tui=off"));
}

#[test]
fn snapshot_and_restore_verbose_state_round_trip() {
    let mut state = VerboseState::default();
    set_verbose(&mut state, false);
    snapshot_verbose_state(&mut state);
    set_verbose(&mut state, true);
    restore_verbose_state(&mut state);
    assert!(!is_verbose(&state));

    set_verbose(&mut state, true);
    snapshot_verbose_state(&mut state);
    set_verbose(&mut state, false);
    restore_verbose_state(&mut state);
    assert!(is_verbose(&state));
}

#[test]
fn restore_keeps_cli_verbose_state_even_when_env_is_not_verbose() {
    let mut state = VerboseState::default();
    set_verbose(&mut state, true);
    snapshot_verbose_state(&mut state);
    set_verbose(&mut state, false);
    restore_verbose_state(&mut state);
    assert!(is_verbose(&state));
}
