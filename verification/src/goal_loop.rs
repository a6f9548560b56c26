//! Whether a goal is worked on for another turn.

use vstd::prelude::*;

verus! {

/// Where the work on a goal stands.
#[derive(Debug, Clone, Copy, PartialEq, Eq, Structural)]
pub enum GoalRunStatus {
    Active,
    Completed,
    Blocked,
}

/// Why the work on a goal stops.
#[derive(Debug, Clone, Copy, PartialEq, Eq, Structural)]
pub enum StopReason {
    Completed,
    Blocked,
    TokenBudget,
    TimeBudget,
    ContinuationLimit,
}

/// What a goal has used up.
#[derive(Debug, Clone, Copy, PartialEq, Eq, Structural)]
pub struct GoalProgress {
    pub tokens_used: u64,
    pub time_used_seconds: u64,
    pub continuations: u32,
}

impl Default for GoalProgress {
    fn default() -> (r: Self)
        ensures
            r == (GoalProgress { tokens_used: 0, time_used_seconds: 0, continuations: 0 }),
    {
        GoalProgress { tokens_used: 0, time_used_seconds: 0, continuations: 0 }
    }
}

/// What a goal may use up.
#[derive(Debug, Clone, Copy, PartialEq, Eq, Structural)]
pub struct GoalBudget {
    pub token_budget: Option<u64>,
    pub time_budget_seconds: Option<u64>,
}

impl GoalBudget {
    /// A budget without limits.
    pub fn unbounded() -> (r: Self)
        ensures
            r == (GoalBudget { token_budget: None, time_budget_seconds: None }),
    {
        GoalBudget { token_budget: None, time_budget_seconds: None }
    }

    /// A budget of so many tokens.
    pub fn with_token_budget(token_budget: u64) -> (r: Self)
        ensures
            r == (GoalBudget { token_budget: Some(token_budget), time_budget_seconds: None }),
    {
        GoalBudget { token_budget: Some(token_budget), time_budget_seconds: None }
    }
}

/// Whether to go on.
#[derive(Debug, Clone, Copy, PartialEq, Eq, Structural)]
pub enum ContinuationDecision {
    Continue,
    Stop(StopReason),
}

/// The budget is used up.
pub open spec fn exhausted(used: u64, budget: Option<u64>) -> bool {
    budget is Some && used >= budget->0
}

/// Whether to go on: a goal that ended stops for that reason, an active one
/// when its tokens, or else its time, are used up.
pub open spec fn continuation(
    status: GoalRunStatus,
    progress: GoalProgress,
    budget: GoalBudget,
) -> ContinuationDecision {
    match status {
        GoalRunStatus::Completed => ContinuationDecision::Stop(StopReason::Completed),
        GoalRunStatus::Blocked => ContinuationDecision::Stop(StopReason::Blocked),
        GoalRunStatus::Active => if exhausted(progress.tokens_used, budget.token_budget) {
            ContinuationDecision::Stop(StopReason::TokenBudget)
        } else if exhausted(progress.time_used_seconds, budget.time_budget_seconds) {
            ContinuationDecision::Stop(StopReason::TimeBudget)
        } else {
            ContinuationDecision::Continue
        },
    }
}

/// Whether to work on a goal for another turn.
pub fn decide_continuation(
    status: GoalRunStatus,
    progress: GoalProgress,
    budget: GoalBudget,
) -> (r: ContinuationDecision)
    ensures
        r == continuation(status, progress, budget),
{
    match status {
        GoalRunStatus::Completed => return ContinuationDecision::Stop(StopReason::Completed),
        GoalRunStatus::Blocked => return ContinuationDecision::Stop(StopReason::Blocked),
        GoalRunStatus::Active => {},
    }
    if let Some(tokens) = budget.token_budget {
        if progress.tokens_used >= tokens {
            return ContinuationDecision::Stop(StopReason::TokenBudget);
        }
    }
    if let Some(secs) = budget.time_budget_seconds {
        if progress.time_used_seconds >= secs {
            return ContinuationDecision::Stop(StopReason::TimeBudget);
        }
    }
    ContinuationDecision::Continue
}

/// Whether the work ended well.
pub fn is_success(reason: StopReason) -> (r: bool)
    ensures
        r == (reason == StopReason::Completed),
{
    reason == StopReason::Completed
}

/// The number of turns already spent never stops a goal: without a budget an
/// active one always goes on, and with one only the budget counts.
pub proof fn law_turns_alone_never_stop(
    status: GoalRunStatus,
    progress: GoalProgress,
    continuations: u32,
    budget: GoalBudget,
)
    ensures
        continuation(status, GoalProgress { continuations, ..progress }, budget) == continuation(
            status,
            progress,
            budget,
        ),
        continuation(
            GoalRunStatus::Active,
            progress,
            GoalBudget { token_budget: None, time_budget_seconds: None },
        ) == ContinuationDecision::Continue,
        continuation(status, progress, budget) != ContinuationDecision::Stop(
            StopReason::ContinuationLimit,
        ),
{
}

/// A goal that ended is never taken up again, however much budget is left.
pub proof fn law_ended_goals_stay_ended(
    status: GoalRunStatus,
    progress: GoalProgress,
    budget: GoalBudget,
)
    requires
        status != GoalRunStatus::Active,
    ensures
        continuation(status, progress, budget) != ContinuationDecision::Continue,
{
}

/// Using up more never turns a stop into a continuation.
pub proof fn law_stops_are_final(
    status: GoalRunStatus,
    less: GoalProgress,
    more: GoalProgress,
    budget: GoalBudget,
)
    requires
        less.tokens_used <= more.tokens_used,
        less.time_used_seconds <= more.time_used_seconds,
        continuation(status, less, budget) != ContinuationDecision::Continue,
    ensures
        continuation(status, more, budget) != ContinuationDecision::Continue,
{
}

} // verus!
