//! The goal that a session works towards over several turns.

use crate::context::clean;
use crate::events::{event_views, no_events, tell, Event, EventView};
use crate::goal_loop::{
    continuation, decide_continuation, ContinuationDecision, GoalBudget, GoalProgress,
    GoalRunStatus,
};
use crate::models::Usage;
use crate::ops::GoalStatus;
use crate::text::{concat, opt_str, opt_text, same_text};
use vstd::prelude::*;

verus! {

/// A goal as it stands.
#[derive(Debug)]
pub struct GoalSnapshot {
    pub objective: Option<String>,
    pub status: String,
    pub active: bool,
    pub token_budget: Option<u32>,
    pub tokens_used: u64,
    pub time_used_seconds: u64,
    pub continuation_count: u32,
}

/// A goal, as contracts see it.
#[verifier::ext_equal]
pub struct GoalView {
    pub objective: Option<Seq<char>>,
    pub status: Seq<char>,
    pub active: bool,
    pub token_budget: Option<u32>,
    pub tokens_used: u64,
    pub time_used_seconds: u64,
    pub continuation_count: u32,
}

impl View for GoalSnapshot {
    type V = GoalView;

    open spec fn view(&self) -> GoalView {
        GoalView {
            objective: opt_text(self.objective),
            status: self.status@,
            active: self.active,
            token_budget: self.token_budget,
            tokens_used: self.tokens_used,
            time_used_seconds: self.time_used_seconds,
            continuation_count: self.continuation_count,
        }
    }
}

/// An objective without blanks around it, where something is left.
pub open spec fn objective_of(value: Option<Seq<char>>) -> Option<Seq<char>> {
    match value {
        Some(v) => clean(v),
        None => None,
    }
}

/// An objective without blanks around it, where something is left.
pub fn normalized_goal_objective(value: Option<&str>) -> (r: Option<String>)
    ensures
        opt_text(r) == objective_of(opt_str(value)),
{
    match value {
        Some(v) => crate::context::clean_text(v),
        None => None,
    }
}

/// The objective that a prompt speaks of: that of the goal while it is active,
/// none while it is not, and the configured one where there is no goal.
pub open spec fn prompt_objective(
    configured: Option<Seq<char>>,
    state: Option<(Option<Seq<char>>, bool)>,
) -> Option<Seq<char>> {
    match state {
        Some((Some(objective), active)) => if active {
            Some(objective)
        } else {
            None
        },
        _ => objective_of(configured),
    }
}

/// The objective that a prompt speaks of. `snapshot` is the goal, where its
/// state can be read.
pub fn goal_objective_for_prompt(
    configured: Option<&str>,
    snapshot: Option<&GoalSnapshot>,
) -> (r: Option<String>)
    ensures
        opt_text(r) == prompt_objective(
            opt_str(configured),
            match snapshot {
                Some(s) => Some((opt_text(s.objective), s.active)),
                None => None,
            },
        ),
{
    if let Some(s) = snapshot {
        if let Some(objective) = &s.objective {
            if s.active {
                return Some(objective.clone());
            }
            return None;
        }
    }
    normalized_goal_objective(configured)
}

/// The goal that the host is told: one without an objective is not told.
pub fn goal_snapshot_for_event(snapshot: Option<GoalSnapshot>) -> (r: Option<GoalSnapshot>)
    ensures
        r == (match snapshot {
            Some(s) => if s.objective is Some {
                Some(s)
            } else {
                None
            },
            None => None,
        }),
{
    match snapshot {
        Some(s) => {
            if s.objective.is_some() {
                Some(s)
            } else {
                None
            }
        },
        None => None,
    }
}

/// What is told of a goal: the goal as it stands, and nothing where there is
/// none or it has no objective.
pub open spec fn goal_told(snapshot: Option<GoalSnapshot>) -> Seq<EventView> {
    match snapshot {
        Some(s) => if s.objective is Some {
            seq![EventView::GoalUpdated(s@)]
        } else {
            Seq::empty()
        },
        None => Seq::empty(),
    }
}

/// What is told of a goal. `snapshot` is the goal, where its state can be read.
pub fn goal_updated(snapshot: Option<GoalSnapshot>) -> (r: Vec<Event>)
    ensures
        event_views(r@) == goal_told(snapshot),
{
    let mut events = no_events();
    if let Some(snapshot) = goal_snapshot_for_event(snapshot) {
        tell(&mut events, Event::GoalUpdated { snapshot });
        assert(event_views(events@) =~= seq![EventView::GoalUpdated(snapshot@)]);
    }
    events
}

/// How a goal that is active stands, by its own word for it.
pub open spec fn run_status(word: Seq<char>) -> Option<GoalRunStatus> {
    if word == "active"@ {
        Some(GoalRunStatus::Active)
    } else if word == "complete"@ {
        Some(GoalRunStatus::Completed)
    } else {
        None
    }
}

/// What the goal has used so far.
pub open spec fn progress_of(s: GoalSnapshot) -> GoalProgress {
    GoalProgress {
        tokens_used: s.tokens_used,
        time_used_seconds: s.time_used_seconds,
        continuations: s.continuation_count,
    }
}

/// What the goal may use.
pub open spec fn budget_of(s: GoalSnapshot) -> GoalBudget {
    GoalBudget {
        token_budget: match s.token_budget {
            Some(b) => Some(b as u64),
            None => None,
        },
        time_budget_seconds: None,
    }
}

/// Whether work on a goal goes on after a turn.
pub open spec fn goes_on(s: GoalSnapshot) -> bool {
    s.active && match run_status(s.status@) {
        Some(status) => continuation(status, progress_of(s), budget_of(s))
            == ContinuationDecision::Continue,
        None => false,
    }
}

/// Whether work on a goal goes on after a turn.
pub fn goal_continuation_if_active(s: &GoalSnapshot) -> (r: bool)
    ensures
        r == goes_on(*s),
{
    if !s.active {
        return false;
    }
    let status = if same_text(s.status.as_str(), "active") {
        GoalRunStatus::Active
    } else if same_text(s.status.as_str(), "complete") {
        GoalRunStatus::Completed
    } else {
        return false;
    };
    let decision = decide_continuation(
        status,
        GoalProgress {
            tokens_used: s.tokens_used,
            time_used_seconds: s.time_used_seconds,
            continuations: s.continuation_count,
        },
        GoalBudget {
            token_budget: match s.token_budget {
                Some(b) => Some(b as u64),
                None => None,
            },
            time_budget_seconds: None,
        },
    );
    match decision {
        ContinuationDecision::Continue => true,
        ContinuationDecision::Stop(_) => false,
    }
}

/// The word for what happened to a goal.
pub open spec fn status_word(status: GoalStatus, clear: bool) -> Seq<char> {
    if clear {
        "cleared"@
    } else {
        match status {
            GoalStatus::Active => "resumed"@,
            GoalStatus::Paused => "paused"@,
            GoalStatus::Complete => "complete"@,
            GoalStatus::Blocked => "blocked"@,
        }
    }
}

/// Clears the goal, or gives it a new status; its objective and budget stay. The
/// user is told. The goal as it then stands is told next, by `goal_updated`.
pub fn handle_set_goal_status(
    status: GoalStatus,
    clear: bool,
    objective: Option<String>,
    token_budget: Option<u32>,
) -> (r: Vec<Event>)
    ensures
        event_views(r@) == seq![
            if clear {
                EventView::GoalSynced {
                    objective: None,
                    token_budget: None,
                    status: GoalStatus::Active,
                }
            } else {
                EventView::GoalSynced { objective: opt_text(objective), token_budget, status }
            },
            EventView::Status("Goal "@ + status_word(status, clear) + "."@),
        ],
{
    let mut events = no_events();
    let word = if clear {
        tell(
            &mut events,
            Event::GoalSynced { objective: None, token_budget: None, status: GoalStatus::Active },
        );
        "cleared"
    } else {
        tell(&mut events, Event::GoalSynced { objective, token_budget, status });
        match status {
            GoalStatus::Active => "resumed",
            GoalStatus::Paused => "paused",
            GoalStatus::Complete => "complete",
            GoalStatus::Blocked => "blocked",
        }
    };
    let mut message = concat("Goal ", word);
    message.append(".");
    tell(&mut events, Event::status(message));
    proof {
        assert(event_views(events@) =~= seq![
            event_views(events@)[0],
            EventView::Status("Goal "@ + status_word(status, clear) + "."@),
        ]);
    }
    events
}

/// What a turn charges a goal with: its tokens and its full seconds.
pub open spec fn charge(usage: Usage, elapsed_nanos: u128) -> Option<(u64, u64)> {
    let tokens = (usage.input_tokens + usage.output_tokens) as u64;
    let seconds = seconds_of(elapsed_nanos);
    if tokens == 0 && seconds == 0 {
        None
    } else {
        Some((tokens, seconds))
    }
}

/// The full seconds of a time.
pub open spec fn seconds_of(nanos: u128) -> u64 {
    (nanos / 1_000_000_000) as u64
}

/// What a turn charges a goal with; nothing where it used nothing.
pub fn record_goal_usage_for_turn(usage: &Usage, elapsed_nanos: u128) -> (r: Option<(u64, u64)>)
    requires
        elapsed_nanos / 1_000_000_000 <= u64::MAX,
    ensures
        r == charge(*usage, elapsed_nanos),
{
    let tokens: u64 = usage.input_tokens as u64 + usage.output_tokens as u64;
    let seconds: u64 = (elapsed_nanos / 1_000_000_000) as u64;
    if tokens == 0 && seconds == 0 {
        None
    } else {
        Some((tokens, seconds))
    }
}

/// A goal that is not active is never worked on by itself, and neither is one
/// that used up its tokens.
pub proof fn law_work_stops(s: GoalSnapshot)
    requires
        !s.active || (s.token_budget matches Some(b) && s.tokens_used >= b) || s.status@
            == "complete"@,
    ensures
        !goes_on(s),
{
    reveal_strlit("active");
    reveal_strlit("complete");
    assert("active"@.len() == 6 && "complete"@.len() == 8);
}

} // verus!
