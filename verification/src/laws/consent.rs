//! When a call that needs the user's consent goes on.

use crate::engine::approval::{
    await_tool_approval, await_user_input, reason_suffix, ApprovalDecision, ApprovalEvent,
    ApprovalResult, CancelReason, UserInputDecision, UserInputEvent, Waiting,
};
use crate::engine::rules::PolicyAnswer;
use crate::engine::shell::{shell_approval, ShellApproval, ShellStep, ShellToolFacts, ShellTurn};
use crate::engine::state::Engine;
use crate::events::{event_views, turn_over_view, Event, EventView};
use crate::execpolicy::matcher::pattern_fits;
use crate::execpolicy::rules::{
    law_any_denial_counts, may_allow, ExecPolicyConfig, ExecPolicyDecision,
};
use crate::dispatch::{
    should_force_update_plan_first, should_stop_after_plan_tool, ToolApprovalStamp,
};
use crate::json::Json;
use crate::models::{outcome_view, AppMode, ToolError, ToolResult};
use crate::ops::TurnOutcomeStatus;
use vstd::prelude::*;

verus! {

/// A call goes on only where the user approved this very call, and is denied only where
/// they denied it; what they say of another call changes nothing.
pub proof fn law_only_the_user_approves(
    tool_id: &str,
    event: ApprovalEvent,
    r: Waiting<ApprovalResult>,
)
    requires
        call_ensures(await_tool_approval, (tool_id, event), r),
    ensures
        r matches Waiting::Over(Ok(a)) ==> (event matches ApprovalEvent::Decided(d) && match d {
            ApprovalDecision::Approved { id } => id@ == tool_id@ && a is Approved,
            ApprovalDecision::Denied { id } => id@ == tool_id@ && a is Denied,
            ApprovalDecision::RetryWithPolicy { id, policy } => id@ == tool_id@ && a
                == ApprovalResult::RetryWithPolicy(policy),
        }),
        event is Cancelled || event is Closed ==> r matches Waiting::Over(Err(_)),
        event matches ApprovalEvent::Decided(d) ==> d.about() != tool_id@ ==> r is GoesOn,
{
}

/// A question is answered only by an answer to it.
pub proof fn law_only_answers_answer(
    tool_id: &str,
    event: UserInputEvent,
    r: (Waiting<Json>, Option<String>),
)
    requires
        call_ensures(await_user_input, (tool_id, event), r),
    ensures
        r.0 matches Waiting::Over(Ok(answer)) ==> (event matches UserInputEvent::Decided(
            UserInputDecision::Submitted { id, response },
        ) && id@ == tool_id@ && response == answer),
        event is TimedOut || event is Closed || event is RequestCancelled ==> r.0
            matches Waiting::Over(Err(_)),
{
}

/// A command that the user was asked about runs only with their approval, under the
/// policy they chose where they chose one.
pub proof fn law_asked_commands_run_with_approval(
    turn: &ShellTurn,
    decision: Result<ApprovalResult, ToolError>,
    policy_text: &str,
    r: (ShellApproval, Option<Json>),
)
    requires
        call_ensures(shell_approval, (turn, decision, policy_text), r),
    ensures
        r.0 matches ShellApproval::Run { stamp, policy } ==> match decision {
            Ok(ApprovalResult::Approved) => stamp == ToolApprovalStamp::ApprovedByUser && policy
                is None,
            Ok(ApprovalResult::RetryWithPolicy(p)) => stamp
                == ToolApprovalStamp::ApprovedWithPolicy && policy == Some(p),
            _ => false,
        },
        decision matches Ok(ApprovalResult::Denied) ==> r.0 is Refused,
        decision is Err ==> r.0 is Refused,
{
}

/// A turn stops after a plan only where the user plans and the plan was written.
pub proof fn law_plans_end_turns(mode: AppMode, tool_name: &str, succeeded: bool, r: bool)
    requires
        call_ensures(should_stop_after_plan_tool, (mode, tool_name, succeeded), r),
    ensures
        r ==> mode == AppMode::Plan && succeeded && tool_name@ == "update_plan"@,
        mode == AppMode::Plan && succeeded && tool_name@ == "update_plan"@ ==> r,
{
}

/// A plan is asked for at once only where the user plans.
pub proof fn law_plans_are_for_planning(mode: AppMode, content: &str, r: bool)
    requires
        call_ensures(should_force_update_plan_first, (mode, content), r),
    ensures
        r ==> mode == AppMode::Plan,
        r ==> crate::text::contains_any_text(
            crate::text::ascii_lower(content@),
            crate::dispatch::direct_plan_words(),
        ),
{
}

/// The reason of a cancellation is told where it is known.
pub proof fn law_reasons_are_told(reason: CancelReason)
    ensures
        reason_suffix(Some(reason)) == " (reason: "@ + reason.text() + ")"@,
        reason_suffix(None).len() == 0,
        CancelReason::User.text() == "user cancelled the request"@,
{
}

/// A command runs unasked only outside of planning, with the shell switched on and a
/// tool for it, where no rule blocks it and the tool needs no consent or was given it.
pub proof fn law_commands_that_run_unasked(
    e: &Engine,
    turn: &ShellTurn,
    mode: AppMode,
    tool: &Option<ShellToolFacts>,
    answer: &Option<PolicyAnswer>,
    key: String,
    grouping_key: String,
    r: ShellStep,
)
    requires
        call_ensures(Engine::shell_step, (e, turn, mode, tool, answer, key, grouping_key), r),
    ensures
        r is Run ==> {
            &&& mode != AppMode::Plan
            &&& e.config.features.shell_tool
            &&& *tool matches Some(facts) && (!facts.needs_approval || facts.auto_approve)
            &&& turn.input@.text_field("command"@) is Some ==> (*answer matches Some(a) ==> a.allow
                && (a.requires_approval ==> e.session.auto_approve))
        },
        mode == AppMode::Plan ==> r is Refused,
        *answer matches Some(a) ==> !a.allow && turn.input@.text_field("command"@) is Some
            && mode != AppMode::Plan && e.config.features.shell_tool && *tool is Some ==> r
            is Refused,
{
}

/// A command that ended is told with its result; the turn is over as it went.
pub proof fn law_ended_commands_are_told(
    e: &Engine,
    turn: ShellTurn,
    result: Result<ToolResult, ToolError>,
    error_text: String,
    spilled_to: Option<&str>,
    r: Vec<Event>,
)
    requires
        call_ensures(
            Engine::finish_shell_command,
            (e, turn, result, error_text, spilled_to),
            r,
        ),
    ensures
        event_views(r@).contains(
            EventView::ToolCallComplete {
                id: turn.tool_id@,
                name: "exec_shell"@,
                result: outcome_view(result),
            },
        ),
        result is Ok ==> event_views(r@).contains(
            turn_over_view(TurnOutcomeStatus::Completed, None),
        ),
        result is Err ==> event_views(r@).contains(
            turn_over_view(TurnOutcomeStatus::Failed, Some(error_text@)),
        ),
{
    let all = event_views(r@);
    let k: int = if result is Ok && spilled_to is Some {
        1
    } else {
        0
    };
    assert(all[k] == (EventView::ToolCallComplete {
        id: turn.tool_id@,
        name: "exec_shell"@,
        result: outcome_view(result),
    }));
    if result is Ok {
        assert(all[k + 1] == turn_over_view(TurnOutcomeStatus::Completed, None));
    } else {
        assert(all[k + 1] == turn_over_view(TurnOutcomeStatus::Failed, Some(error_text@)));
    }
}

/// A command is allowed by the rules only where none of them denies it and one allows
/// it; it is denied exactly where one denies it.
pub proof fn law_rules_deny_before_they_allow<F: Fn(&str, &str) -> bool>(
    config: &ExecPolicyConfig,
    command: &str,
    prefix_allows: F,
    r: ExecPolicyDecision,
)
    requires
        call_ensures(ExecPolicyConfig::evaluate::<F>, (config, command, prefix_allows), r),
    ensures
        r is Deny <==> exists|g: int, k: int|
            0 <= g < config@.len() && 0 <= k < config@[g].1.deny.len() && pattern_fits(
                #[trigger] config@[g].1.deny[k],
                command@,
            ),
        r is Allow ==> exists|g: int, k: int|
            0 <= g < config@.len() && 0 <= k < (#[trigger] config@[g]).1.allow.len() && exists|
                p: &str,
            |
                p@ == #[trigger] config@[g].1.allow[k] && #[trigger] may_allow(
                    prefix_allows,
                    p,
                    command,
                ),
        r is AskUser ==> forall|g: int, k: int|
            0 <= g < config@.len() && 0 <= k < config@[g].1.allow.len() ==> !pattern_fits(
                #[trigger] config@[g].1.allow[k],
                command@,
            ),
{
    law_any_denial_counts(config@, command@);
    if r is Allow {
        let (g, k, p) = choose|g: int, k: int, p: &str|
            0 <= g < config@.len() && 0 <= k < config@[g].1.allow.len() && p@
                == #[trigger] config@[g].1.allow[k] && #[trigger] may_allow(
                prefix_allows,
                p,
                command,
            );
        assert(p@ == config@[g].1.allow[k] && may_allow(prefix_allows, p, command));
        assert(0 <= k < config@[g].1.allow.len());
    }
}

} // verus!
