//! A shell command that the user types: it runs like a tool call of the model,
//! under the same rules, but no model is asked.

use crate::authority::{ApprovalMode, SandboxPolicy, TurnAuthority};
use crate::dispatch::{
    stamp_tool_result_approval, stamped_content, stamped_metadata, ToolApprovalStamp,
};
use crate::engine::approval::ApprovalResult;
use crate::engine::rules::{
    answer_outcome, exec_shell_ask_rule_decision, AskRuleView, PolicyAnswer, ToolAskRuleDecision,
};
use crate::engine::state::Engine;
use crate::events::{event_views, no_events, tell, turn_over_view, Event, EventView, SnapshotView};
use crate::json::{lemma_member_views, member_views, object2, text_value, with_pair, Json, JsonView};
use crate::models::{
    outcome_view, AppMode, ToolError, ToolErrorView, ToolResult, ToolResultView,
};
use crate::ops::{TurnOutcomeStatus, USER_SHELL_TOOL_ID_PREFIX};
use crate::session::next_revision;
use crate::text::{decimal, opt_str, push_decimal};
use crate::turn::{post_turn_snapshot, pre_turn_snapshot, snapshot_label};
use vstd::prelude::*;

verus! {

/// A shell command that is under way.
#[derive(Debug)]
pub struct ShellTurn {
    pub tool_id: String,
    pub command: String,
    pub input: Json,
}

/// What the tools say of the shell tool.
#[derive(Debug)]
pub struct ShellToolFacts {
    /// The call is one that needs consent.
    pub needs_approval: bool,
    /// The tools are set up to do without consent.
    pub auto_approve: bool,
    pub description: String,
}

/// What is done about a shell command.
#[derive(Debug)]
pub enum ShellStep {
    /// It does not run.
    Refused(ToolError),
    /// The user is asked.
    Ask(Vec<Event>),
    /// It runs.
    Run,
}

/// How a shell command runs after the user was asked.
#[derive(Debug)]
pub enum ShellApproval {
    /// It does not run.
    Refused(ToolError),
    /// It runs, under another policy where one is given.
    Run { stamp: ToolApprovalStamp, policy: Option<SandboxPolicy> },
}

/// The number of the next turn: it stops at the largest number.
pub open spec fn next_turn(counter: u64) -> u64 {
    next_revision(counter)
}

/// The identifier of a shell command in a turn.
pub open spec fn shell_id(turn: u64) -> Seq<char> {
    USER_SHELL_TOOL_ID_PREFIX@ + decimal(turn as nat)
}

/// The input of the shell tool.
pub open spec fn shell_input(command: Seq<char>) -> JsonView {
    JsonView::Object(
        seq![("command"@, JsonView::Str(command)), ("source"@, JsonView::Str("user"@))],
    )
}

/// Members with one more, where it is there.
pub open spec fn with_optional(
    members: Seq<(Seq<char>, JsonView)>,
    key: Seq<char>,
    value: Option<Seq<char>>,
) -> Seq<(Seq<char>, JsonView)> {
    match value {
        Some(text) => members.push((key, JsonView::Str(text))),
        None => members,
    }
}

/// A line for the record of tool calls.
pub open spec fn record_of(
    tool_id: Seq<char>,
    event: Seq<char>,
    decision: Option<Seq<char>>,
    path: Option<Seq<char>>,
    policy: Option<Seq<char>>,
) -> JsonView {
    let m0 = with_optional(Seq::empty(), "decision"@, decision);
    let m1 = m0.push(("event"@, JsonView::Str(event)));
    let m2 = with_optional(m1, "path"@, path);
    let m3 = with_optional(m2, "policy"@, policy);
    let m4 = m3.push(("source"@, JsonView::Str("composer_bang"@)));
    let m5 = m4.push(("tool_id"@, JsonView::Str(tool_id)));
    JsonView::Object(m5.push(("tool_name"@, JsonView::Str("exec_shell"@))))
}

fn push_optional(members: Vec<(String, Json)>, key: &str, value: Option<&str>) -> (r: Vec<
    (String, Json),
>)
    ensures
        member_views(r@) == with_optional(member_views(members@), key@, opt_str(value)),
{
    match value {
        Some(text) => with_pair(members, key, text_value(text)),
        None => members,
    }
}

fn record(
    tool_id: &str,
    event: &str,
    decision: Option<&str>,
    path: Option<&str>,
    policy: Option<&str>,
) -> (r: Json)
    ensures
        r@ == record_of(tool_id@, event@, opt_str(decision), opt_str(path), opt_str(policy)),
{
    let none: Vec<(String, Json)> = Vec::new();
    proof {
        lemma_member_views(none@);
        assert(member_views(none@) =~= Seq::empty());
    }
    let m0 = push_optional(none, "decision", decision);
    let m1 = with_pair(m0, "event", text_value(event));
    let m2 = push_optional(m1, "path", path);
    let m3 = push_optional(m2, "policy", policy);
    let m4 = with_pair(m3, "source", text_value("composer_bang"));
    let m5 = with_pair(m4, "tool_id", text_value(tool_id));
    Json::Object(with_pair(m5, "tool_name", text_value("exec_shell")))
}

/// Why a shell command cannot run in a mode, or with what is switched on.
pub open spec fn shell_unavailable(
    mode: AppMode,
    shell_on: bool,
    has_tool: bool,
) -> Option<ToolErrorView> {
    if mode == AppMode::Plan {
        Some(
            ToolErrorView::PermissionDenied("Tool 'exec_shell' is unavailable in Plan mode"@),
        )
    } else if !shell_on {
        Some(ToolErrorView::NotAvailable("Tool 'exec_shell' is disabled by feature flag"@))
    } else if !has_tool {
        Some(ToolErrorView::NotAvailable("tool 'exec_shell' is not registered"@))
    } else {
        None
    }
}

/// What is done about a shell command that can run, as contracts see it. With
/// consent come the description for the user and whether they are asked in any
/// case.
pub enum ShellStepView {
    Refused(ToolErrorView),
    Ask(Seq<char>, bool),
    Run,
}

/// What is done about a shell command that can run: a rule can refuse it, a rule
/// can ask the user unless they gave consent for the session, and the tool can
/// need consent.
pub open spec fn shell_step_of(
    facts: ShellToolFacts,
    rule: Option<AskRuleView>,
    session_auto_approve: bool,
) -> ShellStepView {
    match rule {
        Some(AskRuleView::Block(reason)) => ShellStepView::Refused(
            ToolErrorView::PermissionDenied(reason),
        ),
        Some(AskRuleView::Prompt(reason)) if !session_auto_approve => ShellStepView::Ask(
            reason,
            true,
        ),
        _ => if facts.needs_approval && !facts.auto_approve {
            ShellStepView::Ask(facts.description@, false)
        } else {
            ShellStepView::Run
        },
    }
}

impl Engine {
    /// The snapshot of the workspace around a turn.
    pub open spec fn turn_snapshot(self, prefix: Seq<char>, prompt: Seq<char>) -> SnapshotView {
        SnapshotView {
            workspace: self.session.workspace@,
            label: snapshot_label(prefix, self.turn_counter, Some(prompt)),
            cap_bytes: self.config.snapshots_max_workspace_bytes,
        }
    }

    /// Begins to run a shell command: takes over the permissions of the turn,
    /// and tells that the turn and the call began.
    pub fn begin_shell_command(
        &mut self,
        command: String,
        mode: AppMode,
        allow_shell: bool,
        trust_mode: bool,
        auto_approve: bool,
        approval_mode: ApprovalMode,
    ) -> (r: (ShellTurn, Vec<Event>))
        ensures
            exists|a: TurnAuthority|
                #![trigger old(self).with_authority(a)]
                {
                    &&& a@ == crate::authority::authority_of(
                        mode,
                        allow_shell,
                        trust_mode,
                        auto_approve,
                        approval_mode,
                        None,
                    )
                    &&& *final(self) == (Engine {
                        turn_counter: next_turn(old(self).turn_counter),
                        ..old(self).with_authority(a)
                    })
                },
            r.0.tool_id@ == shell_id(final(self).turn_counter),
            r.0.command == command,
            r.0.input@ == shell_input(command@),
            event_views(r.1@) == seq![
                EventView::CancelReset,
                EventView::TurnStarted(r.0.tool_id@),
            ] + (if old(self).config.snapshots_enabled {
                seq![
                    EventView::SnapshotBefore(
                        final(self).turn_snapshot("pre-turn"@, command@),
                    ),
                ]
            } else {
                Seq::empty()
            }) + seq![
                EventView::ToolCallStarted {
                    id: r.0.tool_id@,
                    name: "exec_shell"@,
                    input: shell_input(command@),
                },
            ],
    {
        let mut events = no_events();
        tell(&mut events, Event::CancelReset);
        self.turn_counter = self.turn_counter.saturating_add(1);
        let mut tool_id = USER_SHELL_TOOL_ID_PREFIX.to_owned();
        push_decimal(&mut tool_id, self.turn_counter);
        let input = object2(
            "command",
            text_value(command.as_str()),
            "source",
            text_value("user"),
        );
        let authority = TurnAuthority::from_effective_fields(
            mode,
            allow_shell,
            trust_mode,
            auto_approve,
            approval_mode,
        );
        self.apply_runtime_mode_policy(&authority);
        assert(*self == (Engine {
            turn_counter: next_turn(old(self).turn_counter),
            ..old(self).with_authority(authority)
        }));
        tell(&mut events, Event::TurnStarted { turn_id: tool_id.clone() });
        let ghost started = event_views(events@);
        assert(started =~= seq![EventView::CancelReset, EventView::TurnStarted(tool_id@)]);
        if self.config.snapshots_enabled {
            let request = pre_turn_snapshot(
                self.session.workspace.as_str(),
                self.turn_counter,
                self.config.snapshots_max_workspace_bytes,
                Some(command.as_str()),
            );
            tell(&mut events, Event::SnapshotBefore { request });
            assert(event_views(events@) =~= started + seq![
                EventView::SnapshotBefore(self.turn_snapshot("pre-turn"@, command@)),
            ]);
        } else {
            assert(event_views(events@) =~= started + Seq::empty());
        }
        let ghost before = event_views(events@);
        tell(
            &mut events,
            Event::ToolCallStarted {
                id: tool_id.clone(),
                name: "exec_shell".to_owned(),
                input: input.clone(),
            },
        );
        assert(event_views(events@) =~= before + seq![
            EventView::ToolCallStarted {
                id: tool_id@,
                name: "exec_shell"@,
                input: shell_input(command@),
            },
        ]);
        (ShellTurn { tool_id, command, input }, events)
    }

    /// Decides what is done about a shell command. `tool` is what the tools say
    /// of the shell tool, `answer` what the rules say of the command, and the two
    /// keys are those under which consent is remembered.
    pub fn shell_step(
        &self,
        turn: &ShellTurn,
        mode: AppMode,
        tool: &Option<ShellToolFacts>,
        answer: &Option<PolicyAnswer>,
        approval_key: String,
        approval_grouping_key: String,
    ) -> (r: ShellStep)
        ensures
            match shell_unavailable(mode, self.config.features.shell_tool, *tool is Some) {
                Some(e) => r matches ShellStep::Refused(f) && f@ == e,
                None => match shell_step_of(
                    (*tool)->Some_0,
                    if turn.input@.text_field("command"@) is Some {
                        answer_outcome(*answer)
                    } else {
                        None
                    },
                    self.session.auto_approve,
                ) {
                    ShellStepView::Refused(e) => r matches ShellStep::Refused(f) && f@ == e,
                    ShellStepView::Run => r is Run,
                    ShellStepView::Ask(description, forced) => {
                        &&& r matches ShellStep::Ask(events)
                        &&& event_views(events@) == seq![
                            EventView::Audit(
                                record_of(
                                    turn.tool_id@,
                                    "tool.approval_required"@,
                                    None,
                                    None,
                                    None,
                                ),
                            ),
                            EventView::ApprovalRequired {
                                id: turn.tool_id@,
                                tool_name: "exec_shell"@,
                                description,
                                input: turn.input@,
                                approval_key: approval_key@,
                                approval_grouping_key: approval_grouping_key@,
                                approval_force_prompt: forced,
                            },
                        ]
                    },
                },
            },
    {
        if mode == AppMode::Plan {
            return ShellStep::Refused(
                ToolError::PermissionDenied {
                    message: "Tool 'exec_shell' is unavailable in Plan mode".to_owned(),
                },
            );
        }
        if !self.config.features.shell_tool {
            return ShellStep::Refused(
                ToolError::NotAvailable {
                    message: "Tool 'exec_shell' is disabled by feature flag".to_owned(),
                },
            );
        }
        let facts = match tool {
            Some(f) => f,
            None => {
                return ShellStep::Refused(
                    ToolError::NotAvailable {
                        message: "tool 'exec_shell' is not registered".to_owned(),
                    },
                );
            },
        };
        let mut approval_required = facts.needs_approval && !facts.auto_approve;
        let mut description = facts.description.clone();
        let mut forced = false;
        match exec_shell_ask_rule_decision("exec_shell", &turn.input, answer) {
            Some(ToolAskRuleDecision::Block(reason)) => {
                return ShellStep::Refused(ToolError::PermissionDenied { message: reason });
            },
            Some(ToolAskRuleDecision::Prompt(reason)) => {
                if !self.session.auto_approve {
                    approval_required = true;
                    description = reason;
                    forced = true;
                }
            },
            None => {},
        }
        if !approval_required {
            return ShellStep::Run;
        }
        let mut events = no_events();
        tell(
            &mut events,
            Event::Audit {
                entry: record(turn.tool_id.as_str(), "tool.approval_required", None, None, None),
            },
        );
        let ghost asked = EventView::ApprovalRequired {
            id: turn.tool_id@,
            tool_name: "exec_shell"@,
            description: description@,
            input: turn.input@,
            approval_key: approval_key@,
            approval_grouping_key: approval_grouping_key@,
            approval_force_prompt: forced,
        };
        tell(
            &mut events,
            Event::ApprovalRequired {
                id: turn.tool_id.clone(),
                tool_name: "exec_shell".to_owned(),
                description,
                input: turn.input.clone(),
                approval_key,
                approval_grouping_key,
                approval_force_prompt: forced,
            },
        );
        assert(event_views(events@) =~= seq![
            EventView::Audit(
                record_of(turn.tool_id@, "tool.approval_required"@, None, None, None),
            ),
            asked,
        ]);
        ShellStep::Ask(events)
    }

    /// Ends a shell command: tells where its output went, where that was too much,
    /// the result, and that the turn is over. `error_text` is the error of a call
    /// that failed, and `spilled_to` the file that holds the whole output.
    pub fn finish_shell_command(
        &self,
        turn: ShellTurn,
        result: Result<ToolResult, ToolError>,
        error_text: String,
        spilled_to: Option<&str>,
    ) -> (r: Vec<Event>)
        ensures
            event_views(r@) == (if result is Ok && spilled_to is Some {
                seq![
                    EventView::Audit(
                        record_of(
                            turn.tool_id@,
                            "tool.spillover"@,
                            None,
                            opt_str(spilled_to),
                            None,
                        ),
                    ),
                ]
            } else {
                Seq::empty()
            }) + seq![
                EventView::ToolCallComplete {
                    id: turn.tool_id@,
                    name: "exec_shell"@,
                    result: outcome_view(result),
                },
                if result is Ok {
                    turn_over_view(TurnOutcomeStatus::Completed, None)
                } else {
                    turn_over_view(TurnOutcomeStatus::Failed, Some(error_text@))
                },
            ] + (if self.config.snapshots_enabled {
                seq![
                    EventView::SnapshotAfter(self.turn_snapshot("post-turn"@, turn.command@)),
                ]
            } else {
                Seq::empty()
            }),
    {
        let mut events = no_events();
        let ok = match &result {
            Ok(_) => true,
            Err(_) => false,
        };
        if ok {
            if let Some(path) = spilled_to {
                tell(
                    &mut events,
                    Event::Audit {
                        entry: record(
                            turn.tool_id.as_str(),
                            "tool.spillover",
                            None,
                            Some(path),
                            None,
                        ),
                    },
                );
                assert(event_views(events@) =~= seq![
                    EventView::Audit(
                        record_of(turn.tool_id@, "tool.spillover"@, None, Some(path@), None),
                    ),
                ]);
            }
        }
        let ghost first = event_views(events@);
        let ghost done = EventView::ToolCallComplete {
            id: turn.tool_id@,
            name: "exec_shell"@,
            result: outcome_view(result),
        };
        tell(
            &mut events,
            Event::ToolCallComplete {
                id: turn.tool_id,
                name: "exec_shell".to_owned(),
                result,
            },
        );
        let over = if ok {
            Event::turn_over(TurnOutcomeStatus::Completed, None)
        } else {
            Event::turn_over(TurnOutcomeStatus::Failed, Some(error_text))
        };
        let ghost over_view = over@;
        tell(&mut events, over);
        assert(event_views(events@) =~= first + seq![done, over_view]);
        let ghost before = event_views(events@);
        if self.config.snapshots_enabled {
            let request = post_turn_snapshot(
                self.session.workspace.as_str(),
                self.turn_counter,
                self.config.snapshots_max_workspace_bytes,
                Some(turn.command.as_str()),
            );
            tell(&mut events, Event::SnapshotAfter { request });
            assert(event_views(events@) =~= before + seq![
                EventView::SnapshotAfter(self.turn_snapshot("post-turn"@, turn.command@)),
            ]);
        } else {
            assert(event_views(events@) =~= before + Seq::empty());
        }
        events
    }
}

/// What the user's decision means for a shell command. `policy_text` writes out
/// the policy where the user chose another one. A line for the record comes with
/// every decision.
pub fn shell_approval(
    turn: &ShellTurn,
    decision: Result<ApprovalResult, ToolError>,
    policy_text: &str,
) -> (r: (ShellApproval, Option<Json>))
    ensures
        match decision {
            Ok(ApprovalResult::Approved) => {
                &&& r.0 == (ShellApproval::Run {
                    stamp: ToolApprovalStamp::ApprovedByUser,
                    policy: None,
                })
                &&& r.1 matches Some(entry)
                &&& entry@ == record_of(
                    turn.tool_id@,
                    "tool.approval_decision"@,
                    Some("approved"@),
                    None,
                    None,
                )
            },
            Ok(ApprovalResult::Denied) => {
                &&& r.0 matches ShellApproval::Refused(e)
                &&& e@ == ToolErrorView::PermissionDenied("Tool 'exec_shell' denied by user"@)
                &&& r.1 matches Some(entry)
                &&& entry@ == record_of(
                    turn.tool_id@,
                    "tool.approval_decision"@,
                    Some("denied"@),
                    None,
                    None,
                )
            },
            Ok(ApprovalResult::RetryWithPolicy(policy)) => {
                &&& r.0 == (ShellApproval::Run {
                    stamp: ToolApprovalStamp::ApprovedWithPolicy,
                    policy: Some(policy),
                })
                &&& r.1 matches Some(entry)
                &&& entry@ == record_of(
                    turn.tool_id@,
                    "tool.approval_decision"@,
                    Some("retry_with_policy"@),
                    None,
                    Some(policy_text@),
                )
            },
            Err(e) => r.0 == ShellApproval::Refused(e) && r.1 is None,
        },
{
    let id = turn.tool_id.as_str();
    match decision {
        Ok(ApprovalResult::Approved) => (
            ShellApproval::Run { stamp: ToolApprovalStamp::ApprovedByUser, policy: None },
            Some(record(id, "tool.approval_decision", Some("approved"), None, None)),
        ),
        Ok(ApprovalResult::Denied) => (
            ShellApproval::Refused(
                ToolError::PermissionDenied {
                    message: "Tool 'exec_shell' denied by user".to_owned(),
                },
            ),
            Some(record(id, "tool.approval_decision", Some("denied"), None, None)),
        ),
        Ok(ApprovalResult::RetryWithPolicy(policy)) => (
            ShellApproval::Run {
                stamp: ToolApprovalStamp::ApprovedWithPolicy,
                policy: Some(policy),
            },
            Some(
                record(
                    id,
                    "tool.approval_decision",
                    Some("retry_with_policy"),
                    None,
                    Some(policy_text),
                ),
            ),
        ),
        Err(e) => (ShellApproval::Refused(e), None),
    }
}

/// The result of a call that ran after the user was asked: a call that succeeded
/// carries the mark of how consent was given.
pub fn stamp_shell_result(
    result: Result<ToolResult, ToolError>,
    stamp: ToolApprovalStamp,
) -> (r: Result<ToolResult, ToolError>)
    ensures
        outcome_view(r) == (match outcome_view(result) {
            Ok(v) => Ok(
                ToolResultView {
                    content: stamped_content(v.content, stamp),
                    success: v.success,
                    metadata: Some(stamped_metadata(v.metadata, stamp)),
                },
            ),
            Err(e) => Err(e),
        }),
{
    match result {
        Ok(value) => {
            let mut value = value;
            stamp_tool_result_approval(&mut value, stamp);
            Ok(value)
        },
        Err(e) => Err(e),
    }
}

/// No shell command runs while the user plans, and none that a rule refuses,
/// whatever else was consented to.
pub proof fn law_refused_commands_never_run(
    mode: AppMode,
    shell_on: bool,
    has_tool: bool,
    facts: ShellToolFacts,
    reason: Seq<char>,
    session_auto_approve: bool,
)
    ensures
        mode == AppMode::Plan ==> shell_unavailable(mode, shell_on, has_tool) is Some,
        shell_step_of(facts, Some(AskRuleView::Block(reason)), session_auto_approve) is Refused,
{
}

/// Where the user approved everything, no rule makes them be asked; it can still
/// refuse a command.
pub proof fn law_approved_sessions_are_not_asked(
    facts: ShellToolFacts,
    rule: Option<AskRuleView>,
)
    ensures
        !(rule matches Some(AskRuleView::Block(_))) ==> shell_step_of(facts, rule, true)
            == shell_step_of(facts, None, true),
        facts.auto_approve ==> !(shell_step_of(facts, rule, true) is Ask),
{
}

} // verus!
