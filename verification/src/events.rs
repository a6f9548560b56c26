//! What the engine tells its host, in the order in which it is told.

use crate::engine::goal::{GoalSnapshot, GoalView};
use crate::json::{Json, JsonView};
use crate::models::{
    copy_messages, message_views, opt_prompt, outcome_view, tool_views, Message, MessageView,
    PromptView, SystemPrompt, Tool, ToolError, ToolErrorView, ToolResult, ToolResultView, ToolView,
    Usage,
};
use crate::ops::{GoalStatus, TurnOutcomeStatus};
use crate::session::Session;
use crate::text::opt_text;
use crate::turn::SnapshotRequest;
use vstd::prelude::*;

verus! {

/// How grave a failure is.
#[derive(Debug, Clone, Copy, PartialEq, Eq, Structural)]
pub enum FailureKind {
    Fatal,
    FatalAuth,
    Transient,
}

/// What the engine tells its host or asks of it.
#[derive(Debug)]
#[allow(inconsistent_fields)]
pub enum Event {
    /// A line for the user.
    Status { message: String },
    /// A failure.
    Error { kind: FailureKind, message: String },
    /// A turn began.
    TurnStarted { turn_id: String },
    /// A turn ended.
    TurnComplete {
        usage: Usage,
        status: TurnOutcomeStatus,
        error: Option<String>,
        tool_catalog: Option<Vec<Tool>>,
        base_url: Option<String>,
    },
    /// A tool call began.
    ToolCallStarted { id: String, name: String, input: Json },
    /// A tool call ended.
    ToolCallComplete { id: String, name: String, result: Result<ToolResult, ToolError> },
    /// The user's consent is needed.
    ApprovalRequired {
        id: String,
        tool_name: String,
        description: String,
        input: Json,
        approval_key: String,
        approval_grouping_key: String,
        approval_force_prompt: bool,
    },
    /// A line for the record of tool calls.
    Audit { entry: Json },
    /// The session changed; it is told as it stands.
    SessionUpdated {
        session_id: String,
        messages: Vec<Message>,
        system_prompt: Option<SystemPrompt>,
        model: String,
        workspace: String,
    },
    /// The goal as it stands.
    GoalUpdated { snapshot: GoalSnapshot },
    /// The goal takes over what the host set.
    GoalSynced { objective: Option<String>, token_budget: Option<u32>, status: GoalStatus },
    /// The goal is charged with what a turn used.
    GoalCharged { tokens: u64, seconds: u64 },
    /// A snapshot is to be taken before the turn goes on.
    SnapshotBefore { request: SnapshotRequest },
    /// A snapshot is to be taken on the side.
    SnapshotAfter { request: SnapshotRequest },
    /// Whatever runs is to be cancelled.
    CancelRunning,
    /// The marks of an earlier cancellation are to be taken away.
    CancelReset,
    /// What the user wrote to steer an earlier turn is to be dropped.
    SteerDropped,
    /// What is shown of retries is to be cleared.
    RetryCleared,
    CompactionStarted { id: String, auto: bool, message: String },
    CompactionCompleted {
        id: String,
        auto: bool,
        message: String,
        messages_before: Option<usize>,
        messages_after: Option<usize>,
        summary_prompt: Option<String>,
    },
    CompactionFailed { id: String, auto: bool, message: String },
    PurgeStarted { message: String },
    PurgeCompleted {
        messages_before: usize,
        messages_after: usize,
        removed_count: usize,
        replaced_count: usize,
        message: String,
    },
    PurgeFailed { message: String },
    LspRepairUpdate { diagnostics_found: usize, files: usize, injected: bool },
}

/// What the engine tells its host, as contracts see it.
#[verifier::ext_equal]
#[allow(inconsistent_fields)]
pub enum EventView {
    Status(Seq<char>),
    Error(FailureKind, Seq<char>),
    TurnStarted(Seq<char>),
    TurnComplete {
        usage: Usage,
        status: TurnOutcomeStatus,
        error: Option<Seq<char>>,
        tool_catalog: Option<Seq<ToolView>>,
        base_url: Option<Seq<char>>,
    },
    ToolCallStarted { id: Seq<char>, name: Seq<char>, input: JsonView },
    ToolCallComplete {
        id: Seq<char>,
        name: Seq<char>,
        result: Result<ToolResultView, ToolErrorView>,
    },
    ApprovalRequired {
        id: Seq<char>,
        tool_name: Seq<char>,
        description: Seq<char>,
        input: JsonView,
        approval_key: Seq<char>,
        approval_grouping_key: Seq<char>,
        approval_force_prompt: bool,
    },
    Audit(JsonView),
    SessionUpdated {
        session_id: Seq<char>,
        messages: Seq<MessageView>,
        system_prompt: Option<PromptView>,
        model: Seq<char>,
        workspace: Seq<char>,
    },
    GoalUpdated(GoalView),
    GoalSynced { objective: Option<Seq<char>>, token_budget: Option<u32>, status: GoalStatus },
    GoalCharged { tokens: u64, seconds: u64 },
    SnapshotBefore(SnapshotView),
    SnapshotAfter(SnapshotView),
    CancelRunning,
    CancelReset,
    SteerDropped,
    RetryCleared,
    CompactionStarted { id: Seq<char>, auto: bool, message: Seq<char> },
    CompactionCompleted {
        id: Seq<char>,
        auto: bool,
        message: Seq<char>,
        messages_before: Option<usize>,
        messages_after: Option<usize>,
        summary_prompt: Option<Seq<char>>,
    },
    CompactionFailed { id: Seq<char>, auto: bool, message: Seq<char> },
    PurgeStarted(Seq<char>),
    PurgeCompleted {
        messages_before: usize,
        messages_after: usize,
        removed_count: usize,
        replaced_count: usize,
        message: Seq<char>,
    },
    PurgeFailed(Seq<char>),
    LspRepairUpdate { diagnostics_found: usize, files: usize, injected: bool },
}

/// A snapshot to be taken, as contracts see it.
#[verifier::ext_equal]
pub struct SnapshotView {
    pub workspace: Seq<char>,
    pub label: Seq<char>,
    pub cap_bytes: u64,
}

/// A snapshot to be taken, as contracts see it.
pub open spec fn snapshot_view(r: SnapshotRequest) -> SnapshotView {
    SnapshotView { workspace: r.workspace@, label: r.label@, cap_bytes: r.cap_bytes }
}

/// The view of an optional catalog.
pub open spec fn opt_catalog(c: Option<Vec<Tool>>) -> Option<Seq<ToolView>> {
    match c {
        Some(tools) => Some(tool_views(tools@)),
        None => None,
    }
}

impl View for Event {
    type V = EventView;

    open spec fn view(&self) -> EventView {
        match self {
            Event::Status { message } => EventView::Status(message@),
            Event::Error { kind, message } => EventView::Error(*kind, message@),
            Event::TurnStarted { turn_id } => EventView::TurnStarted(turn_id@),
            Event::TurnComplete { usage, status, error, tool_catalog, base_url } =>
                EventView::TurnComplete {
                usage: *usage,
                status: *status,
                error: opt_text(*error),
                tool_catalog: opt_catalog(*tool_catalog),
                base_url: opt_text(*base_url),
            },
            Event::ToolCallStarted { id, name, input } => EventView::ToolCallStarted {
                id: id@,
                name: name@,
                input: input@,
            },
            Event::ToolCallComplete { id, name, result } => EventView::ToolCallComplete {
                id: id@,
                name: name@,
                result: outcome_view(*result),
            },
            Event::ApprovalRequired {
                id,
                tool_name,
                description,
                input,
                approval_key,
                approval_grouping_key,
                approval_force_prompt,
            } => EventView::ApprovalRequired {
                id: id@,
                tool_name: tool_name@,
                description: description@,
                input: input@,
                approval_key: approval_key@,
                approval_grouping_key: approval_grouping_key@,
                approval_force_prompt: *approval_force_prompt,
            },
            Event::Audit { entry } => EventView::Audit(entry@),
            Event::SessionUpdated { session_id, messages, system_prompt, model, workspace } =>
                EventView::SessionUpdated {
                session_id: session_id@,
                messages: message_views(messages@),
                system_prompt: opt_prompt(*system_prompt),
                model: model@,
                workspace: workspace@,
            },
            Event::GoalUpdated { snapshot } => EventView::GoalUpdated(snapshot@),
            Event::GoalSynced { objective, token_budget, status } => EventView::GoalSynced {
                objective: opt_text(*objective),
                token_budget: *token_budget,
                status: *status,
            },
            Event::GoalCharged { tokens, seconds } => EventView::GoalCharged {
                tokens: *tokens,
                seconds: *seconds,
            },
            Event::SnapshotBefore { request } => EventView::SnapshotBefore(
                snapshot_view(*request),
            ),
            Event::SnapshotAfter { request } => EventView::SnapshotAfter(snapshot_view(*request)),
            Event::CancelRunning => EventView::CancelRunning,
            Event::CancelReset => EventView::CancelReset,
            Event::SteerDropped => EventView::SteerDropped,
            Event::RetryCleared => EventView::RetryCleared,
            Event::CompactionStarted { id, auto, message } => EventView::CompactionStarted {
                id: id@,
                auto: *auto,
                message: message@,
            },
            Event::CompactionCompleted {
                id,
                auto,
                message,
                messages_before,
                messages_after,
                summary_prompt,
            } => EventView::CompactionCompleted {
                id: id@,
                auto: *auto,
                message: message@,
                messages_before: *messages_before,
                messages_after: *messages_after,
                summary_prompt: opt_text(*summary_prompt),
            },
            Event::CompactionFailed { id, auto, message } => EventView::CompactionFailed {
                id: id@,
                auto: *auto,
                message: message@,
            },
            Event::PurgeStarted { message } => EventView::PurgeStarted(message@),
            Event::PurgeCompleted {
                messages_before,
                messages_after,
                removed_count,
                replaced_count,
                message,
            } => EventView::PurgeCompleted {
                messages_before: *messages_before,
                messages_after: *messages_after,
                removed_count: *removed_count,
                replaced_count: *replaced_count,
                message: message@,
            },
            Event::PurgeFailed { message } => EventView::PurgeFailed(message@),
            Event::LspRepairUpdate { diagnostics_found, files, injected } =>
                EventView::LspRepairUpdate {
                diagnostics_found: *diagnostics_found,
                files: *files,
                injected: *injected,
            },
        }
    }
}

/// What is told of a session that changed: what it holds at that moment.
pub open spec fn session_told(session: Session) -> EventView {
    EventView::SessionUpdated {
        session_id: session.id@,
        messages: message_views(session.messages@),
        system_prompt: opt_prompt(session.system_prompt),
        model: session.model@,
        workspace: session.workspace@,
    }
}

/// The views of a list of events.
pub open spec fn event_views(list: Seq<Event>) -> Seq<EventView> {
    list.map_values(|e: Event| e@)
}

impl Event {
    /// A line for the user.
    pub fn status(message: String) -> (r: Self)
        ensures
            r@ == EventView::Status(message@),
    {
        Event::Status { message }
    }

    /// A failure.
    pub fn error(kind: FailureKind, message: String) -> (r: Self)
        ensures
            r@ == EventView::Error(kind, message@),
    {
        Event::Error { kind, message }
    }

    /// A session that changed, as it stands.
    pub fn session_updated(session: &Session) -> (r: Self)
        ensures
            r@ == session_told(*session),
    {
        Event::SessionUpdated {
            session_id: session.id.clone(),
            messages: copy_messages(&session.messages),
            system_prompt: match &session.system_prompt {
                Some(p) => Some(p.clone()),
                None => None,
            },
            model: session.model.clone(),
            workspace: session.workspace.clone(),
        }
    }

    /// The end of a turn that never reached a model.
    pub fn turn_over(status: TurnOutcomeStatus, error: Option<String>) -> (r: Self)
        ensures
            r@ == turn_over_view(status, opt_text(error)),
    {
        Event::TurnComplete {
            usage: Usage::default(),
            status,
            error,
            tool_catalog: None,
            base_url: None,
        }
    }
}

/// The end of a turn that never reached a model.
pub open spec fn turn_over_view(status: TurnOutcomeStatus, error: Option<Seq<char>>) -> EventView {
    EventView::TurnComplete {
        usage: crate::models::no_usage(),
        status,
        error,
        tool_catalog: None,
        base_url: None,
    }
}

/// Adds an event at the end.
pub fn tell(list: &mut Vec<Event>, event: Event)
    ensures
        event_views(final(list)@) == event_views(old(list)@).push(event@),
{
    let ghost before = event_views(list@);
    list.push(event);
    proof {
        assert(event_views(list@) =~= before.push(event@));
    }
}

/// No events.
pub fn no_events() -> (r: Vec<Event>)
    ensures
        event_views(r@) == Seq::<EventView>::empty(),
{
    let r: Vec<Event> = Vec::new();
    proof {
        assert(event_views(r@) =~= Seq::empty());
    }
    r
}

} // verus!
