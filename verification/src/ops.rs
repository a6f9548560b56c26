//! What the host can ask of the engine, and where input comes from.

use crate::authority::ApprovalMode;
use crate::engine::state::{CompactionConfig, RouteLimits};
use crate::json::Json;
use crate::models::{AppMode, Message, SystemPrompt};
use vstd::prelude::*;

verus! {

/// What the identifiers of the user's own shell commands begin with.
pub const USER_SHELL_TOOL_ID_PREFIX: &'static str = "user_shell_";

/// How a turn ended.
#[derive(Debug, Clone, Copy, PartialEq, Eq, Structural)]
pub enum TurnOutcomeStatus {
    Completed,
    Interrupted,
    Failed,
}

/// Where the state of a goal stands.
#[derive(Debug, Clone, Copy, PartialEq, Eq, Structural)]
pub enum GoalStatus {
    Active,
    Paused,
    Complete,
    Blocked,
}

/// A session as the host sees it.
#[derive(Debug)]
pub struct SessionSnapshot {
    pub messages: Vec<Message>,
    pub total_tokens: u64,
    pub model: String,
    pub model_provider: String,
    pub workspace: String,
    pub system_prompt: Option<SystemPrompt>,
    pub mode: String,
}

/// How busy the connection to a provider is.
#[derive(Debug)]
pub struct ProviderRuntimeStatus {
    pub provider: String,
    pub request_concurrency_limit: Option<usize>,
    pub active_provider_requests: usize,
}

/// Where input comes from.
#[derive(Debug, Clone, Copy, PartialEq, Eq, Structural)]
pub enum UserInputProvenance {
    ExternalUser,
    Runtime,
    SubAgentHandoff,
    ImportedTranscript,
    MemoryRecall,
    AssistantGenerated,
}

impl UserInputProvenance {
    /// The word for a provenance.
    pub open spec fn word(self) -> Seq<char> {
        match self {
            UserInputProvenance::ExternalUser => "external_user"@,
            UserInputProvenance::Runtime => "runtime"@,
            UserInputProvenance::SubAgentHandoff => "subagent_handoff"@,
            UserInputProvenance::ImportedTranscript => "imported_transcript"@,
            UserInputProvenance::MemoryRecall => "memory_recall"@,
            UserInputProvenance::AssistantGenerated => "assistant_generated"@,
        }
    }

    /// The word for a provenance.
    pub fn as_str(self) -> (r: &'static str)
        ensures
            r@ == self.word(),
    {
        match self {
            UserInputProvenance::ExternalUser => "external_user",
            UserInputProvenance::Runtime => "runtime",
            UserInputProvenance::SubAgentHandoff => "subagent_handoff",
            UserInputProvenance::ImportedTranscript => "imported_transcript",
            UserInputProvenance::MemoryRecall => "memory_recall",
            UserInputProvenance::AssistantGenerated => "assistant_generated",
        }
    }

    /// Only the user can authorize work.
    pub fn can_authorize_work(self) -> (r: bool)
        ensures
            r == (self == UserInputProvenance::ExternalUser),
    {
        self == UserInputProvenance::ExternalUser
    }
}

/// A message for the model, with everything that holds for its turn.
#[derive(Debug)]
pub struct SendMessage {
    pub content: String,
    pub mode: AppMode,
    /// The provider for this turn, where it is not that of the session.
    pub provider: Option<String>,
    pub model: String,
    pub goal_objective: Option<String>,
    pub goal_token_budget: Option<u32>,
    pub goal_status: GoalStatus,
    pub reasoning_effort: Option<String>,
    /// The user left the effort to the program.
    pub reasoning_effort_auto: bool,
    /// The user left the model to the program.
    pub auto_model: bool,
    pub allow_shell: bool,
    pub trust_mode: bool,
    pub auto_approve: bool,
    pub approval_mode: ApprovalMode,
    pub translation_enabled: bool,
    pub show_thinking: bool,
    /// The tools that the turn may use, where not all.
    pub allowed_tools: Option<Vec<String>>,
    /// Tools that exist for this turn only.
    pub dynamic_tools: Vec<Json>,
    /// The number under which the host keeps the hooks.
    pub hook_executor: Option<u64>,
    pub verbosity: Option<String>,
    pub provenance: UserInputProvenance,
}

/// A session that the host kept.
#[derive(Debug)]
pub struct SyncSession {
    pub session_id: Option<String>,
    pub messages: Vec<Message>,
    pub system_prompt: Option<SystemPrompt>,
    pub system_prompt_override: bool,
    pub model: String,
    pub workspace: String,
    pub mode: AppMode,
}

/// A request to the engine.
#[derive(Debug)]
#[allow(inconsistent_fields)]
pub enum Op {
    /// Ask the model.
    SendMessage(SendMessage),
    /// Run a shell command that the user typed.
    RunShellCommand {
        command: String,
        mode: AppMode,
        allow_shell: bool,
        trust_mode: bool,
        auto_approve: bool,
        approval_mode: ApprovalMode,
    },
    /// Give the goal another status, or take it away.
    SetGoalStatus { status: GoalStatus, clear: bool },
    /// Cancel what runs.
    CancelRequest,
    ApproveToolCall { id: String },
    DenyToolCall { id: String },
    SpawnSubAgent { prompt: String },
    ListSubAgents,
    CancelSubAgent { agent_id: String },
    ChangeMode {
        mode: AppMode,
        allow_shell: bool,
        trust_mode: bool,
        auto_approve: bool,
        approval_mode: ApprovalMode,
    },
    SetModel { model: String, mode: AppMode, route_limits: Option<RouteLimits> },
    SetCompaction { config: CompactionConfig },
    SetStreamChunkTimeout { timeout_secs: u64 },
    SetSubagentRuntimeConfig {
        enabled: bool,
        max_subagents: usize,
        launch_concurrency: usize,
        max_spawn_depth: u32,
        api_timeout_secs: u64,
        heartbeat_timeout_secs: u64,
    },
    /// Take over a session that the host kept.
    SyncSession(SyncSession),
    /// Make the context shorter.
    CompactContext,
    GetSessionSnapshot,
    GetProviderRuntimeStatus,
    /// Let the model choose what goes from the context.
    PurgeContext,
    /// Take back the last message of the user and send another one.
    EditLastTurn { new_message: String },
    /// Stop.
    Shutdown,
}

} // verus!
