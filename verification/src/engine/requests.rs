//! The requests of the host: what each does to the engine at once, and what it
//! leaves to be done.

use crate::authority::{ApprovalMode, TurnAuthority};
use crate::context::{compaction_part, extract_compaction_summary_prompt};
use crate::engine::prompt::refreshed;
use crate::engine::state::{CompactionConfig, Engine, EngineConfig, RouteLimits};
use crate::events::{
    event_views, no_events, session_told, tell, Event, EventView, FailureKind,
};
use crate::ids::{is_random_id, random_id};
use crate::models::{copy_messages, message_views, opt_prompt, AppMode, Message, SystemPrompt};
use crate::ops::{
    GoalStatus, Op, ProviderRuntimeStatus, SendMessage, SessionSnapshot, SyncSession,
    UserInputProvenance,
};
use crate::session::{next_revision, Session};
use crate::text::{
    ascii_lower, concat, copy_texts, decimal, join, joined, opt_text, opt_texts, push_decimal,
    push_usize, same_text, texts, to_ascii_lowercase, trim, trimmed,
};
use vstd::prelude::*;

verus! {

/// What a request leaves to be done.
#[derive(Debug)]
pub enum Step {
    /// Nothing but to tell the host.
    Done(Vec<Event>),
    /// A message goes to the model.
    Send(SendMessage),
    RunShell {
        command: String,
        mode: AppMode,
        allow_shell: bool,
        trust_mode: bool,
        auto_approve: bool,
        approval_mode: ApprovalMode,
    },
    SetGoalStatus { status: GoalStatus, clear: bool },
    SpawnSubAgent { prompt: String },
    ListSubAgents,
    CancelSubAgent { agent_id: String },
    /// The mode has changed; the user is told its description.
    ModeChanged { mode: AppMode },
    /// The model has changed; the prompt is made anew.
    ModelChanged,
    /// The limits of the sub-agents have changed; their manager takes them over.
    SubagentLimitsChanged { enabled: bool },
    /// A session is taken over.
    Sync(SyncSession),
    Compact,
    Snapshot,
    ProviderStatus,
    Purge,
    /// The engine stops.
    Stop,
}

/// What the program allows of sub-agents at most.
#[derive(Debug, Clone, Copy, PartialEq, Eq, Structural)]
pub struct SubagentCeilings {
    pub max_subagents: usize,
    pub max_spawn_depth: u32,
}

/// A number between two bounds.
pub open spec fn clamped(n: usize, low: usize, high: usize) -> usize {
    if n < low {
        low
    } else if n > high {
        high
    } else {
        n
    }
}

fn clamp(n: usize, low: usize, high: usize) -> (r: usize)
    ensures
        r == clamped(n, low, high),
{
    if n < low {
        low
    } else if n > high {
        high
    } else {
        n
    }
}

/// The word that leaves the model to the program.
pub open spec fn means_auto(model: Seq<char>) -> bool {
    ascii_lower(trimmed(model)) == "auto"@
}

fn is_auto(model: &str) -> (r: bool)
    ensures
        r == means_auto(model@),
{
    let t = trim(model);
    let lower = to_ascii_lowercase(t.as_str());
    same_text(lower.as_str(), "auto")
}

/// The place of the last message of the user among the first `n`.
pub open spec fn last_user(messages: Seq<Message>, n: nat) -> Option<int>
    decreases n,
{
    if n == 0 {
        None
    } else if messages[n - 1].role@ == "user"@ {
        Some(n - 1)
    } else {
        last_user(messages, (n - 1) as nat)
    }
}

fn find_last_user(messages: &Vec<Message>) -> (r: Option<usize>)
    ensures
        match r {
            Some(i) => last_user(messages@, messages@.len()) == Some(i as int) && i
                < messages@.len(),
            None => last_user(messages@, messages@.len()) is None,
        },
{
    let mut n: usize = messages.len();
    while n > 0
        invariant
            n <= messages@.len(),
            last_user(messages@, messages@.len()) == last_user(messages@, n as nat),
        decreases n,
    {
        if same_text(messages[n - 1].role.as_str(), "user") {
            return Some(n - 1);
        }
        n -= 1;
    }
    None
}

impl EngineConfig {
    /// The settings with other limits for sub-agents.
    pub open spec fn with_subagent_limits(
        self,
        enabled: bool,
        max_subagents: usize,
        launch_concurrency: usize,
        max_spawn_depth: u32,
        api_timeout_secs: u64,
        heartbeat_timeout_secs: u64,
        ceilings: SubagentCeilings,
    ) -> EngineConfig {
        let most = clamped(max_subagents, 1, ceilings.max_subagents);
        EngineConfig {
            subagents_enabled: enabled,
            max_subagents: most,
            launch_concurrency: clamped(launch_concurrency, 1, most),
            max_spawn_depth: if max_spawn_depth <= ceilings.max_spawn_depth {
                max_spawn_depth
            } else {
                ceilings.max_spawn_depth
            },
            subagent_api_timeout_secs: api_timeout_secs,
            subagent_heartbeat_timeout_secs: heartbeat_timeout_secs,
            ..self
        }
    }

    fn limit_subagents(
        &mut self,
        enabled: bool,
        max_subagents: usize,
        launch_concurrency: usize,
        max_spawn_depth: u32,
        api_timeout_secs: u64,
        heartbeat_timeout_secs: u64,
        ceilings: SubagentCeilings,
    )
        ensures
            *final(self) == old(self).with_subagent_limits(
                enabled,
                max_subagents,
                launch_concurrency,
                max_spawn_depth,
                api_timeout_secs,
                heartbeat_timeout_secs,
                ceilings,
            ),
    {
        let most = clamp(max_subagents, 1, ceilings.max_subagents);
        self.subagents_enabled = enabled;
        self.max_subagents = most;
        self.launch_concurrency = clamp(launch_concurrency, 1, most);
        self.max_spawn_depth = if max_spawn_depth <= ceilings.max_spawn_depth {
            max_spawn_depth
        } else {
            ceilings.max_spawn_depth
        };
        self.subagent_api_timeout_secs = api_timeout_secs;
        self.subagent_heartbeat_timeout_secs = heartbeat_timeout_secs;
    }
}

/// A message that goes to the model under the settings as they stand.
pub open spec fn as_settings_stand(
    e: Engine,
    s: SendMessage,
    content: Seq<char>,
    provenance: UserInputProvenance,
) -> bool {
    &&& s.content@ == content
    &&& s.mode == e.current_mode
    &&& opt_text(s.provider) == Some(e.provider@)
    &&& s.model@ == e.session.model@
    &&& opt_text(s.goal_objective) == opt_text(e.config.goal_objective)
    &&& s.goal_token_budget == e.config.goal_token_budget
    &&& s.goal_status == e.config.goal_status
    &&& opt_text(s.reasoning_effort) == opt_text(e.session.reasoning_effort)
    &&& s.reasoning_effort_auto == e.session.reasoning_effort_auto
    &&& s.auto_model == e.session.auto_model
    &&& s.allow_shell == e.session.allow_shell
    &&& s.trust_mode == e.session.trust_mode
    &&& s.auto_approve == e.session.auto_approve
    &&& s.approval_mode == e.session.approval_mode
    &&& s.translation_enabled == e.config.translation_enabled
    &&& s.show_thinking == e.config.show_thinking
    &&& opt_texts(s.allowed_tools) == opt_texts(e.config.allowed_tools)
    &&& s.dynamic_tools@.len() == 0
    &&& s.hook_executor == e.config.hook_executor
    &&& opt_text(s.verbosity) == opt_text(e.config.verbosity)
    &&& s.provenance == provenance
}

impl Engine {
    /// A message that goes to the model under the settings as they stand.
    pub fn submission(&self, content: String, provenance: UserInputProvenance) -> (r: SendMessage)
        ensures
            as_settings_stand(*self, r, content@, provenance),
    {
        SendMessage {
            content,
            mode: self.current_mode,
            provider: Some(self.provider.clone()),
            model: self.session.model.clone(),
            goal_objective: self.config.goal_objective.clone(),
            goal_token_budget: self.config.goal_token_budget,
            goal_status: self.config.goal_status,
            reasoning_effort: self.session.reasoning_effort.clone(),
            reasoning_effort_auto: self.session.reasoning_effort_auto,
            auto_model: self.session.auto_model,
            allow_shell: self.session.allow_shell,
            trust_mode: self.session.trust_mode,
            auto_approve: self.session.auto_approve,
            approval_mode: self.session.approval_mode,
            translation_enabled: self.config.translation_enabled,
            show_thinking: self.config.show_thinking,
            allowed_tools: match &self.config.allowed_tools {
                Some(v) => Some(copy_texts(v)),
                None => None,
            },
            dynamic_tools: Vec::new(),
            hook_executor: self.config.hook_executor,
            verbosity: self.config.verbosity.clone(),
            provenance,
        }
    }

    /// Takes back the last message of the user and everything behind it. Where
    /// there is none, nothing changes.
    pub fn cut_last_turn(&mut self)
        ensures
            match last_user(old(self).session.messages@, old(self).session.messages@.len()) {
                Some(i) => {
                    &&& final(self).session.messages@ == old(self).session.messages@.take(i)
                    &&& final(self).session.messages_revision == next_revision(
                        old(self).session.messages_revision,
                    )
                    &&& final(self).session.same_but_messages(old(self).session)
                    &&& *final(self) == (Engine { session: final(self).session, ..*old(self) })
                },
                None => *final(self) == *old(self),
            },
    {
        if let Some(i) = find_last_user(&self.session.messages) {
            self.session.messages.truncate(i);
            self.session.bump_messages_revision();
        }
    }

    /// The engine under another model.
    pub open spec fn with_model(self, model: String, route_limits: Option<RouteLimits>) -> Engine {
        Engine {
            session: Session { auto_model: means_auto(model@), model, ..self.session },
            config: EngineConfig { model, ..self.config },
            active_route_limits: route_limits,
            ..self
        }
    }

    /// The engine with other limits for sub-agents.
    pub open spec fn with_subagent_limits(
        self,
        enabled: bool,
        max_subagents: usize,
        launch_concurrency: usize,
        max_spawn_depth: u32,
        api_timeout_secs: u64,
        heartbeat_timeout_secs: u64,
        ceilings: SubagentCeilings,
    ) -> Engine {
        Engine {
            config: self.config.with_subagent_limits(
                enabled,
                max_subagents,
                launch_concurrency,
                max_spawn_depth,
                api_timeout_secs,
                heartbeat_timeout_secs,
                ceilings,
            ),
            ..self
        }
    }

    /// Handles a request: does what can be done at once, and says what is left
    /// to be done.
    pub fn handle(&mut self, op: Op, ceilings: SubagentCeilings) -> (r: Step)
        requires
            ceilings.max_subagents >= 1,
        ensures
            if changes_settings(op) {
                settings_changed(*old(self), op, ceilings, *final(self), r)
            } else {
                passed_on(*old(self), op, r) && *final(self) == *old(self)
            },
    {
        let changes = match &op {
            Op::ChangeMode { .. } | Op::SetModel { .. } | Op::SetCompaction { .. } => true,
            Op::SetStreamChunkTimeout { .. } | Op::SetSubagentRuntimeConfig { .. } => true,
            Op::EditLastTurn { .. } => true,
            _ => false,
        };
        if changes {
            self.change_settings(op, ceilings)
        } else {
            self.pass_on(op)
        }
    }

    fn pass_on(&self, op: Op) -> (r: Step)
        requires
            !changes_settings(op),
        ensures
            passed_on(*self, op, r),
    {
        match op {
            Op::SendMessage(message) => Step::Send(message),
            Op::RunShellCommand {
                command,
                mode,
                allow_shell,
                trust_mode,
                auto_approve,
                approval_mode,
            } => Step::RunShell {
                command,
                mode,
                allow_shell,
                trust_mode,
                auto_approve,
                approval_mode,
            },
            Op::SetGoalStatus { status, clear } => Step::SetGoalStatus { status, clear },
            Op::CancelRequest => Step::Done(cancel_events()),
            Op::ApproveToolCall { id } => Step::Done(
                one_status(concat("Approved tool call: ", id.as_str())),
            ),
            Op::DenyToolCall { id } => Step::Done(
                one_status(concat("Denied tool call: ", id.as_str())),
            ),
            Op::SpawnSubAgent { prompt } => self.spawn_step(prompt),
            Op::ListSubAgents => Step::ListSubAgents,
            Op::CancelSubAgent { agent_id } => Step::CancelSubAgent { agent_id },
            Op::SyncSession(request) => Step::Sync(request),
            Op::CompactContext => Step::Compact,
            Op::GetSessionSnapshot => Step::Snapshot,
            Op::GetProviderRuntimeStatus => Step::ProviderStatus,
            Op::PurgeContext => Step::Purge,
            _ => Step::Stop,
        }
    }

    fn spawn_step(&self, prompt: String) -> (r: Step)
        ensures
            passed_on(*self, Op::SpawnSubAgent { prompt }, r),
    {
        if self.client.connected.is_some() {
            return Step::SpawnSubAgent { prompt };
        }
        let why = match &self.client.error {
            Some(e) => e.as_str(),
            None => "API client not configured",
        };
        Step::Done(one_event(spawn_failed(why)))
    }

    fn change_settings(&mut self, op: Op, ceilings: SubagentCeilings) -> (r: Step)
        requires
            changes_settings(op),
        ensures
            settings_changed(*old(self), op, ceilings, *final(self), r),
    {
        match op {
            Op::ChangeMode { mode, allow_shell, trust_mode, auto_approve, approval_mode } => {
                self.change_mode(mode, allow_shell, trust_mode, auto_approve, approval_mode);
                Step::ModeChanged { mode }
            },
            Op::SetModel { model, mode: _, route_limits } => {
                self.set_model(model, route_limits);
                Step::ModelChanged
            },
            Op::SetCompaction { config } => {
                let word = if config.enabled {
                    "enabled"
                } else {
                    "disabled"
                };
                self.set_compaction(config);
                Step::Done(one_status(concat("Auto-compaction ", word)))
            },
            Op::SetStreamChunkTimeout { timeout_secs } => {
                self.set_stream_timeout(timeout_secs);
                let mut text = "Stream chunk timeout set to ".to_owned();
                push_decimal(&mut text, timeout_secs);
                text.append("s");
                Step::Done(one_status(text))
            },
            Op::SetSubagentRuntimeConfig {
                enabled,
                max_subagents,
                launch_concurrency,
                max_spawn_depth,
                api_timeout_secs,
                heartbeat_timeout_secs,
            } => {
                self.set_subagent_limits(
                    enabled,
                    max_subagents,
                    launch_concurrency,
                    max_spawn_depth,
                    api_timeout_secs,
                    heartbeat_timeout_secs,
                    ceilings,
                );
                Step::SubagentLimitsChanged { enabled }
            },
            Op::EditLastTurn { new_message } => Step::Send(self.resubmit(new_message)),
            _ => Step::Stop,
        }
    }

    fn set_compaction(&mut self, config: CompactionConfig)
        ensures
            *final(self) == (Engine {
                config: EngineConfig { compaction: config, ..old(self).config },
                ..*old(self)
            }),
    {
        self.config.compaction = config;
    }

    fn set_stream_timeout(&mut self, timeout_secs: u64)
        ensures
            *final(self) == (Engine {
                config: EngineConfig {
                    stream_chunk_timeout_secs: timeout_secs,
                    ..old(self).config
                },
                ..*old(self)
            }),
    {
        self.config.stream_chunk_timeout_secs = timeout_secs;
    }

    fn resubmit(&mut self, new_message: String) -> (r: SendMessage)
        ensures
            as_settings_stand(
                *old(self),
                r,
                new_message@,
                UserInputProvenance::ExternalUser,
            ),
            last_turn_cut(old(self).session, final(self).session),
            *final(self) == (Engine { session: final(self).session, ..*old(self) }),
    {
        self.cut_last_turn();
        self.submission(new_message, UserInputProvenance::ExternalUser)
    }

    fn change_mode(
        &mut self,
        mode: AppMode,
        allow_shell: bool,
        trust_mode: bool,
        auto_approve: bool,
        approval_mode: ApprovalMode,
    )
        ensures
            exists|a: TurnAuthority|
                #![trigger old(self).with_authority(a)]
                a@ == crate::authority::authority_of(
                    mode,
                    allow_shell,
                    trust_mode,
                    auto_approve,
                    approval_mode,
                    None,
                ) && *final(self) == old(self).with_authority(a),
    {
        let authority = TurnAuthority::from_effective_fields(
            mode,
            allow_shell,
            trust_mode,
            auto_approve,
            approval_mode,
        );
        self.apply_runtime_mode_policy(&authority);
    }

    fn set_model(&mut self, model: String, route_limits: Option<RouteLimits>)
        ensures
            *final(self) == old(self).with_model(model, route_limits),
    {
        self.session.auto_model = is_auto(model.as_str());
        self.config.model = model.clone();
        self.session.model = model;
        self.active_route_limits = route_limits;
    }

    fn set_subagent_limits(
        &mut self,
        enabled: bool,
        max_subagents: usize,
        launch_concurrency: usize,
        max_spawn_depth: u32,
        api_timeout_secs: u64,
        heartbeat_timeout_secs: u64,
        ceilings: SubagentCeilings,
    )
        ensures
            *final(self) == old(self).with_subagent_limits(
                enabled,
                max_subagents,
                launch_concurrency,
                max_spawn_depth,
                api_timeout_secs,
                heartbeat_timeout_secs,
                ceilings,
            ),
    {
        self.config.limit_subagents(
            enabled,
            max_subagents,
            launch_concurrency,
            max_spawn_depth,
            api_timeout_secs,
            heartbeat_timeout_secs,
            ceilings,
        );
    }
}

/// A session without the last message of the user and what followed it.
pub open spec fn last_turn_cut(before: Session, after: Session) -> bool {
    match last_user(before.messages@, before.messages@.len()) {
        Some(i) => {
            &&& after.messages@ == before.messages@.take(i)
            &&& after.messages_revision == next_revision(before.messages_revision)
            &&& after.same_but_messages(before)
        },
        None => after == before,
    }
}

/// A session that was taken over. One without messages, prompt and identifier
/// gets a new identifier.
pub open spec fn taken_over(
    before: Session,
    request: SyncSession,
    project_context: Option<String>,
    after: Session,
) -> bool {
    &&& match request.session_id {
        Some(id) => after.id == id,
        None => if request.messages@.len() == 0 && request.system_prompt is None {
            is_random_id(after.id@)
        } else {
            after.id == before.id
        },
    }
    &&& opt_prompt(after.compaction_summary_prompt) == compaction_part(
        opt_prompt(request.system_prompt),
    )
    &&& after == (Session {
        id: after.id,
        messages: request.messages,
        messages_revision: next_revision(before.messages_revision),
        compaction_summary_prompt: after.compaction_summary_prompt,
        system_prompt: request.system_prompt,
        last_system_prompt_hash: Some(
            crate::engine::metadata::prompt_hash(opt_prompt(request.system_prompt)),
        ),
        system_prompt_override: request.system_prompt_override && request.system_prompt is Some,
        auto_model: means_auto(request.model@),
        model: request.model,
        workspace: request.workspace,
        project_context,
        ..before
    })
}

impl Session {
    fn take_over(&mut self, request: SyncSession, project_context: Option<String>)
        ensures
            taken_over(*old(self), request, project_context, *final(self)),
    {
        let has_prompt = request.system_prompt.is_some();
        match request.session_id {
            Some(id) => {
                self.id = id;
            },
            None => {
                if request.messages.len() == 0 && !has_prompt {
                    self.id = random_id();
                }
            },
        }
        self.replace_messages(request.messages);
        let prompt = match &request.system_prompt {
            Some(p) => Some(p.clone()),
            None => None,
        };
        self.compaction_summary_prompt = extract_compaction_summary_prompt(prompt);
        let hash = match &request.system_prompt {
            Some(p) => crate::engine::metadata::system_prompt_hash(Some(p)),
            None => crate::engine::metadata::system_prompt_hash(None),
        };
        self.system_prompt = request.system_prompt;
        self.last_system_prompt_hash = Some(hash);
        self.system_prompt_override = request.system_prompt_override && has_prompt;
        self.auto_model = is_auto(request.model.as_str());
        self.model = request.model;
        self.workspace = request.workspace;
        self.project_context = project_context;
    }
}

/// A request that changes the settings or the conversation at once.
pub open spec fn changes_settings(op: Op) -> bool {
    op is ChangeMode || op is SetModel || op is SetCompaction || op is SetStreamChunkTimeout || op
        is SetSubagentRuntimeConfig || op is EditLastTurn
}

/// What a request that changes nothing leaves to be done.
pub open spec fn passed_on(e: Engine, op: Op, step: Step) -> bool {
    match op {
        Op::SendMessage(message) => step == Step::Send(message),
        Op::RunShellCommand {
            command,
            mode,
            allow_shell,
            trust_mode,
            auto_approve,
            approval_mode,
        } => step == (Step::RunShell {
            command,
            mode,
            allow_shell,
            trust_mode,
            auto_approve,
            approval_mode,
        }),
        Op::SetGoalStatus { status, clear } => step == (Step::SetGoalStatus { status, clear }),
        Op::CancelRequest => step matches Step::Done(events) && event_views(events@) == seq![
            EventView::CancelRunning,
            EventView::CancelReset,
        ],
        Op::ApproveToolCall { id } => step matches Step::Done(events) && event_views(events@)
            == seq![EventView::Status("Approved tool call: "@ + id@)],
        Op::DenyToolCall { id } => step matches Step::Done(events) && event_views(events@)
            == seq![EventView::Status("Denied tool call: "@ + id@)],
        Op::SpawnSubAgent { prompt } => if e.client.connected is Some {
            step == (Step::SpawnSubAgent { prompt })
        } else {
            step matches Step::Done(events) && event_views(events@) == seq![
                EventView::Error(
                    FailureKind::Fatal,
                    "Failed to spawn sub-agent: "@ + (match e.client.error {
                        Some(why) => why@,
                        None => "API client not configured"@,
                    }),
                ),
            ]
        },
        Op::ListSubAgents => step is ListSubAgents,
        Op::CancelSubAgent { agent_id } => step == (Step::CancelSubAgent { agent_id }),
        Op::SyncSession(request) => step == Step::Sync(request),
        Op::CompactContext => step is Compact,
        Op::GetSessionSnapshot => step is Snapshot,
        Op::GetProviderRuntimeStatus => step is ProviderStatus,
        Op::PurgeContext => step is Purge,
        _ => step is Stop,
    }
}

/// What a request that changes the settings or the conversation does, and what
/// it leaves to be done.
pub open spec fn settings_changed(
    before: Engine,
    op: Op,
    ceilings: SubagentCeilings,
    after: Engine,
    step: Step,
) -> bool {
    match op {
        Op::ChangeMode { mode, allow_shell, trust_mode, auto_approve, approval_mode } => {
            &&& step == (Step::ModeChanged { mode })
            &&& exists|a: TurnAuthority|
                #![trigger before.with_authority(a)]
                a@ == crate::authority::authority_of(
                    mode,
                    allow_shell,
                    trust_mode,
                    auto_approve,
                    approval_mode,
                    None,
                ) && after == before.with_authority(a)
        },
        Op::SetModel { model, mode, route_limits } => step is ModelChanged && after
            == before.with_model(model, route_limits),
        Op::SetCompaction { config } => {
            &&& step matches Step::Done(events)
            &&& event_views(events@) == seq![
                EventView::Status(
                    "Auto-compaction "@ + (if config.enabled {
                        "enabled"@
                    } else {
                        "disabled"@
                    }),
                ),
            ]
            &&& after == (Engine {
                config: EngineConfig { compaction: config, ..before.config },
                ..before
            })
        },
        Op::SetStreamChunkTimeout { timeout_secs } => {
            &&& step matches Step::Done(events)
            &&& event_views(events@) == seq![
                EventView::Status(
                    "Stream chunk timeout set to "@ + decimal(timeout_secs as nat) + "s"@,
                ),
            ]
            &&& after == (Engine {
                config: EngineConfig {
                    stream_chunk_timeout_secs: timeout_secs,
                    ..before.config
                },
                ..before
            })
        },
        Op::SetSubagentRuntimeConfig {
            enabled,
            max_subagents,
            launch_concurrency,
            max_spawn_depth,
            api_timeout_secs,
            heartbeat_timeout_secs,
        } => step == (Step::SubagentLimitsChanged { enabled }) && after
            == before.with_subagent_limits(
            enabled,
            max_subagents,
            launch_concurrency,
            max_spawn_depth,
            api_timeout_secs,
            heartbeat_timeout_secs,
            ceilings,
        ),
        Op::EditLastTurn { new_message } => {
            &&& step matches Step::Send(message)
            &&& as_settings_stand(
                before,
                message,
                new_message@,
                UserInputProvenance::ExternalUser,
            )
            &&& last_turn_cut(before.session, after.session)
            &&& after == (Engine { session: after.session, ..before })
        },
        _ => false,
    }
}

fn one_event(event: Event) -> (r: Vec<Event>)
    ensures
        event_views(r@) == seq![event@],
{
    let mut events = no_events();
    tell(&mut events, event);
    assert(event_views(events@) =~= seq![event@]);
    events
}

fn one_status(text: String) -> (r: Vec<Event>)
    ensures
        event_views(r@) == seq![EventView::Status(text@)],
{
    one_event(Event::status(text))
}

fn cancel_events() -> (r: Vec<Event>)
    ensures
        event_views(r@) == seq![EventView::CancelRunning, EventView::CancelReset],
{
    let mut events = no_events();
    tell(&mut events, Event::CancelRunning);
    tell(&mut events, Event::CancelReset);
    assert(event_views(events@) =~= seq![EventView::CancelRunning, EventView::CancelReset]);
    events
}

fn spawn_failed(why: &str) -> (r: Event)
    ensures
        r@ == EventView::Error(FailureKind::Fatal, "Failed to spawn sub-agent: "@ + why@),
{
    Event::error(FailureKind::Fatal, concat("Failed to spawn sub-agent: ", why))
}

/// What is told of a sub-agent that was to be spawned.
pub fn spawn_outcome(outcome: Result<String, String>) -> (r: Event)
    ensures
        r@ == (match outcome {
            Ok(id) => EventView::Status("Spawned sub-agent "@ + id@),
            Err(why) => EventView::Error(
                FailureKind::Fatal,
                "Failed to spawn sub-agent: "@ + why@,
            ),
        }),
{
    match outcome {
        Ok(id) => Event::status(concat("Spawned sub-agent ", id.as_str())),
        Err(why) => spawn_failed(why.as_str()),
    }
}

/// What is told where a sub-agent could not be cancelled.
pub fn cancel_failed(agent_id: &str, why: &str) -> (r: Event)
    ensures
        r@ == EventView::Error(
            FailureKind::Transient,
            "Failed to cancel sub-agent "@ + agent_id@ + ": "@ + why@,
        ),
{
    let mut text = concat("Failed to cancel sub-agent ", agent_id);
    text.append(": ");
    text.append(why);
    Event::error(FailureKind::Transient, text)
}

/// What is told of the limits of sub-agents.
pub open spec fn limits_text(e: Engine, enabled: bool, applied: bool) -> Seq<char> {
    "Sub-agent runtime updated: enabled="@ + (if enabled {
        "true"@
    } else {
        "false"@
    }) + ", max_subagents="@ + decimal(e.config.max_subagents as nat) + ", launch_concurrency="@
        + decimal(e.config.launch_concurrency as nat) + ", max_depth="@ + decimal(
        e.config.max_spawn_depth as nat,
    ) + (if applied {
        ""@
    } else {
        "; launch_concurrency takes full effect after active sub-agents finish or the session restarts"@
    })
}

impl Engine {
    /// What is told after the mode has changed.
    pub fn mode_changed(&self, description: &str) -> (r: Vec<Event>)
        ensures
            event_views(r@) == seq![
                session_told(self.session),
                EventView::Status("Mode changed to: "@ + description@),
            ],
    {
        let mut events = no_events();
        tell(&mut events, Event::session_updated(&self.session));
        tell(&mut events, Event::status(concat("Mode changed to: ", description)));
        assert(event_views(events@) =~= seq![
            session_told(self.session),
            EventView::Status("Mode changed to: "@ + description@),
        ]);
        events
    }

    /// Ends a change of the model: takes the new prompt over where it differs,
    /// and tells.
    pub fn model_changed(
        &mut self,
        merged: Option<SystemPrompt>,
        gate: &Option<String>,
    ) -> (r: Vec<Event>)
        ensures
            refreshed(*old(self), opt_prompt(merged), opt_text(*gate), *final(self)),
            event_views(r@) == seq![
                session_told(final(self).session),
                EventView::Status("Model set to: "@ + old(self).session.model@),
            ],
    {
        self.refresh_system_prompt(merged, gate);
        let mut events = no_events();
        tell(&mut events, Event::session_updated(&self.session));
        tell(
            &mut events,
            Event::status(concat("Model set to: ", self.session.model.as_str())),
        );
        assert(event_views(events@) =~= seq![
            session_told(self.session),
            EventView::Status("Model set to: "@ + old(self).session.model@),
        ]);
        events
    }

    /// What is told of the limits of sub-agents. `applied` tells whether the
    /// manager could take all of them over at once.
    pub fn subagent_limits_changed(&self, enabled: bool, applied: bool) -> (r: Event)
        ensures
            r@ == EventView::Status(limits_text(*self, enabled, applied)),
    {
        let mut text = "Sub-agent runtime updated: enabled=".to_owned();
        text.append(
            if enabled {
                "true"
            } else {
                "false"
            },
        );
        text.append(", max_subagents=");
        push_usize(&mut text, self.config.max_subagents);
        text.append(", launch_concurrency=");
        push_usize(&mut text, self.config.launch_concurrency);
        text.append(", max_depth=");
        push_decimal(&mut text, self.config.max_spawn_depth as u64);
        text.append(
            if applied {
                ""
            } else {
                "; launch_concurrency takes full effect after active sub-agents finish or the session restarts"
            },
        );
        Event::status(text)
    }

    /// Takes over a session that the host kept; the part of its prompt that sums
    /// up what was cut away is found again. `project_context` is what was found
    /// for its workspace. An empty session without an identifier gets a new one.
    pub fn sync_session(
        &mut self,
        request: SyncSession,
        project_context: Option<String>,
    ) -> (r: Vec<Event>)
        ensures
            taken_over(old(self).session, request, project_context, final(self).session),
            *final(self) == (Engine {
                session: final(self).session,
                config: EngineConfig {
                    model: request.model,
                    workspace: request.workspace,
                    ..old(self).config
                },
                current_mode: request.mode,
                ..*old(self)
            }),
            event_views(r@) == seq![
                session_told(final(self).session),
                EventView::Status("Session context synced"@),
            ],
    {
        self.config.model = request.model.clone();
        self.config.workspace = request.workspace.clone();
        self.current_mode = request.mode;
        self.session.take_over(request, project_context);
        let mut events = no_events();
        tell(&mut events, Event::session_updated(&self.session));
        tell(&mut events, Event::status("Session context synced".to_owned()));
        assert(event_views(events@) =~= seq![
            session_told(self.session),
            EventView::Status("Session context synced"@),
        ]);
        events
    }

    /// The session as the host sees it. `mode` is the word for the mode.
    pub fn session_snapshot(&self, mode: &str) -> (r: SessionSnapshot)
        requires
            self.session.total_usage.input_tokens + self.session.total_usage.output_tokens
                <= u64::MAX,
        ensures
            message_views(r.messages@) == message_views(self.session.messages@),
            r.total_tokens == self.session.total_usage.input_tokens
                + self.session.total_usage.output_tokens,
            r.model@ == self.session.model@,
            r.model_provider@ == self.provider@,
            r.workspace@ == self.session.workspace@,
            opt_prompt(r.system_prompt) == opt_prompt(self.session.system_prompt),
            r.mode@ == mode@,
    {
        SessionSnapshot {
            messages: copy_messages(&self.session.messages),
            total_tokens: self.session.total_usage.input_tokens
                + self.session.total_usage.output_tokens,
            model: self.session.model.clone(),
            model_provider: self.provider.clone(),
            workspace: self.session.workspace.clone(),
            system_prompt: match &self.session.system_prompt {
                Some(p) => Some(p.clone()),
                None => None,
            },
            mode: mode.to_owned(),
        }
    }

    /// How busy the connection to the provider is. `client_limit` and `active`
    /// are what the client says of itself; `configured` and `configured_limit`
    /// stand for a client that is not there.
    pub fn provider_runtime_status(
        &self,
        client_limit: Option<usize>,
        active: usize,
        configured: &str,
        configured_limit: Option<usize>,
    ) -> (r: ProviderRuntimeStatus)
        ensures
            match self.client.connected {
                Some(p) => r.provider@ == p@ && r.request_concurrency_limit == client_limit
                    && r.active_provider_requests == active,
                None => r.provider@ == configured@ && r.request_concurrency_limit
                    == configured_limit && r.active_provider_requests == 0,
            },
    {
        match &self.client.connected {
            Some(p) => ProviderRuntimeStatus {
                provider: p.clone(),
                request_concurrency_limit: client_limit,
                active_provider_requests: active,
            },
            None => ProviderRuntimeStatus {
                provider: configured.to_owned(),
                request_concurrency_limit: configured_limit,
                active_provider_requests: 0,
            },
        }
    }

    /// What is done when sub-agents finish while the engine waits: their texts go
    /// to the model as one message.
    pub fn idle_completion(&self, completions: &Vec<String>) -> (r: (Event, SendMessage))
        ensures
            r.0@ == EventView::Status(
                "Resuming turn with "@ + decimal(completions@.len())
                    + " idle sub-agent completion(s)"@,
            ),
            as_settings_stand(
                *self,
                r.1,
                joined(texts(completions@), "\n\n"@),
                UserInputProvenance::SubAgentHandoff,
            ),
    {
        let mut text = "Resuming turn with ".to_owned();
        push_usize(&mut text, completions.len());
        text.append(" idle sub-agent completion(s)");
        let content = join(completions, "\n\n");
        (
            Event::status(text),
            self.submission(content, UserInputProvenance::SubAgentHandoff),
        )
    }
}

/// Whatever is asked for, between one sub-agent and the ceiling are allowed, and
/// no more are launched at a time than are allowed at all.
pub proof fn law_subagent_limits_hold(
    e: Engine,
    enabled: bool,
    max_subagents: usize,
    launch_concurrency: usize,
    max_spawn_depth: u32,
    api_timeout_secs: u64,
    heartbeat_timeout_secs: u64,
    ceilings: SubagentCeilings,
)
    requires
        ceilings.max_subagents >= 1,
    ensures
        ({
            let after = e.with_subagent_limits(
                enabled,
                max_subagents,
                launch_concurrency,
                max_spawn_depth,
                api_timeout_secs,
                heartbeat_timeout_secs,
                ceilings,
            );
            &&& 1 <= after.config.max_subagents <= ceilings.max_subagents
            &&& 1 <= after.config.launch_concurrency <= after.config.max_subagents
            &&& after.config.max_spawn_depth <= ceilings.max_spawn_depth
        }),
{
}

/// What is left after the last turn was cut is the beginning of the conversation
/// up to a message of the user, and no message of the user lies behind the cut.
pub proof fn law_cut_is_at_the_last_user_message(messages: Seq<Message>, n: nat)
    requires
        n <= messages.len(),
    ensures
        match last_user(messages, n) {
            Some(i) => {
                &&& 0 <= i < n
                &&& messages[i].role@ == "user"@
                &&& forall|k: int| i < k < n ==> (#[trigger] messages[k]).role@ != "user"@
            },
            None => forall|k: int| 0 <= k < n ==> (#[trigger] messages[k]).role@ != "user"@,
        },
    decreases n,
{
    if n > 0 && messages[n - 1].role@ != "user"@ {
        law_cut_is_at_the_last_user_message(messages, (n - 1) as nat);
    }
}

} // verus!
