//! A turn with a model: what comes before it, what it takes over of a message,
//! and what comes after it.

use crate::authority::{effective_input_policy, input_policy, ApprovalMode, TurnAuthority};
use crate::dispatch::should_force_update_plan_first;
use crate::engine::goal::{
    charge, goal_continuation_if_active, goal_told, goal_updated, goes_on,
    normalized_goal_objective, objective_of, record_goal_usage_for_turn, GoalSnapshot,
};
use crate::engine::metadata::{
    is_user_message, metadata_text, user_text_message, ModeTexts, TurnFacts, TurnRoute,
};
use crate::engine::prompt::refreshed;
use crate::engine::rules::{diagnostics_text, diagnostics_told, flush_diagnostics, total_in};
use crate::engine::shell::next_turn;
use crate::engine::state::{ClientState, Engine, EngineConfig, RouteLimits};
use crate::events::{
    event_views, no_events, opt_catalog, session_told, tell, turn_over_view, Event, EventView,
    FailureKind,
};
use crate::ids::is_random_id;
use crate::json::{copy_items, json_views, Json};
use crate::models::{
    no_usage, opt_prompt, AppMode, ContentBlock, Message, SystemPrompt, Tool,
};
use crate::ops::{GoalStatus, SendMessage, TurnOutcomeStatus, UserInputProvenance};
use crate::session::{next_revision, usage_after, usage_fits, Session};
use crate::text::{concat, copy_texts, opt_text, opt_texts, same_text};
use crate::turn::{post_turn_snapshot, pre_turn_snapshot, TurnContext};
use vstd::prelude::*;

verus! {

// ---------------------------------------------------------------------------
// Before the model
// ---------------------------------------------------------------------------

/// A turn that began.
#[derive(Debug)]
pub struct TurnStart {
    pub turn: TurnContext,
    pub authority: TurnAuthority,
}

/// What is told when a turn begins.
pub open spec fn begin_events(
    e: Engine,
    notice: Option<Seq<char>>,
    turn_id: Seq<char>,
    prompt: Seq<char>,
) -> Seq<EventView> {
    (match notice {
        Some(text) => seq![EventView::Status(text)],
        None => Seq::empty(),
    }) + seq![
        EventView::CancelReset,
        EventView::SteerDropped,
        EventView::TurnStarted(turn_id),
    ] + (if e.config.snapshots_enabled {
        seq![EventView::SnapshotBefore(e.turn_snapshot("pre-turn"@, prompt))]
    } else {
        Seq::empty()
    }) + seq![EventView::RetryCleared]
}

impl Engine {
    /// Begins a turn: decides what it may do, and tells. `now` is the time.
    pub fn begin_turn(&mut self, message: &SendMessage, now: u128) -> (r: (TurnStart, Vec<Event>))
        ensures
            r.0.authority@ == input_policy(
                message.provenance,
                message.mode,
                message.allow_shell,
                message.trust_mode,
                message.mode == AppMode::Yolo || message.auto_approve,
                message.approval_mode,
            ),
            is_random_id(r.0.turn.id@),
            r.0.turn == (TurnContext {
                id: r.0.turn.id,
                started_at: now,
                step: 0,
                max_steps: old(self).config.max_steps,
                tool_call_count: 0,
                cancelled: false,
                usage: no_usage(),
            }),
            *final(self) == (Engine {
                turn_counter: next_turn(old(self).turn_counter),
                ..old(self).with_authority(r.0.authority)
            }),
            event_views(r.1@) == begin_events(
                *final(self),
                r.0.authority@.status,
                r.0.turn.id@,
                message.content@,
            ),
    {
        let authority = effective_input_policy(
            message.provenance,
            message.mode,
            message.content.as_str(),
            message.allow_shell,
            message.trust_mode,
            message.mode == AppMode::Yolo || message.auto_approve,
            message.approval_mode,
        );
        let mut events = no_events();
        if let Some(text) = &authority.status {
            tell(&mut events, Event::status(text.clone()));
            assert(event_views(events@) =~= seq![EventView::Status(text@)]);
        }
        self.apply_runtime_mode_policy(&authority);
        let turn = TurnContext::new(self.config.max_steps, now);
        self.turn_counter = self.turn_counter.saturating_add(1);
        self.tell_begin(&mut events, turn.id.as_str(), message.content.as_str());
        (TurnStart { turn, authority }, events)
    }

    fn tell_begin(&self, events: &mut Vec<Event>, turn_id: &str, prompt: &str)
        ensures
            event_views(final(events)@) == event_views(old(events)@) + seq![
                EventView::CancelReset,
                EventView::SteerDropped,
                EventView::TurnStarted(turn_id@),
            ] + (if self.config.snapshots_enabled {
                seq![EventView::SnapshotBefore(self.turn_snapshot("pre-turn"@, prompt@))]
            } else {
                Seq::empty()
            }) + seq![EventView::RetryCleared],
    {
        let ghost first = event_views(events@);
        tell(events, Event::CancelReset);
        tell(events, Event::SteerDropped);
        tell(events, Event::TurnStarted { turn_id: turn_id.to_owned() });
        assert(event_views(events@) =~= first + seq![
            EventView::CancelReset,
            EventView::SteerDropped,
            EventView::TurnStarted(turn_id@),
        ]);
        let ghost second = event_views(events@);
        if self.config.snapshots_enabled {
            let request = pre_turn_snapshot(
                self.session.workspace.as_str(),
                self.turn_counter,
                self.config.snapshots_max_workspace_bytes,
                Some(prompt),
            );
            tell(events, Event::SnapshotBefore { request });
            assert(event_views(events@) =~= second + seq![
                EventView::SnapshotBefore(self.turn_snapshot("pre-turn"@, prompt@)),
            ]);
        } else {
            assert(event_views(events@) =~= second + Seq::empty());
        }
        let ghost third = event_views(events@);
        tell(events, Event::RetryCleared);
        assert(event_views(events@) =~= third + seq![EventView::RetryCleared]);
    }
}

// ---------------------------------------------------------------------------
// The route to the model
// ---------------------------------------------------------------------------

/// What a new route brings with it.
#[derive(Debug)]
pub struct RouteSetup {
    pub limits: Option<RouteLimits>,
    /// The hint for a key that only the environment holds.
    pub key_hint: Option<String>,
}

/// Why a route could not be taken.
#[derive(Debug)]
pub enum RouteFailure {
    Unresolved(String),
    Unconfigured(String),
}

/// What is told of a route that could not be taken.
pub open spec fn route_failure_text(
    provider: Seq<char>,
    model: Seq<char>,
    failure: RouteFailure,
) -> Seq<char> {
    match failure {
        RouteFailure::Unresolved(reason) => "Failed to resolve provider route "@ + provider
            + " / "@ + model + ": "@ + reason@,
        RouteFailure::Unconfigured(reason) => "Failed to configure provider route "@ + provider
            + " / "@ + model + ": "@ + reason@,
    }
}

fn route_failure_message(provider: &str, model: &str, failure: RouteFailure) -> (r: String)
    ensures
        r@ == route_failure_text(provider@, model@, failure),
{
    let (start, reason) = match failure {
        RouteFailure::Unresolved(reason) => ("Failed to resolve provider route ", reason),
        RouteFailure::Unconfigured(reason) => ("Failed to configure provider route ", reason),
    };
    let mut out = concat(start, provider);
    out.append(" / ");
    out.append(model);
    out.append(": ");
    out.append(reason.as_str());
    out
}

impl Engine {
    /// The route to a provider is the one in use.
    pub open spec fn route_in_use(self, provider: Seq<char>) -> bool {
        self.provider@ == provider && opt_text(self.client.connected) == Some(provider)
    }

    /// Whether another route has to be taken for a message: it names a provider
    /// to which the route is not in use.
    pub fn needs_route(&self, message: &SendMessage) -> (r: bool)
        ensures
            r == (match message.provider {
                Some(p) => !self.route_in_use(p@),
                None => false,
            }),
    {
        match &message.provider {
            Some(p) => {
                let connected = match &self.client.connected {
                    Some(c) => same_text(c.as_str(), p.as_str()),
                    None => false,
                };
                !(same_text(self.provider.as_str(), p.as_str()) && connected)
            },
            None => false,
        }
    }

    /// The engine on another route. What sums the context up stays where it is
    /// on.
    pub open spec fn on_route(self, provider: String, setup: RouteSetup) -> Engine {
        Engine {
            provider,
            active_route_limits: setup.limits,
            api_key_env_only_recovery: setup.key_hint,
            client: ClientState { connected: Some(provider), error: None },
            seam: match self.seam {
                Some(s) => if s.enabled {
                    Some(s)
                } else {
                    None
                },
                None => None,
            },
            ..self
        }
    }

    /// Takes another route. Where it cannot be taken the engine stays on the
    /// old one.
    pub fn activate_runtime_route(
        &mut self,
        provider: String,
        model: &str,
        route: Result<RouteSetup, RouteFailure>,
    ) -> (r: Result<(), String>)
        ensures
            match route {
                Ok(setup) => r is Ok && *final(self) == old(self).on_route(provider, setup),
                Err(failure) => {
                    &&& r matches Err(text)
                    &&& text@ == route_failure_text(provider@, model@, failure)
                    &&& *final(self) == *old(self)
                },
            },
    {
        match route {
            Ok(setup) => {
                let keep = match &self.seam {
                    Some(s) => s.enabled,
                    None => false,
                };
                if !keep {
                    self.seam = None;
                }
                self.client = ClientState { connected: Some(provider.clone()), error: None };
                self.provider = provider;
                self.active_route_limits = setup.limits;
                self.api_key_env_only_recovery = setup.key_hint;
                Ok(())
            },
            Err(failure) => Err(route_failure_message(provider.as_str(), model, failure)),
        }
    }

    /// Ends a turn for which no route could be taken.
    pub fn route_failed(&mut self, message: String) -> (r: Vec<Event>)
        ensures
            *final(self) == (Engine {
                client: ClientState { error: Some(message), ..old(self).client },
                ..*old(self)
            }),
            event_views(r@) == failed_turn(message@),
    {
        let events = fail_turn(message.as_str());
        self.client.error = Some(message);
        events
    }

    /// Ends a turn for which there is no client.
    pub fn client_missing(&self) -> (r: Option<Vec<Event>>)
        ensures
            if self.client.connected is Some {
                r is None
            } else {
                &&& r matches Some(events)
                &&& event_views(events@) == failed_turn(
                    "Failed to send message: "@ + (match self.client.error {
                        Some(e) => e@,
                        None => "API client not configured"@,
                    }),
                )
            },
    {
        if self.client.connected.is_some() {
            return None;
        }
        let why = match &self.client.error {
            Some(e) => e.as_str(),
            None => "API client not configured",
        };
        let message = concat("Failed to send message: ", why);
        Some(fail_turn(message.as_str()))
    }
}

/// What is told of a turn that failed before it reached a model.
pub open spec fn failed_turn(message: Seq<char>) -> Seq<EventView> {
    seq![
        EventView::Error(FailureKind::FatalAuth, message),
        turn_over_view(TurnOutcomeStatus::Failed, Some(message)),
    ]
}

fn fail_turn(message: &str) -> (r: Vec<Event>)
    ensures
        event_views(r@) == failed_turn(message@),
{
    let mut events = no_events();
    tell(&mut events, Event::error(FailureKind::FatalAuth, message.to_owned()));
    tell(&mut events, Event::turn_over(TurnOutcomeStatus::Failed, Some(message.to_owned())));
    assert(event_views(events@) =~= failed_turn(message@));
    events
}

// ---------------------------------------------------------------------------
// Taking over a message
// ---------------------------------------------------------------------------

/// What of a message is needed after its turn.
#[derive(Debug)]
pub struct TurnTerms {
    pub prompt: String,
    pub mode: AppMode,
    pub provider: Option<String>,
    pub reasoning_effort_auto: bool,
    pub auto_model: bool,
    pub allow_shell: bool,
    pub trust_mode: bool,
    pub auto_approve: bool,
    pub approval_mode: ApprovalMode,
    pub translation_enabled: bool,
    pub show_thinking: bool,
    pub dynamic_tools: Vec<Json>,
    /// The model has to make a plan first.
    pub force_update_plan_first: bool,
}

/// What of a message is needed after its turn, which takes place in `mode`.
pub open spec fn terms_of(t: TurnTerms, m: SendMessage, mode: AppMode) -> bool {
    &&& t.prompt@ == m.content@
    &&& t.mode == m.mode
    &&& t.provider == m.provider
    &&& t.reasoning_effort_auto == m.reasoning_effort_auto
    &&& t.auto_model == m.auto_model
    &&& t.allow_shell == m.allow_shell
    &&& t.trust_mode == m.trust_mode
    &&& t.auto_approve == m.auto_approve
    &&& t.approval_mode == m.approval_mode
    &&& t.translation_enabled == m.translation_enabled
    &&& t.show_thinking == m.show_thinking
    &&& t.dynamic_tools == m.dynamic_tools
    &&& t.force_update_plan_first == (mode == AppMode::Plan
        && crate::text::contains_any_text(
        crate::text::ascii_lower(m.content@),
        crate::dispatch::direct_plan_words(),
    ) && !crate::text::contains_any_text(
        crate::text::ascii_lower(m.content@),
        crate::dispatch::exploration_words(),
    ))
}

/// The goal that a message brings differs from the one that is set.
pub open spec fn goal_differs(c: EngineConfig, m: SendMessage) -> bool {
    objective_of(opt_text(c.goal_objective)) != objective_of(opt_text(m.goal_objective))
        || c.goal_token_budget != m.goal_token_budget || c.goal_status != m.goal_status
}

impl EngineConfig {
    /// The settings with those of a message.
    pub open spec fn with_message(self, m: SendMessage) -> EngineConfig {
        EngineConfig {
            model: m.model,
            goal_objective: m.goal_objective,
            goal_token_budget: m.goal_token_budget,
            goal_status: m.goal_status,
            allowed_tools: m.allowed_tools,
            hook_executor: m.hook_executor,
            translation_enabled: m.translation_enabled,
            show_thinking: m.show_thinking,
            verbosity: m.verbosity,
            ..self
        }
    }
}

/// What is told where a message brings another goal.
pub open spec fn goal_events(c: EngineConfig, m: SendMessage) -> Seq<EventView> {
    if goal_differs(c, m) {
        seq![
            EventView::GoalSynced {
                objective: objective_of(opt_text(m.goal_objective)),
                token_budget: m.goal_token_budget,
                status: m.goal_status,
            },
        ]
    } else {
        Seq::empty()
    }
}

fn same_objective(a: &Option<String>, b: &Option<String>) -> (r: bool)
    ensures
        r == (objective_of(opt_text(*a)) == objective_of(opt_text(*b))),
{
    let x = normalized_goal_objective(
        match a {
            Some(t) => Some(t.as_str()),
            None => None,
        },
    );
    let y = normalized_goal_objective(
        match b {
            Some(t) => Some(t.as_str()),
            None => None,
        },
    );
    match (&x, &y) {
        (Some(s), Some(t)) => same_text(s.as_str(), t.as_str()),
        (None, None) => true,
        _ => false,
    }
}

fn same_budget(a: Option<u32>, b: Option<u32>) -> (r: bool)
    ensures
        r == (a == b),
{
    match (a, b) {
        (Some(x), Some(y)) => x == y,
        (None, None) => true,
        _ => false,
    }
}

/// A session that took over a message of the user and its settings.
pub open spec fn message_taken(
    before: Session,
    m: SendMessage,
    meta: Seq<char>,
    after: Session,
) -> bool {
    &&& after.messages@.len() == before.messages@.len() + 1
    &&& after.messages@.drop_last() == before.messages@
    &&& is_user_message(after.messages@.last(), m.content, meta)
    &&& after == (Session {
        messages: after.messages,
        messages_revision: next_revision(before.messages_revision),
        model: m.model,
        reasoning_effort: m.reasoning_effort,
        reasoning_effort_auto: m.reasoning_effort_auto,
        auto_model: m.auto_model,
        ..before
    })
}

impl Engine {
    /// Takes a message over: it becomes the last message of the conversation,
    /// with what the model is told besides, and its settings become those of the
    /// engine. Where it brings another goal, the goal takes that over. `mode` is
    /// the mode in which the turn takes place.
    pub fn take_message(
        &mut self,
        message: SendMessage,
        mode: AppMode,
        facts: &TurnFacts,
        texts: &ModeTexts,
    ) -> (r: (TurnTerms, Vec<Event>))
        ensures
            terms_of(r.0, message, mode),
            message_taken(
                old(self).session,
                message,
                metadata_text(
                    *facts,
                    TurnRoute {
                        model: message.model,
                        auto_model: message.auto_model,
                        reasoning_effort: message.reasoning_effort,
                        reasoning_effort_auto: message.reasoning_effort_auto,
                    },
                    message.provenance,
                    old(self).session.total_usage,
                    *texts,
                ),
                final(self).session,
            ),
            *final(self) == (Engine {
                session: final(self).session,
                config: old(self).config.with_message(message),
                ..*old(self)
            }),
            event_views(r.1@) == goal_events(old(self).config, message),
    {
        let ghost whole = message;
        let ghost before = self.session;
        let events = self.config.goal_sync(&message);
        let force_update_plan_first = should_force_update_plan_first(
            mode,
            message.content.as_str(),
        );
        let prompt = message.content.clone();
        let route = TurnRoute {
            model: message.model.clone(),
            auto_model: message.auto_model,
            reasoning_effort: message.reasoning_effort,
            reasoning_effort_auto: message.reasoning_effort_auto,
        };
        let ghost meta = metadata_text(
            *facts,
            route,
            message.provenance,
            before.total_usage,
            *texts,
        );
        let told = user_text_message(
            message.content,
            facts,
            &route,
            message.provenance,
            &self.session.total_usage,
            texts,
        );
        self.session.take_message(
            told,
            message.model.clone(),
            route.reasoning_effort,
            message.reasoning_effort_auto,
            message.auto_model,
        );
        proof {
            assert(self.session.messages@.drop_last() =~= before.messages@);
            assert(message_taken(before, whole, meta, self.session));
        }
        self.config.take_message(
            message.model,
            message.goal_objective,
            message.goal_token_budget,
            message.goal_status,
            message.allowed_tools,
            message.hook_executor,
            message.translation_enabled,
            message.show_thinking,
            message.verbosity,
        );
        let terms = TurnTerms {
            prompt,
            mode: message.mode,
            provider: message.provider,
            reasoning_effort_auto: message.reasoning_effort_auto,
            auto_model: message.auto_model,
            allow_shell: message.allow_shell,
            trust_mode: message.trust_mode,
            auto_approve: message.auto_approve,
            approval_mode: message.approval_mode,
            translation_enabled: message.translation_enabled,
            show_thinking: message.show_thinking,
            dynamic_tools: message.dynamic_tools,
            force_update_plan_first,
        };
        (terms, events)
    }
}

/// The text that a model is told with a message under the settings of a session.
pub open spec fn told_in_session(
    facts: TurnFacts,
    session: Session,
    provenance: UserInputProvenance,
    texts: ModeTexts,
) -> Seq<char> {
    metadata_text(
        facts,
        TurnRoute {
            model: session.model,
            auto_model: session.auto_model,
            reasoning_effort: session.reasoning_effort,
            reasoning_effort_auto: session.reasoning_effort_auto,
        },
        provenance,
        session.total_usage,
        texts,
    )
}

impl Engine {
    /// A message that goes to the model in the middle of a turn.
    pub fn runtime_text_message_with_turn_metadata(
        &self,
        text: String,
        provenance: UserInputProvenance,
        facts: &TurnFacts,
        texts: &ModeTexts,
    ) -> (r: Message)
        ensures
            is_user_message(r, text, told_in_session(*facts, self.session, provenance, *texts)),
    {
        let route = TurnRoute {
            model: self.session.model.clone(),
            auto_model: self.session.auto_model,
            reasoning_effort: self.session.reasoning_effort.clone(),
            reasoning_effort_auto: self.session.reasoning_effort_auto,
        };
        user_text_message(text, facts, &route, provenance, &self.session.total_usage, texts)
    }

    /// A message of the user that goes to the model in the middle of a turn.
    pub fn user_text_message_with_turn_metadata(
        &self,
        text: String,
        facts: &TurnFacts,
        texts: &ModeTexts,
    ) -> (r: Message)
        ensures
            is_user_message(
                r,
                text,
                told_in_session(
                    *facts,
                    self.session,
                    UserInputProvenance::ExternalUser,
                    *texts,
                ),
            ),
    {
        self.runtime_text_message_with_turn_metadata(
            text,
            UserInputProvenance::ExternalUser,
            facts,
            texts,
        )
    }
}

/// A session that took over a message in the middle of a turn: it says `text`,
/// and what is told besides.
pub open spec fn message_added(
    before: Session,
    text: Seq<char>,
    meta: Seq<char>,
    after: Session,
) -> bool {
    let added = after.messages@.last();
    &&& after.messages@.len() == before.messages@.len() + 1
    &&& after.messages@.drop_last() == before.messages@
    &&& after.messages_revision == next_revision(before.messages_revision)
    &&& after.same_but_messages(before)
    &&& added.role@ == "user"@
    &&& added.content@.len() == 2
    &&& added.content@[0] matches ContentBlock::Text { text: said, cache_control: None }
    &&& said@ == text
    &&& added.content@[1] matches ContentBlock::Text { text: told, cache_control: None }
    &&& told@ == meta
}

impl Engine {
    /// Takes the prompt for a turn over where it differs from the last one, and
    /// tells that the session changed.
    pub fn prompt_for_turn(
        &mut self,
        merged: Option<SystemPrompt>,
        gate: &Option<String>,
    ) -> (r: Vec<Event>)
        ensures
            refreshed(*old(self), opt_prompt(merged), opt_text(*gate), *final(self)),
            event_views(r@) == seq![session_told(final(self).session)],
    {
        self.refresh_system_prompt(merged, gate);
        let mut events = no_events();
        tell(&mut events, Event::session_updated(&self.session));
        assert(event_views(events@) =~= seq![session_told(self.session)]);
        events
    }

    /// Puts the diagnostics that are kept before the model, as a message of their
    /// own, and tells. Nothing is put where no block says anything.
    pub fn flush_pending_lsp_diagnostics(
        &mut self,
        facts: &TurnFacts,
        texts: &ModeTexts,
    ) -> (r: Vec<Event>)
        requires
            total_in(old(self).pending_lsp_blocks@, old(self).pending_lsp_blocks@.len())
                <= usize::MAX,
        ensures
            final(self).pending_lsp_blocks@.len() == 0,
            *final(self) == (Engine {
                session: final(self).session,
                pending_lsp_blocks: final(self).pending_lsp_blocks,
                ..*old(self)
            }),
            ({
                let blocks = old(self).pending_lsp_blocks@;
                if diagnostics_text(blocks).len() > 0 {
                    &&& message_added(
                        old(self).session,
                        diagnostics_text(blocks),
                        told_in_session(
                            *facts,
                            old(self).session,
                            UserInputProvenance::Runtime,
                            *texts,
                        ),
                        final(self).session,
                    )
                    &&& event_views(r@) == seq![
                        session_told(final(self).session),
                        diagnostics_told(blocks),
                    ]
                } else {
                    &&& final(self).session == old(self).session
                    &&& event_views(r@) == Seq::<EventView>::empty()
                }
            }),
    {
        let ghost before = self.session;
        let ghost blocks = self.pending_lsp_blocks@;
        let mut events = no_events();
        if let Some((text, event)) = flush_diagnostics(&mut self.pending_lsp_blocks) {
            let message = self.runtime_text_message_with_turn_metadata(
                text,
                UserInputProvenance::Runtime,
                facts,
                texts,
            );
            self.session.add_message(message);
            assert(self.session.messages@.drop_last() =~= before.messages@);
            tell(&mut events, Event::session_updated(&self.session));
            tell(&mut events, event);
            assert(event_views(events@) =~= seq![
                session_told(self.session),
                diagnostics_told(blocks),
            ]);
        }
        events
    }
}

impl Session {
    fn take_message(
        &mut self,
        told: Message,
        model: String,
        reasoning_effort: Option<String>,
        reasoning_effort_auto: bool,
        auto_model: bool,
    )
        ensures
            final(self).messages@ == old(self).messages@.push(told),
            *final(self) == (Session {
                messages: final(self).messages,
                messages_revision: next_revision(old(self).messages_revision),
                model,
                reasoning_effort,
                reasoning_effort_auto,
                auto_model,
                ..*old(self)
            }),
    {
        self.add_message(told);
        self.model = model;
        self.reasoning_effort = reasoning_effort;
        self.reasoning_effort_auto = reasoning_effort_auto;
        self.auto_model = auto_model;
    }
}

impl EngineConfig {
    fn goal_sync(&self, message: &SendMessage) -> (r: Vec<Event>)
        ensures
            event_views(r@) == goal_events(*self, *message),
    {
        let mut events = no_events();
        let differs = !same_objective(&self.goal_objective, &message.goal_objective)
            || !same_budget(self.goal_token_budget, message.goal_token_budget)
            || self.goal_status != message.goal_status;
        if differs {
            let objective = normalized_goal_objective(
                match &message.goal_objective {
                    Some(t) => Some(t.as_str()),
                    None => None,
                },
            );
            let ghost synced = EventView::GoalSynced {
                objective: opt_text(objective),
                token_budget: message.goal_token_budget,
                status: message.goal_status,
            };
            tell(
                &mut events,
                Event::GoalSynced {
                    objective,
                    token_budget: message.goal_token_budget,
                    status: message.goal_status,
                },
            );
            assert(event_views(events@) =~= seq![synced]);
        }
        events
    }

    fn take_message(
        &mut self,
        model: String,
        goal_objective: Option<String>,
        goal_token_budget: Option<u32>,
        goal_status: GoalStatus,
        allowed_tools: Option<Vec<String>>,
        hook_executor: Option<u64>,
        translation_enabled: bool,
        show_thinking: bool,
        verbosity: Option<String>,
    )
        ensures
            *final(self) == (EngineConfig {
                model,
                goal_objective,
                goal_token_budget,
                goal_status,
                allowed_tools,
                hook_executor,
                translation_enabled,
                show_thinking,
                verbosity,
                ..*old(self)
            }),
    {
        self.model = model;
        self.goal_objective = goal_objective;
        self.goal_token_budget = goal_token_budget;
        self.goal_status = goal_status;
        self.allowed_tools = allowed_tools;
        self.hook_executor = hook_executor;
        self.translation_enabled = translation_enabled;
        self.show_thinking = show_thinking;
        self.verbosity = verbosity;
    }
}

// ---------------------------------------------------------------------------
// After the model
// ---------------------------------------------------------------------------

/// How a turn with a model ended.
#[derive(Debug)]
pub enum TurnOutcome {
    Ended { status: TurnOutcomeStatus, error: Option<String> },
    /// It broke off inside the program.
    Broken { detail: String },
}

/// What is told of a turn that broke off inside the program.
pub open spec fn broken_text(detail: Seq<char>) -> Seq<char> {
    "The engine hit an internal error and stopped this turn: "@ + detail
        + ". Your session is intact — send your message again to retry. A crash report was saved to ~/.codewhale/crashes/."@
}

/// How a turn ended, and its error.
pub open spec fn outcome_of(outcome: TurnOutcome) -> (TurnOutcomeStatus, Option<Seq<char>>) {
    match outcome {
        TurnOutcome::Ended { status, error } => (status, opt_text(error)),
        TurnOutcome::Broken { detail } => (
            TurnOutcomeStatus::Failed,
            Some(broken_text(detail@)),
        ),
    }
}

fn settle(outcome: TurnOutcome) -> (r: (TurnOutcomeStatus, Option<String>))
    ensures
        (r.0, opt_text(r.1)) == outcome_of(outcome),
{
    match outcome {
        TurnOutcome::Ended { status, error } => (status, error),
        TurnOutcome::Broken { detail } => {
            let mut text = concat(
                "The engine hit an internal error and stopped this turn: ",
                detail.as_str(),
            );
            text.append(
                ". Your session is intact — send your message again to retry. A crash report was saved to ~/.codewhale/crashes/.",
            );
            (TurnOutcomeStatus::Failed, Some(text))
        },
    }
}

/// How long a turn took.
pub open spec fn elapsed_of(turn: TurnContext, now: u128) -> u128 {
    if now >= turn.started_at {
        (now - turn.started_at) as u128
    } else {
        0
    }
}

/// What a turn charges the goal with.
pub open spec fn charge_events(turn: TurnContext, now: u128) -> Seq<EventView> {
    match charge(turn.usage, elapsed_of(turn, now)) {
        Some((tokens, seconds)) => seq![EventView::GoalCharged { tokens, seconds }],
        None => Seq::empty(),
    }
}

/// What is told at the end of a turn: the goal, the end, and the snapshot that
/// is to be taken.
pub open spec fn end_events(
    e: Engine,
    goal: Option<GoalSnapshot>,
    end: EventView,
    prompt: Seq<char>,
) -> Seq<EventView> {
    goal_told(goal) + seq![end] + (if e.config.snapshots_enabled {
        seq![EventView::SnapshotAfter(e.turn_snapshot("post-turn"@, prompt))]
    } else {
        Seq::empty()
    })
}

impl Engine {
    /// Counts what a turn with a model used, and charges the goal with it. `now`
    /// is the time.
    pub fn count_turn(&mut self, turn: &TurnContext, now: u128) -> (r: Vec<Event>)
        requires
            usage_fits(old(self).session.total_usage, turn.usage),
            elapsed_of(*turn, now) / 1_000_000_000 <= u64::MAX,
        ensures
            *final(self) == (Engine {
                session: Session {
                    total_usage: usage_after(old(self).session.total_usage, turn.usage),
                    ..old(self).session
                },
                ..*old(self)
            }),
            event_views(r@) == charge_events(*turn, now),
    {
        self.session.total_usage.add(&turn.usage);
        let mut events = no_events();
        let charged = record_goal_usage_for_turn(&turn.usage, turn.elapsed(now));
        if let Some((tokens, seconds)) = charged {
            tell(&mut events, Event::GoalCharged { tokens, seconds });
            assert(event_views(events@) =~= seq![EventView::GoalCharged { tokens, seconds }]);
        }
        events
    }

    /// Tells that a turn with a model has ended. `goal` is the goal after it was
    /// charged, where its state can be read.
    pub fn finish_turn(
        &self,
        turn: TurnContext,
        outcome: TurnOutcome,
        goal: Option<GoalSnapshot>,
        tool_catalog: Option<Vec<Tool>>,
        base_url: Option<String>,
        terms: &TurnTerms,
    ) -> (r: (TurnOutcomeStatus, Vec<Event>))
        ensures
            r.0 == outcome_of(outcome).0,
            event_views(r.1@) == end_events(
                *self,
                goal,
                EventView::TurnComplete {
                    usage: turn.usage,
                    status: outcome_of(outcome).0,
                    error: outcome_of(outcome).1,
                    tool_catalog: opt_catalog(tool_catalog),
                    base_url: opt_text(base_url),
                },
                terms.prompt@,
            ),
    {
        let (status, error) = settle(outcome);
        let mut events = goal_updated(goal);
        let ghost first = event_views(events@);
        let ghost end = EventView::TurnComplete {
            usage: turn.usage,
            status,
            error: opt_text(error),
            tool_catalog: opt_catalog(tool_catalog),
            base_url: opt_text(base_url),
        };
        tell(
            &mut events,
            Event::TurnComplete { usage: turn.usage, status, error, tool_catalog, base_url },
        );
        assert(event_views(events@) =~= first + seq![end]);
        let ghost second = event_views(events@);
        if self.config.snapshots_enabled {
            let request = post_turn_snapshot(
                self.session.workspace.as_str(),
                self.turn_counter,
                self.config.snapshots_max_workspace_bytes,
                Some(terms.prompt.as_str()),
            );
            tell(&mut events, Event::SnapshotAfter { request });
            assert(event_views(events@) =~= second + seq![
                EventView::SnapshotAfter(self.turn_snapshot("post-turn"@, terms.prompt@)),
            ]);
        } else {
            assert(event_views(events@) =~= second + Seq::empty());
        }
        (status, events)
    }

    /// The message by which work on a goal goes on, where it does: after a turn
    /// that was completed, while the goal is active and its budget lasts. `text`
    /// is what the model is told.
    pub fn goal_continuation(
        &self,
        status: TurnOutcomeStatus,
        goal: &GoalSnapshot,
        terms: &TurnTerms,
        text: String,
    ) -> (r: Option<SendMessage>)
        ensures
            r is Some <==> status == TurnOutcomeStatus::Completed && goes_on(*goal),
            r matches Some(m) ==> continues(*self, *terms, text@, m),
    {
        if status != TurnOutcomeStatus::Completed || !goal_continuation_if_active(goal) {
            return None;
        }
        Some(
            SendMessage {
                content: text,
                mode: terms.mode,
                provider: terms.provider.clone(),
                model: self.session.model.clone(),
                goal_objective: None,
                goal_token_budget: None,
                goal_status: GoalStatus::Active,
                reasoning_effort: self.session.reasoning_effort.clone(),
                reasoning_effort_auto: terms.reasoning_effort_auto,
                auto_model: terms.auto_model,
                allow_shell: terms.allow_shell,
                trust_mode: terms.trust_mode,
                auto_approve: terms.auto_approve,
                approval_mode: terms.approval_mode,
                translation_enabled: terms.translation_enabled,
                show_thinking: terms.show_thinking,
                allowed_tools: match &self.config.allowed_tools {
                    Some(v) => Some(copy_texts(v)),
                    None => None,
                },
                dynamic_tools: copy_items(&terms.dynamic_tools),
                hook_executor: self.config.hook_executor,
                verbosity: self.config.verbosity.clone(),
                provenance: UserInputProvenance::Runtime,
            },
        )
    }
}

/// The message by which work on a goal goes on: under the terms of the last turn
/// and the settings as they stand, without a goal of its own.
pub open spec fn continues(e: Engine, t: TurnTerms, text: Seq<char>, m: SendMessage) -> bool {
    &&& m.content@ == text
    &&& m.mode == t.mode
    &&& opt_text(m.provider) == opt_text(t.provider)
    &&& m.model@ == e.session.model@
    &&& m.goal_objective is None
    &&& m.goal_token_budget is None
    &&& m.goal_status == GoalStatus::Active
    &&& opt_text(m.reasoning_effort) == opt_text(e.session.reasoning_effort)
    &&& m.reasoning_effort_auto == t.reasoning_effort_auto
    &&& m.auto_model == t.auto_model
    &&& m.allow_shell == t.allow_shell
    &&& m.trust_mode == t.trust_mode
    &&& m.auto_approve == t.auto_approve
    &&& m.approval_mode == t.approval_mode
    &&& m.translation_enabled == t.translation_enabled
    &&& m.show_thinking == t.show_thinking
    &&& opt_texts(m.allowed_tools) == opt_texts(e.config.allowed_tools)
    &&& json_views(m.dynamic_tools@) == json_views(t.dynamic_tools@)
    &&& m.hook_executor == e.config.hook_executor
    &&& opt_text(m.verbosity) == opt_text(e.config.verbosity)
    &&& m.provenance == UserInputProvenance::Runtime
}

/// A route that was taken is in use.
pub proof fn law_taken_route_is_in_use(e: Engine, provider: String, setup: RouteSetup)
    ensures
        e.on_route(provider, setup).route_in_use(provider@),
{
}

} // verus!
