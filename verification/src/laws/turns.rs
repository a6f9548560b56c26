//! What an engine does with the requests and turns it gets.

use crate::authority::TurnAuthority;
use crate::context::compaction_part;
use crate::deepseek_theme::{PaletteMode, Theme, ToolStatus, Variant};
use crate::engine::compaction::{
    completed_text, drop_step, estimates, purged_text, CompactionResult,
};
use crate::engine::execution::{
    code_execution_view, entry_json, entry_of, error_kind, first_refusal, parallel_refusal,
    results_json, route_of, CallFacts, CallOutcome, EntryView, ToolRoute,
};
use crate::engine::goal::{
    charge, goes_on, objective_of, progress_of, prompt_objective, status_word, GoalSnapshot,
};
use crate::engine::mailbox::{send_permitted, MailboxKind};
use crate::engine::prompt::{refreshed, summary_text, with_gate};
use crate::engine::recovery::{
    forced_config, has_recovered, not_recovered_text, recovered_text, recovery_events,
    seam_done_text, seam_failed_text, seam_started_text, Recovery, SeamWay,
};
use crate::engine::rules::{diagnostics_told, total_in};
use crate::engine::requests::{
    as_settings_stand, clamped, last_turn_cut, passed_on, settings_changed, taken_over,
    Step, SubagentCeilings,
};
use crate::engine::state::{decorated, seam_of, CompactionConfig, Engine, SeamConfig, SeamSettings};
use crate::engine::turns::{
    begin_events, charge_events, continues, elapsed_of, end_events, goal_events,
    message_added, message_taken, outcome_of, RouteSetup, TurnOutcome, TurnTerms,
};
use crate::events::{session_told, EventView};
use crate::goal_loop::{
    continuation, ContinuationDecision, GoalBudget, GoalProgress, GoalRunStatus, StopReason,
};
use crate::json::{law_first_member_is_found, law_single_members_are_read, JsonView};
use crate::laws::results::lemma_holds_between;
use crate::laws::search::holds;
use crate::models::{opt_prompt, AppMode, ContentBlock, Message, PromptView, ToolErrorView, Usage};
use crate::lsp::diagnostics::DiagnosticBlock;
use crate::ops::{GoalStatus, Op, SendMessage, SyncSession, TurnOutcomeStatus, UserInputProvenance};
use crate::session::{usage_after, usage_fits, Session, SessionUsage};
use crate::text::{contains_text, decimal, opt_text, trimmed};
use crate::token_estimate_cache::CacheView;
use crate::turn::{added, snapshot_label, turn_usage_after, TurnContext};
use vstd::prelude::*;

verus! {

// ---------------------------------------------------------------------------
// Turns
// ---------------------------------------------------------------------------

/// A turn's permissions become those of the session, and nothing else changes; a turn
/// with consent given beforehand asks nothing.
pub proof fn law_permissions_are_taken_over(e: Engine, a: TurnAuthority)
    ensures
        ({
            let after = e.with_authority(a);
            &&& after.current_mode == a.mode
            &&& after.session.allow_shell == a.allow_shell
            &&& after.session.trust_mode == a.trust_mode
            &&& after.session.auto_approve == a.auto_approve
            &&& after.config.allow_shell == a.allow_shell
            &&& after.config.trust_mode == a.trust_mode
            &&& !a.auto_approve ==> after.session.approval_mode == a.approval_mode
            &&& after.session.messages == e.session.messages
            &&& after.session.model == e.session.model
            &&& after.session.workspace == e.session.workspace
            &&& after.session.total_usage == e.session.total_usage
            &&& after.session.system_prompt == e.session.system_prompt
            &&& after.provider == e.provider
            &&& after.turn_counter == e.turn_counter
            &&& after.config.model == e.config.model
            &&& after.config.features == e.config.features
        }),
{
}

/// The message of a turn is added at the end, as the user's, in their words; the
/// messages before it stay, and the model and effort are those of the turn.
pub proof fn law_messages_are_added(before: Session, m: SendMessage, meta: Seq<char>, after: Session)
    requires
        message_taken(before, m, meta, after),
    ensures
        after.messages@.len() == before.messages@.len() + 1,
        forall|i: int|
            0 <= i < before.messages@.len() ==> #[trigger] after.messages@[i] == before.messages@[i],
        after.messages@.last().role@ == "user"@,
        after.messages@.last().content@.len() == 2,
        after.messages@.last().content@[0] matches ContentBlock::Text { text, .. } && text
            == m.content,
        after.messages@.last().content@[1] matches ContentBlock::Text { text, .. } && text@ == meta,
        after.model == m.model,
        after.reasoning_effort == m.reasoning_effort,
        after.auto_model == m.auto_model,
        after.id == before.id,
        after.total_usage == before.total_usage,
        after.approval_mode == before.approval_mode,
        before.messages_revision < u64::MAX ==> after.messages_revision
            == before.messages_revision + 1,
{
    assert forall|i: int| 0 <= i < before.messages@.len() implies #[trigger] after.messages@[i]
        == before.messages@[i] by {
        assert(after.messages@.drop_last()[i] == after.messages@[i]);
    }
}

/// What is said to a model in between is added at the end too, and changes nothing
/// else.
pub proof fn law_notes_are_added(before: Session, text: Seq<char>, meta: Seq<char>, after: Session)
    requires
        message_added(before, text, meta, after),
    ensures
        after.messages@.len() == before.messages@.len() + 1,
        forall|i: int|
            0 <= i < before.messages@.len() ==> #[trigger] after.messages@[i] == before.messages@[i],
        after.messages@.last().role@ == "user"@,
        after.messages@.last().content@[0] matches ContentBlock::Text { text: said, .. } && said@
            == text,
        after.model == before.model,
        after.system_prompt == before.system_prompt,
{
    assert forall|i: int| 0 <= i < before.messages@.len() implies #[trigger] after.messages@[i]
        == before.messages@[i] by {
        assert(after.messages@.drop_last()[i] == after.messages@[i]);
    }
}

/// A message brings the settings of its turn; those that it does not speak of stay.
pub proof fn law_messages_bring_settings(e: Engine, m: SendMessage)
    ensures
        ({
            let c = e.config.with_message(m);
            &&& c.model == m.model
            &&& c.goal_objective == m.goal_objective
            &&& c.goal_token_budget == m.goal_token_budget
            &&& c.goal_status == m.goal_status
            &&& c.allowed_tools == m.allowed_tools
            &&& c.hook_executor == m.hook_executor
            &&& c.translation_enabled == m.translation_enabled
            &&& c.show_thinking == m.show_thinking
            &&& c.verbosity == m.verbosity
            &&& c.disallowed_tools == e.config.disallowed_tools
            &&& c.features == e.config.features
            &&& c.compaction == e.config.compaction
            &&& c.max_subagents == e.config.max_subagents
            &&& c.allow_shell == e.config.allow_shell
            &&& c.max_steps == e.config.max_steps
        }),
{
}

/// A goal is told of exactly where its text, its budget or its state is another than
/// before.
pub proof fn law_changed_goals_are_told(e: Engine, m: SendMessage)
    ensures
        objective_of(opt_text(e.config.goal_objective)) == objective_of(opt_text(m.goal_objective))
            && e.config.goal_token_budget == m.goal_token_budget && e.config.goal_status
            == m.goal_status ==> goal_events(e.config, m).len() == 0,
        e.config.goal_token_budget != m.goal_token_budget || e.config.goal_status != m.goal_status
            || objective_of(opt_text(e.config.goal_objective)) != objective_of(
            opt_text(m.goal_objective),
        ) ==> goal_events(e.config, m).len() == 1 && goal_events(e.config, m)[0]
            == (EventView::GoalSynced {
            objective: objective_of(opt_text(m.goal_objective)),
            token_budget: m.goal_token_budget,
            status: m.goal_status,
        }),
{
}

/// A turn is told to have started once, after what was cancelled before is forgotten;
/// a notice comes first.
pub proof fn law_turns_are_told_to_start(
    e: Engine,
    notice: Option<Seq<char>>,
    turn_id: Seq<char>,
    prompt: Seq<char>,
)
    ensures
        ({
            let told = begin_events(e, notice, turn_id, prompt);
            let k: int = if notice is Some {
                1
            } else {
                0
            };
            &&& notice matches Some(text) ==> told[0] == EventView::Status(text)
            &&& told[k] == EventView::CancelReset
            &&& told[k + 2] == EventView::TurnStarted(turn_id)
            &&& told.last() == EventView::RetryCleared
            &&& e.config.snapshots_enabled ==> told.len() == k + 5 && told[k + 3]
                is SnapshotBefore
            &&& !e.config.snapshots_enabled ==> told.len() == k + 4
        }),
{
}

/// A turn that broke off failed, and the user is told why; one that ended, ended as it
/// says.
pub proof fn law_outcomes_are_told(
    status: TurnOutcomeStatus,
    error: Option<String>,
    detail: String,
)
    ensures
        outcome_of(TurnOutcome::Ended { status, error }) == (status, opt_text(error)),
        outcome_of(TurnOutcome::Broken { detail }).0 == TurnOutcomeStatus::Failed,
        outcome_of(TurnOutcome::Broken { detail }).1 matches Some(text) && holds(text, detail@),
{
    lemma_holds_between(
        "The engine hit an internal error and stopped this turn: "@,
        detail@,
        ". Your session is intact — send your message again to retry. A crash report was saved to ~/.codewhale/crashes/."@,
    );
}

/// The last things told of a turn are that it is over and, where they are kept, the
/// files as they are.
pub proof fn law_turns_are_told_to_end(
    e: Engine,
    goal: Option<GoalSnapshot>,
    end: EventView,
    prompt: Seq<char>,
)
    ensures
        ({
            let told = end_events(e, goal, end, prompt);
            &&& told.contains(end)
            &&& !e.config.snapshots_enabled ==> told.last() == end
            &&& e.config.snapshots_enabled ==> told.last() is SnapshotAfter && told[told.len() - 2]
                == end
        }),
{
    let told = end_events(e, goal, end, prompt);
    if e.config.snapshots_enabled {
        assert(told[told.len() - 2] == end);
    } else {
        assert(told[told.len() - 1] == end);
    }
}

/// A goal is charged with the tokens that a turn read and wrote and the whole seconds
/// it took; a turn of neither is not charged.
pub proof fn law_goals_are_charged(turn: TurnContext, now: u128)
    requires
        now >= turn.started_at,
        (now - turn.started_at) / 1_000_000_000 <= u64::MAX,
    ensures
        elapsed_of(turn, now) == now - turn.started_at,
        match charge(turn.usage, elapsed_of(turn, now)) {
            Some((tokens, seconds)) => {
                &&& tokens == turn.usage.input_tokens + turn.usage.output_tokens
                &&& seconds * 1_000_000_000 <= now - turn.started_at
                &&& now - turn.started_at < (seconds + 1) * 1_000_000_000
                &&& tokens > 0 || seconds > 0
                &&& charge_events(turn, now).len() == 1
            },
            None => {
                &&& turn.usage.input_tokens == 0 && turn.usage.output_tokens == 0
                &&& now - turn.started_at < 1_000_000_000
                &&& charge_events(turn, now).len() == 0
            },
        },
{
}

/// Work on a goal goes on with the permissions, the mode and the model of the turn
/// before it, as input of the runtime.
pub proof fn law_work_goes_on_as_before(e: Engine, t: TurnTerms, text: Seq<char>, m: SendMessage)
    requires
        continues(e, t, text, m),
    ensures
        m.content@ == text,
        m.mode == t.mode,
        m.model@ == e.session.model@,
        m.allow_shell == t.allow_shell,
        m.trust_mode == t.trust_mode,
        m.auto_approve == t.auto_approve,
        m.approval_mode == t.approval_mode,
        m.provenance == UserInputProvenance::Runtime,
        opt_text(m.provider) == opt_text(t.provider),
{
}

/// A route that is taken is the provider's, with its limits and without the errors of
/// another; the conversation stays.
pub proof fn law_routes_keep_the_session(e: Engine, provider: String, setup: RouteSetup)
    ensures
        ({
            let after = e.on_route(provider, setup);
            &&& after.provider == provider
            &&& after.active_route_limits == setup.limits
            &&& after.api_key_env_only_recovery == setup.key_hint
            &&& after.client.connected == Some(provider)
            &&& after.client.error is None
            &&& after.session == e.session
            &&& after.config == e.config
            &&& after.current_mode == e.current_mode
            &&& after.seam is Some <==> (e.seam matches Some(s) && s.enabled)
        }),
{
}

// ---------------------------------------------------------------------------
// Requests
// ---------------------------------------------------------------------------

/// Limits within their bounds are taken as they are; others are moved to the nearest.
pub proof fn law_limits_are_moved_inside(n: usize, low: usize, high: usize)
    requires
        low <= high,
    ensures
        low <= clamped(n, low, high) <= high,
        low <= n <= high ==> clamped(n, low, high) == n,
        n < low ==> clamped(n, low, high) == low,
        n > high ==> clamped(n, low, high) == high,
{
}

/// Sub-agents get the limits that were asked for, where those are allowed.
pub proof fn law_allowed_limits_are_set(
    e: Engine,
    enabled: bool,
    max_subagents: usize,
    launch_concurrency: usize,
    max_spawn_depth: u32,
    api_timeout_secs: u64,
    heartbeat_timeout_secs: u64,
    ceilings: SubagentCeilings,
)
    requires
        1 <= launch_concurrency <= max_subagents <= ceilings.max_subagents,
        max_spawn_depth <= ceilings.max_spawn_depth,
    ensures
        ({
            let after = e.with_subagent_limits(
                enabled,
                max_subagents,
                launch_concurrency,
                max_spawn_depth,
                api_timeout_secs,
                heartbeat_timeout_secs,
                ceilings,
            );
            &&& after.config.subagents_enabled == enabled
            &&& after.config.max_subagents == max_subagents
            &&& after.config.launch_concurrency == launch_concurrency
            &&& after.config.max_spawn_depth == max_spawn_depth
            &&& after.config.subagent_api_timeout_secs == api_timeout_secs
            &&& after.config.subagent_heartbeat_timeout_secs == heartbeat_timeout_secs
            &&& after.session == e.session
            &&& after.config.model == e.config.model
        }),
{
}

/// A model is set for the session and for later turns; it is left to the program
/// exactly where it says so.
pub proof fn law_models_are_set(
    e: Engine,
    model: String,
    limits: Option<crate::engine::state::RouteLimits>,
)
    ensures
        ({
            let after = e.with_model(model, limits);
            &&& after.session.model == model
            &&& after.config.model == model
            &&& after.active_route_limits == limits
            &&& after.session.messages == e.session.messages
            &&& after.provider == e.provider
            &&& model@ == "auto"@ ==> after.session.auto_model
        }),
{
    if model@ == "auto"@ {
        reveal_strlit("auto");
        let s = model@;
        assert(crate::text::trim_front(s) == s);
        assert(crate::text::trim_back(s) == s);
        assert(crate::text::ascii_lower(s) =~= s);
    }
}

/// A turn that is edited is taken back from the user's last message on: what stood
/// before that stays, and neither it nor anything behind it does.
pub proof fn law_edits_take_the_last_turn_back(before: Session, after: Session, i: int)
    requires
        last_turn_cut(before, after),
        0 <= i < before.messages@.len(),
        before.messages@[i].role@ == "user"@,
        forall|k: int|
            i < k < before.messages@.len() ==> (#[trigger] before.messages@[k]).role@ != "user"@,
    ensures
        after.messages@.len() == i,
        forall|k: int| 0 <= k < i ==> #[trigger] after.messages@[k] == before.messages@[k],
        after.model == before.model,
        after.id == before.id,
        after.system_prompt == before.system_prompt,
{
    crate::engine::requests::law_cut_is_at_the_last_user_message(
        before.messages@,
        before.messages@.len(),
    );
}

/// A message that is sent anew goes with the settings as they stand.
pub proof fn law_settings_stand(
    e: Engine,
    s: SendMessage,
    content: Seq<char>,
    provenance: UserInputProvenance,
)
    requires
        as_settings_stand(e, s, content, provenance),
    ensures
        s.content@ == content,
        s.mode == e.current_mode,
        s.model@ == e.session.model@,
        s.allow_shell == e.session.allow_shell,
        s.trust_mode == e.session.trust_mode,
        s.auto_approve == e.session.auto_approve,
        s.approval_mode == e.session.approval_mode,
        s.provenance == provenance,
{
}

/// A session that is taken over has the messages, the prompt, the model and the
/// workspace that it is given; a new one gets a name of its own, another keeps its
/// name unless one is given.
pub proof fn law_sessions_are_taken_over(
    before: Session,
    request: SyncSession,
    project_context: Option<String>,
    after: Session,
)
    requires
        taken_over(before, request, project_context, after),
    ensures
        after.messages == request.messages,
        after.system_prompt == request.system_prompt,
        after.model == request.model,
        after.workspace == request.workspace,
        request.session_id matches Some(id) ==> after.id == id,
        request.session_id is None && request.messages@.len() > 0 ==> after.id == before.id,
        opt_prompt(after.compaction_summary_prompt) == compaction_part(
            opt_prompt(request.system_prompt),
        ),
        after.total_usage == before.total_usage,
        after.allow_shell == before.allow_shell,
        after.approval_mode == before.approval_mode,
        request.system_prompt is None ==> !after.system_prompt_override,
        before.messages_revision < u64::MAX ==> after.messages_revision
            == before.messages_revision + 1,
{
}

/// Requests are handed to the parts that carry them out, with what they hold.
pub proof fn law_requests_are_handed_on(e: Engine, op: Op, step: Step)
    requires
        passed_on(e, op, step),
    ensures
        op matches Op::SendMessage(message) ==> step == Step::Send(message),
        op matches Op::RunShellCommand {
            command,
            mode,
            allow_shell,
            trust_mode,
            auto_approve,
            approval_mode,
        } ==> (step matches Step::RunShell {
            command: c,
            mode: m,
            allow_shell: s,
            trust_mode: t,
            auto_approve: a,
            approval_mode: p,
        } && c == command && m == mode && s == allow_shell && t == trust_mode && a == auto_approve
            && p == approval_mode),
        op matches Op::CancelSubAgent { agent_id } ==> (step matches Step::CancelSubAgent {
            agent_id: a,
        } && a == agent_id),
        op matches Op::SyncSession(request) ==> step == Step::Sync(request),
        op is CompactContext ==> step is Compact,
        op is PurgeContext ==> step is Purge,
        op is Shutdown ==> step is Stop,
{
}

/// A change of settings changes what it names and leaves the conversation.
pub proof fn law_settings_are_changed(
    before: Engine,
    op: Op,
    ceilings: SubagentCeilings,
    after: Engine,
    step: Step,
)
    requires
        settings_changed(before, op, ceilings, after, step),
    ensures
        op matches Op::ChangeMode { mode, allow_shell, trust_mode, auto_approve, approval_mode }
            ==> after.current_mode == mode && after.session.allow_shell == allow_shell
            && after.session.trust_mode == trust_mode && after.session.auto_approve == auto_approve
            && (!auto_approve ==> after.session.approval_mode == approval_mode)
            && after.session.messages == before.session.messages,
        op matches Op::SetModel { model, .. } ==> after.session.model == model
            && after.session.messages == before.session.messages,
        op matches Op::SetCompaction { config } ==> after.config.compaction == config
            && after.session == before.session,
        op matches Op::SetStreamChunkTimeout { timeout_secs }
            ==> after.config.stream_chunk_timeout_secs == timeout_secs && after.session
            == before.session,
        op matches Op::SetSubagentRuntimeConfig { enabled, .. } ==> after.config.subagents_enabled
            == enabled && after.session == before.session,
        op matches Op::EditLastTurn { new_message } ==> (step matches Step::Send(m) && m.content@
            == new_message@ && m.provenance == UserInputProvenance::ExternalUser),
{
    if let Op::ChangeMode { mode, allow_shell, trust_mode, auto_approve, approval_mode } = op {
        let a = choose|a: TurnAuthority|
            #![trigger before.with_authority(a)]
            a@ == crate::authority::authority_of(
                mode,
                allow_shell,
                trust_mode,
                auto_approve,
                approval_mode,
                None,
            ) && after == before.with_authority(a);
        law_permissions_are_taken_over(before, a);
    }
}

// ---------------------------------------------------------------------------
// Prompts and summaries
// ---------------------------------------------------------------------------

/// A summary goes into the prompt without a change to the messages, the model or the
/// permissions; without one nothing changes.
pub proof fn law_summaries_go_into_the_prompt(e: Engine, c: CompactionResult)
    ensures
        e.with_summary(None) == e,
        e.with_summary(c.merged).session.messages == e.session.messages,
        e.with_summary(c.merged).session.model == e.session.model,
        e.with_summary(c.merged).session.approval_mode == e.session.approval_mode,
        c.merged matches Some((summary, prompt)) ==> e.with_summary(c.merged).session.system_prompt
            == prompt && e.with_summary(c.merged).session.compaction_summary_prompt == summary,
        e.with_compacted(c).session.messages == c.messages,
        e.with_compacted(c).session.id == e.session.id,
        e.with_compacted(c).session.total_usage == e.session.total_usage,
        c.merged matches Some((summary, prompt)) ==> e.with_compacted(c).session.system_prompt
            == prompt,
        c.merged is None ==> e.with_compacted(c).session.system_prompt == e.session.system_prompt,
        e.session.messages_revision < u64::MAX ==> e.with_compacted(c).session.messages_revision
            == e.session.messages_revision + 1,
{
}

/// A prompt that the host set is kept; another is replaced where it changed, with the
/// gate behind it.
pub proof fn law_prompts_are_refreshed(
    before: Engine,
    merged: Option<PromptView>,
    gate: Option<Seq<char>>,
    after: Engine,
)
    requires
        refreshed(before, merged, gate, after),
    ensures
        before.session.system_prompt_override ==> after == before,
        !before.session.system_prompt_override && before.session.last_system_prompt_hash is None
            ==> opt_prompt(after.session.system_prompt) == with_gate(merged, gate),
        after.session.messages == before.session.messages,
        after.session.model == before.session.model,
        merged matches Some(PromptView::Text(text)) ==> (gate matches Some(g) ==> with_gate(
            merged,
            gate,
        ) == Some(PromptView::Text(text + "\n\n"@ + g))),
        gate is None ==> with_gate(merged, gate) == merged,
{
}

/// A summary is told where it says something, whole.
pub proof fn law_summaries_are_told(text: Seq<char>)
    ensures
        trimmed(text).len() > 0 ==> summary_text(Some(PromptView::Text(text))) == Some(text),
        trimmed(text).len() == 0 ==> summary_text(Some(PromptView::Text(text))) is None,
        summary_text(None) is None,
{
}

/// A forced pass is made whatever the settings say, starts below the budget, and not
/// later than the settings say.
pub proof fn law_forced_passes_start_early(config: CompactionConfig, budget: usize)
    ensures
        forced_config(config, budget).enabled,
        forced_config(config, budget).token_threshold >= 1,
        budget >= 2 ==> forced_config(config, budget).token_threshold < budget,
        config.token_threshold >= 1 ==> forced_config(config, budget).token_threshold
            <= config.token_threshold,
        1 <= config.token_threshold < budget ==> forced_config(config, budget).token_threshold
            == config.token_threshold,
{
}

/// A request that fits after a pass that changed something has recovered; one that
/// does not fit has not, nor has one in which nothing got less.
pub proof fn law_what_fits_has_recovered(
    budget: usize,
    before_tokens: usize,
    before_count: usize,
    after_tokens: usize,
    after_count: nat,
    trimmed: usize,
)
    ensures
        after_tokens <= budget && (after_tokens < before_tokens || after_count < before_count
            || trimmed > 0) ==> has_recovered(
            budget,
            before_tokens,
            before_count,
            after_tokens,
            after_count,
            trimmed,
        ),
        after_tokens > budget ==> !has_recovered(
            budget,
            before_tokens,
            before_count,
            after_tokens,
            after_count,
            trimmed,
        ),
{
}

/// What is told of a recovery: a failed pass, the session as it is, and whether it
/// came about, with the number of messages before and after.
pub proof fn law_recoveries_are_told(
    plan: Recovery,
    failure: Option<Seq<char>>,
    retries: u32,
    recovered: bool,
    after_tokens: usize,
    after_count: nat,
    trimmed: usize,
    summary: Option<Seq<char>>,
    session: Session,
)
    requires
        after_count <= usize::MAX,
    ensures
        ({
            let told = recovery_events(
                plan,
                failure,
                retries,
                recovered,
                after_tokens,
                after_count,
                trimmed,
                summary,
                session,
            );
            let k: int = if failure is Some {
                1
            } else {
                0
            };
            &&& told.len() == k + 3
            &&& failure matches Some(e) ==> (told[0] matches EventView::Status(text) && holds(
                text,
                e,
            ))
            &&& told[k] == session_told(session)
            &&& recovered ==> (told[k + 1] matches EventView::CompactionCompleted {
                id,
                auto,
                messages_before,
                messages_after,
                summary_prompt,
                ..
            } && id == plan.id@ && auto && messages_before == Some(plan.before_count)
                && messages_after == Some(after_count as usize) && summary_prompt == summary)
            &&& !recovered ==> (told[k + 1] matches EventView::CompactionFailed {
                id,
                auto,
                message,
            } && id == plan.id@ && auto && message == not_recovered_text(
                after_tokens as nat,
                plan.budget as nat,
            ))
        }),
{
    if let Some(e) = failure {
        lemma_holds_between(
            "Emergency compaction API pass failed: "@,
            e,
            ". Falling back to local trim."@,
        );
    }
}

/// The numbers of a pass are told in their order: the messages before, those after,
/// and how many there are fewer.
pub proof fn law_passes_are_told(before: nat, after: nat, retries: u32, condensed: nat)
    requires
        after <= before,
    ensures
        ("Compaction complete: "@ + decimal(before) + " → "@ + decimal(after) + " messages ("@
            + decimal((before - after) as nat) + " removed"@).is_prefix_of(
            completed_text(before, after, retries),
        ),
        purged_text(before, after, (before - after) as nat, condensed) == "Purge complete: "@
            + decimal(before) + " → "@ + decimal(after) + " messages ("@ + decimal(
            (before - after) as nat,
        ) + " removed, "@ + decimal(condensed) + " condensed)"@,
        ("Emergency compaction complete: "@ + decimal(before) + " → "@ + decimal(after)
            + " messages ("@ + decimal((before - after) as nat) + " removed), ~"@).is_prefix_of(
            recovered_text(before, after, condensed, condensed, retries, 0),
        ),
{
}

/// Advice about a key is given where the message is about one and does not hold it
/// already; the message itself always comes first.
pub proof fn law_keys_are_advised_on(message: Seq<char>, hint: Seq<char>, about: bool)
    ensures
        message.is_prefix_of(decorated(message, Some(hint), about)),
        decorated(message, None, about) == message,
        !about ==> decorated(message, Some(hint), about) == message,
        about && !contains_text(message, "no saved config key is present"@) ==> hint.is_suffix_of(
            decorated(message, Some(hint), about),
        ),
{
    let told = decorated(message, Some(hint), about);
    if about && !contains_text(message, "no saved config key is present"@) {
        assert(told.skip(told.len() - hint.len()) =~= hint);
    }
}

/// Seams are off unless they are switched on; what is not set is as usual.
pub proof fn law_seams_are_set(settings: SeamSettings, usual: SeamConfig)
    ensures
        seam_of(settings, usual).enabled <==> settings.enabled == Some(true),
        settings.l1_threshold matches Some(n) ==> seam_of(settings, usual).l1_threshold == n,
        settings.l1_threshold is None ==> seam_of(settings, usual).l1_threshold
            == usual.l1_threshold,
        settings.l2_threshold matches Some(n) ==> seam_of(settings, usual).l2_threshold == n,
        settings.l2_threshold is None ==> seam_of(settings, usual).l2_threshold
            == usual.l2_threshold,
        settings.l3_threshold matches Some(n) ==> seam_of(settings, usual).l3_threshold == n,
        settings.l3_threshold is None ==> seam_of(settings, usual).l3_threshold
            == usual.l3_threshold,
        settings.verbatim_window_turns matches Some(n) ==> seam_of(
            settings,
            usual,
        ).verbatim_window_turns == n,
        settings.verbatim_window_turns is None ==> seam_of(settings, usual).verbatim_window_turns
            == usual.verbatim_window_turns,
        settings.seam_model matches Some(m) ==> seam_of(settings, usual).seam_model == m,
        settings.seam_model is None ==> seam_of(settings, usual).seam_model == usual.seam_model,
{
}

// ---------------------------------------------------------------------------
// Goals
// ---------------------------------------------------------------------------

/// Work on an active goal goes on exactly while neither its tokens nor its seconds
/// are used up; which of them stopped it is told, tokens first.
pub proof fn law_work_goes_on_within_budget(progress: GoalProgress, budget: GoalBudget)
    ensures
        ({
            let out_of_tokens = budget.token_budget matches Some(b) && progress.tokens_used >= b;
            let out_of_time = budget.time_budget_seconds matches Some(b)
                && progress.time_used_seconds >= b;
            let d = continuation(GoalRunStatus::Active, progress, budget);
            &&& d == ContinuationDecision::Continue <==> !out_of_tokens && !out_of_time
            &&& out_of_tokens ==> d == ContinuationDecision::Stop(StopReason::TokenBudget)
            &&& !out_of_tokens && out_of_time ==> d == ContinuationDecision::Stop(
                StopReason::TimeBudget,
            )
            &&& continuation(GoalRunStatus::Completed, progress, budget)
                == ContinuationDecision::Stop(StopReason::Completed)
            &&& continuation(GoalRunStatus::Blocked, progress, budget)
                == ContinuationDecision::Stop(StopReason::Blocked)
        }),
{
}

/// The goal of a session is worked on where it is active, says so, and has tokens
/// left.
pub proof fn law_active_goals_go_on(s: GoalSnapshot)
    ensures
        s.active && s.status@ == "active"@ && (s.token_budget is None || s.tokens_used
            < s.token_budget->0) ==> goes_on(s),
        s.status@ != "active"@ ==> !goes_on(s),
        !s.active ==> !goes_on(s),
{
    reveal_strlit("active");
    reveal_strlit("complete");
    assert("active"@.len() != "complete"@.len());
}

/// A goal's text is what is left of it without blanks around it; a blank one is none.
/// The state of a goal counts before the settings, and a goal that rests is not spoken
/// of.
pub proof fn law_goals_have_texts(value: Seq<char>, configured: Option<Seq<char>>)
    ensures
        trimmed(value).len() > 0 ==> objective_of(Some(value)) == Some(trimmed(value)),
        trimmed(value).len() == 0 ==> objective_of(Some(value)) is None,
        objective_of(None) is None,
        prompt_objective(configured, Some((Some(value), true))) == Some(value),
        prompt_objective(configured, Some((Some(value), false))) is None,
        prompt_objective(Some(value), None) == objective_of(Some(value)),
        prompt_objective(Some(value), Some((None, true))) == objective_of(Some(value)),
{
}

// ---------------------------------------------------------------------------
// Calls that run together
// ---------------------------------------------------------------------------

/// A call may run beside others where it does not bundle calls itself and is a reading
/// call of a remote server, or one of a tool that is known, only reads, needs no
/// consent and may share the floor.
pub proof fn law_calls_beside_others(tool_name: Seq<char>, facts: CallFacts)
    ensures
        parallel_refusal(tool_name, facts) is None ==> {
            &&& tool_name != "multi_tool_use.parallel"@
            &&& !facts.is_mcp_tool ==> (facts.registered matches Some(t) && t.read_only
                && t.needs_no_approval && t.supports_parallel)
            &&& facts.is_mcp_tool ==> tool_name == "list_mcp_resources"@ || tool_name
                == "list_mcp_resource_templates"@ || tool_name == "mcp_read_resource"@ || tool_name
                == "read_mcp_resource"@ || tool_name == "mcp_get_prompt"@
        },
        tool_name != "multi_tool_use.parallel"@ && !facts.is_mcp_tool && (facts.registered
            matches Some(t) && t.read_only && t.needs_no_approval && t.supports_parallel)
            ==> parallel_refusal(tool_name, facts) is None,
        tool_name != "multi_tool_use.parallel"@ && !facts.is_mcp_tool && facts.registered is None
            ==> (parallel_refusal(tool_name, facts) matches Some(ToolErrorView::NotAvailable(m))
            && holds(m, tool_name)),
{
    lemma_holds_between("工具 '"@, tool_name, "' 未注册"@);
}

/// All calls of a bundle may run, or the first that may not is the one refused.
pub proof fn law_first_refused_call_counts(
    calls: Seq<(Seq<char>, JsonView)>,
    facts: Seq<CallFacts>,
    from: int,
)
    requires
        0 <= from <= calls.len(),
        calls.len() == facts.len(),
    ensures
        match first_refusal(calls, facts, from) {
            None => forall|i: int|
                from <= i < calls.len() ==> parallel_refusal((#[trigger] calls[i]).0, facts[i])
                    is None,
            Some(e) => exists|i: int|
                from <= i < calls.len() && parallel_refusal((#[trigger] calls[i]).0, facts[i])
                    == Some(e) && forall|j: int|
                    from <= j < i ==> parallel_refusal((#[trigger] calls[j]).0, facts[j]) is None,
        },
    decreases calls.len() - from,
{
    if from < calls.len() {
        law_first_refused_call_counts(calls, facts, from + 1);
        match parallel_refusal(calls[from].0, facts[from]) {
            Some(e) => {
                assert(parallel_refusal(calls[from].0, facts[from]) == Some(e));
            },
            None => {
                if let Some(e) = first_refusal(calls, facts, from + 1) {
                    let i = choose|i: int|
                        from + 1 <= i < calls.len() && parallel_refusal(
                            (#[trigger] calls[i]).0,
                            facts[i],
                        ) == Some(e) && forall|j: int|
                            from + 1 <= j < i ==> parallel_refusal(
                                (#[trigger] calls[j]).0,
                                facts[j],
                            ) is None;
                    assert(parallel_refusal(calls[i].0, facts[i]) == Some(e));
                }
            },
        }
    }
}

/// A call goes to the remote server it belongs to, to the interpreter it names, or to
/// the tools that are known.
pub proof fn law_calls_take_their_route(tool_name: Seq<char>, has_registry: bool)
    ensures
        route_of(tool_name, true, has_registry) == ToolRoute::Mcp,
        route_of("code_execution"@, false, has_registry) == ToolRoute::CodeInterpreter,
        route_of("js_execution"@, false, has_registry) == ToolRoute::ScriptInterpreter,
        tool_name != "code_execution"@ && tool_name != "js_execution"@ ==> route_of(
            tool_name,
            false,
            true,
        ) == ToolRoute::Registry && route_of(tool_name, false, false) == ToolRoute::Missing,
{
    reveal_strlit("code_execution");
    reveal_strlit("js_execution");
    assert("code_execution"@.len() != "js_execution"@.len());
}

/// What came of a call that ran is told as it is, with its output as the error where
/// it failed; a call that could not run failed, and its cause is told.
pub proof fn law_entries_tell_the_outcome(
    tool_name: Seq<char>,
    success: bool,
    content: String,
    message: String,
)
    ensures
        ({
            let done = entry_of(tool_name, CallOutcome::Done { success, content });
            let failed = entry_of(tool_name, CallOutcome::Failed { message });
            &&& done.tool_name == tool_name && failed.tool_name == tool_name
            &&& done.success == success
            &&& done.content == content@
            &&& success ==> done.error is None
            &&& !success ==> done.error == Some(content@)
            &&& !failed.success
            &&& failed.error == Some(message@)
            &&& message@.is_suffix_of(failed.content)
        }),
{
    let text = entry_of(tool_name, CallOutcome::Failed { message }).content;
    assert(text.skip(text.len() - message@.len()) =~= message@);
}

/// An entry is written with its output, its outcome, its tool and its error.
pub proof fn law_entries_are_written(e: EntryView)
    ensures
        entry_json(e).text_field("content"@) == Some(e.content),
        entry_json(e).truth_field("success"@) == Some(e.success),
        entry_json(e).text_field("tool_name"@) == Some(e.tool_name),
        entry_json(e).text_field("error"@) == e.error,
{
    reveal_strlit("content");
    reveal_strlit("error");
    reveal_strlit("success");
    reveal_strlit("tool_name");
    assert("content"@.len() == 7 && "error"@.len() == 5 && "success"@.len() == 7
        && "tool_name"@.len() == 9);
    assert("content"@[0] != "success"@[0]);
    let m = entry_json(e)->Object_0;
    law_single_members_are_read(m, 0);
    if e.error is Some {
        law_single_members_are_read(m, 1);
        law_single_members_are_read(m, 2);
        law_single_members_are_read(m, 3);
    } else {
        law_single_members_are_read(m, 1);
        law_single_members_are_read(m, 2);
        law_first_member_is_found(m, "error"@, 0);
    }
}

/// The results of a bundle are written in order, all of them.
pub proof fn law_results_are_written(entries: Seq<EntryView>)
    ensures
        results_json(entries).items_field("results"@) matches Some(items) && items.len()
            == entries.len() && forall|i: int|
            0 <= i < items.len() ==> #[trigger] items[i] == entry_json(entries[i]),
{
    let items = entries.map_values(|e: EntryView| entry_json(e));
    let m = Seq::<(Seq<char>, JsonView)>::empty().push(("results"@, JsonView::Array(items)));
    assert(results_json(entries) == JsonView::Object(m));
    law_single_members_are_read(m, 0);
}

/// What a run of code gave is told: what it wrote, and the number it ended with.
pub proof fn law_code_results_are_told(stdout: Seq<char>, stderr: Seq<char>, return_code: i32)
    ensures
        code_execution_view(stdout, stderr, return_code).text_field("stdout"@) == Some(stdout),
        code_execution_view(stdout, stderr, return_code).text_field("stderr"@) == Some(stderr),
        code_execution_view(stdout, stderr, return_code).field("return_code"@) == Some(
            if return_code >= 0 {
                JsonView::PosInt(return_code as u64)
            } else {
                JsonView::NegInt(return_code as i64)
            },
        ),
{
    reveal_strlit("content");
    reveal_strlit("return_code");
    reveal_strlit("stderr");
    reveal_strlit("stdout");
    assert("content"@.len() == 7 && "return_code"@.len() == 11 && "stderr"@.len() == 6
        && "stdout"@.len() == 6);
    assert("stderr"@[3] != "stdout"@[3]);
    let m = code_execution_view(stdout, stderr, return_code)->Object_0;
    law_single_members_are_read(m, 1);
    law_single_members_are_read(m, 2);
    law_single_members_are_read(m, 3);
}

// ---------------------------------------------------------------------------
// Usage, labels and mail
// ---------------------------------------------------------------------------

/// Tokens are added up, what is read apart from what is written and what the cache
/// held apart from what it did not.
pub proof fn law_usage_adds_up(total: SessionUsage, usage: Usage)
    requires
        usage_fits(total, usage),
    ensures
        ({
            let after = usage_after(total, usage);
            &&& after.input_tokens == total.input_tokens + usage.input_tokens
            &&& after.output_tokens == total.output_tokens + usage.output_tokens
            &&& usage.prompt_cache_hit_tokens matches Some(n) ==> after.cache_read_input_tokens
                == Some(
                (match total.cache_read_input_tokens {
                    Some(t) => t + n,
                    None => n as int,
                }) as u64,
            )
            &&& usage.prompt_cache_miss_tokens matches Some(n)
                ==> after.cache_creation_input_tokens == Some(
                (match total.cache_creation_input_tokens {
                    Some(t) => t + n,
                    None => n as int,
                }) as u64,
            )
        }),
{
}

/// The usage of a turn adds up likewise, each count apart.
pub proof fn law_turn_usage_adds_up(total: Usage, usage: Usage)
    requires
        total.input_tokens + usage.input_tokens <= u32::MAX,
        total.output_tokens + usage.output_tokens <= u32::MAX,
    ensures
        ({
            let after = turn_usage_after(total, usage);
            &&& after.input_tokens == total.input_tokens + usage.input_tokens
            &&& after.output_tokens == total.output_tokens + usage.output_tokens
            &&& total.prompt_cache_hit_tokens is None ==> after.prompt_cache_hit_tokens
                == usage.prompt_cache_hit_tokens
            &&& usage.prompt_cache_hit_tokens is None ==> after.prompt_cache_hit_tokens
                == total.prompt_cache_hit_tokens
            &&& total.prompt_cache_miss_tokens is None ==> after.prompt_cache_miss_tokens
                == usage.prompt_cache_miss_tokens
            &&& usage.prompt_cache_miss_tokens is None ==> after.prompt_cache_miss_tokens
                == total.prompt_cache_miss_tokens
            &&& total.reasoning_tokens is None ==> after.reasoning_tokens == usage.reasoning_tokens
            &&& after.server_tool_use == total.server_tool_use
        }),
        forall|a: u32, b: u32|
            a + b <= u32::MAX ==> #[trigger] added(Some(a), Some(b)) == Some((a + b) as u32),
        forall|a: u32, b: u32|
            a + b > u32::MAX ==> #[trigger] added(Some(a), Some(b)) == Some(u32::MAX),
{
}

/// A label names when it was made and the number of the turn, and the first line of
/// what was asked, at most a hundred characters of it.
pub proof fn law_labels_name_the_turn(prefix: Seq<char>, turn: u64, prompt: Seq<char>)
    ensures
        (prefix + ":"@ + decimal(turn as nat)).is_prefix_of(
            snapshot_label(prefix, turn, Some(prompt)),
        ),
        snapshot_label(prefix, turn, None) == prefix + ":"@ + decimal(turn as nat),
        prompt.len() > 0 && !prompt.contains('\n') && prompt.len() <= 100 ==> prompt.is_suffix_of(
            snapshot_label(prefix, turn, Some(prompt)),
        ),
        prompt.len() > 100 && !prompt.contains('\n') ==> holds(
            snapshot_label(prefix, turn, Some(prompt)),
            prompt.take(100),
        ),
{
    let label = snapshot_label(prefix, turn, Some(prompt));
    let base = prefix + ":"@ + decimal(turn as nat);
    if !prompt.contains('\n') {
        crate::laws::texts::law_texts_are_cut_into_lines(prompt, Seq::empty());
        if 0 < prompt.len() <= 100 {
            assert(label.skip(label.len() - prompt.len()) =~= prompt);
        } else if prompt.len() > 100 {
            lemma_holds_between(base + ": "@, prompt.take(100), "…"@);
        }
    }
}

/// What can be dropped is sent again to an agent after the interval and not before;
/// what cannot is sent always.
pub proof fn law_mail_keeps_its_distance(last: u128, kind: MailboxKind, now: u128)
    requires
        kind != MailboxKind::Other,
    ensures
        send_permitted(Some(last), kind, now) <==> now >= last
            + crate::engine::mailbox::SUBAGENT_MAILBOX_BEST_EFFORT_MIN_INTERVAL,
        send_permitted(Some(last), MailboxKind::Other, now),
        send_permitted(None, kind, now),
{
}

// ---------------------------------------------------------------------------
// What is told besides
// ---------------------------------------------------------------------------

/// A session is told as it is; the end of a turn with its status and its error.
pub proof fn law_sessions_are_told(
    session: Session,
    status: TurnOutcomeStatus,
    error: Option<Seq<char>>,
)
    ensures
        session_told(session) matches EventView::SessionUpdated {
            session_id,
            messages,
            system_prompt,
            model,
            workspace,
        } && session_id == session.id@ && messages == crate::models::message_views(
            session.messages@,
        ) && system_prompt == opt_prompt(session.system_prompt) && model == session.model@
            && workspace == session.workspace@,
        crate::events::turn_over_view(status, error) matches EventView::TurnComplete {
            status: s,
            error: e,
            ..
        } && s == status && e == error,
{
}

/// A goal with a text is told of; one without is not.
pub proof fn law_goals_are_told(s: GoalSnapshot)
    ensures
        s.objective is Some ==> crate::engine::goal::goal_told(Some(s)) == seq![
            EventView::GoalUpdated(s@),
        ],
        s.objective is None ==> crate::engine::goal::goal_told(Some(s)).len() == 0,
        crate::engine::goal::goal_told(None).len() == 0,
        crate::engine::goal::budget_of(s).token_budget == (match s.token_budget {
            Some(b) => Some(b as u64),
            None => None,
        }),
        crate::engine::goal::budget_of(s).time_budget_seconds is None,
        progress_of(s).tokens_used == s.tokens_used,
        progress_of(s).time_used_seconds == s.time_used_seconds,
{
}

/// A goal that is set in the settings is told of when the engine starts.
pub proof fn law_set_goals_are_told(e: Engine)
    ensures
        objective_of(opt_text(e.config.goal_objective)) is None
            ==> crate::engine::state::seeded_goal(e.config).len() == 0,
        objective_of(opt_text(e.config.goal_objective)) matches Some(text)
            ==> crate::engine::state::seeded_goal(e.config) == seq![
            EventView::GoalSynced {
                objective: Some(text),
                token_budget: e.config.goal_token_budget,
                status: e.config.goal_status,
            },
        ],
{
}

/// A turn keeps the terms of the message it came from.
pub proof fn law_turns_keep_their_terms(t: TurnTerms, m: SendMessage, mode: AppMode)
    requires
        crate::engine::turns::terms_of(t, m, mode),
    ensures
        t.prompt@ == m.content@,
        t.mode == m.mode,
        t.allow_shell == m.allow_shell,
        t.trust_mode == m.trust_mode,
        t.auto_approve == m.auto_approve,
        t.approval_mode == m.approval_mode,
        t.dynamic_tools == m.dynamic_tools,
        mode != AppMode::Plan ==> !t.force_update_plan_first,
{
}

/// A route that cannot be taken is told with its provider, its model and the reason, and
/// the turn fails.
pub proof fn law_lost_routes_are_told(
    provider: Seq<char>,
    model: Seq<char>,
    reason: String,
    message: Seq<char>,
)
    ensures
        reason@.is_suffix_of(
            crate::engine::turns::route_failure_text(
                provider,
                model,
                crate::engine::turns::RouteFailure::Unresolved(reason),
            ),
        ),
        ("Failed to resolve provider route "@ + provider + " / "@ + model + ": "@).is_prefix_of(
            crate::engine::turns::route_failure_text(
                provider,
                model,
                crate::engine::turns::RouteFailure::Unresolved(reason),
            ),
        ),
        ("Failed to configure provider route "@ + provider + " / "@ + model + ": "@).is_prefix_of(
            crate::engine::turns::route_failure_text(
                provider,
                model,
                crate::engine::turns::RouteFailure::Unconfigured(reason),
            ),
        ),
        crate::engine::turns::failed_turn(message).len() == 2,
        crate::engine::turns::failed_turn(message)[1] matches EventView::TurnComplete {
            status,
            error,
            ..
        } && status == TurnOutcomeStatus::Failed && error == Some(message),
{
    let text = crate::engine::turns::route_failure_text(
        provider,
        model,
        crate::engine::turns::RouteFailure::Unresolved(reason),
    );
    assert(text.skip(text.len() - reason@.len()) =~= reason@);
}

/// Kinds of errors have names of their own.
pub proof fn law_errors_are_named_apart(m: Seq<char>, n: u64)
    ensures
        error_kind(ToolErrorView::PermissionDenied(m)) == "permission_denied"@,
        error_kind(ToolErrorView::InvalidInput(m)) == "invalid_input"@,
        error_kind(ToolErrorView::MissingField(m)) == "missing_field"@,
        error_kind(ToolErrorView::PathEscape(m)) == "path_escape"@,
        error_kind(ToolErrorView::ExecutionFailed(m)) == "execution_failed"@,
        error_kind(ToolErrorView::Timeout(n)) == "timeout"@,
        error_kind(ToolErrorView::NotAvailable(m)) == "not_available"@,
{
}

/// The limits of sub-agents are told as they were set.
pub proof fn law_limits_are_told(e: Engine, enabled: bool, applied: bool)
    ensures
        ("Sub-agent runtime updated: enabled="@ + (if enabled {
            "true"@
        } else {
            "false"@
        }) + ", max_subagents="@ + decimal(e.config.max_subagents as nat)
            + ", launch_concurrency="@ + decimal(e.config.launch_concurrency as nat)
            + ", max_depth="@ + decimal(e.config.max_spawn_depth as nat)).is_prefix_of(
            crate::engine::requests::limits_text(e, enabled, applied),
        ),
{
}

/// A request that was not brought below its limit is told with both numbers, the
/// estimate first.
pub proof fn law_lost_recoveries_are_told(tokens: nat, budget: nat)
    ensures
        not_recovered_text(tokens, budget)
            == "Emergency context compaction failed to reduce request below model limit (estimate ~"@
            + decimal(tokens) + " tokens, budget ~"@ + decimal(budget) + ")."@,
{
}

/// What happened to a goal is told by its own word.
pub proof fn law_goals_have_words(status: GoalStatus)
    ensures
        status_word(status, true) == "cleared"@,
        status_word(GoalStatus::Active, false) == "resumed"@,
        status_word(GoalStatus::Paused, false) == "paused"@,
        status_word(GoalStatus::Complete, false) == "complete"@,
        status_word(GoalStatus::Blocked, false) == "blocked"@,
{
}

/// A seam is told with its level and how much it covers, and with the reason where it
/// failed.
pub proof fn law_seams_are_told(level: u8, count: nat, end: nat, way: SeamWay, error: Seq<char>)
    ensures
        seam_done_text(level, count, end) == "⏻ L"@ + decimal(level as nat) + " seam complete ("@
            + decimal(count) + " total, "@ + decimal(end) + " messages covered)"@,
        seam_started_text(level, end) == "⏻ producing L"@ + decimal(level as nat)
            + " context seam ("@ + decimal(end) + " messages)…"@,
        error.is_suffix_of(seam_failed_text(way, level, error)),
{
    let text = seam_failed_text(way, level, error);
    assert(text.skip(text.len() - error.len()) =~= error);
}

/// Diagnostics are counted and told for all blocks together.
pub proof fn law_diagnostics_are_told(blocks: Seq<DiagnosticBlock>)
    requires
        total_in(blocks, blocks.len()) <= usize::MAX,
        blocks.len() <= usize::MAX,
    ensures
        diagnostics_told(blocks) matches EventView::LspRepairUpdate {
            diagnostics_found,
            files,
            injected,
        } && diagnostics_found == total_in(blocks, blocks.len()) && files == blocks.len()
            && injected,
{
}

/// A snapshot is of the session's workspace, and labelled with the number of the turn.
pub proof fn law_snapshots_are_of_the_workspace(e: Engine, prefix: Seq<char>, prompt: Seq<char>)
    ensures
        e.turn_snapshot(prefix, prompt).workspace == e.session.workspace@,
        e.turn_snapshot(prefix, prompt).label == snapshot_label(
            prefix,
            e.turn_counter,
            Some(prompt),
        ),
        e.turn_snapshot(prefix, prompt).cap_bytes == e.config.snapshots_max_workspace_bytes,
{
}

/// A message is dropped only where there are more than four and the estimate is above
/// the budget; it is the oldest.
pub proof fn law_messages_are_dropped_above_budget<F: Fn(&Vec<Message>) -> usize>(
    estimate: F,
    budget: usize,
    before: (Session, CacheView),
    after: (Session, CacheView),
)
    requires
        drop_step(estimate, budget, before, after),
    ensures
        before.0.messages@.len() > 4,
        after.0.messages@ == before.0.messages@.skip(1),
        exists|tokens: usize| #[trigger]
            estimates(estimate, before.1, before.0, tokens, after.1) && tokens > budget,
        after.0.system_prompt == before.0.system_prompt,
        after.0.model == before.0.model,
{
}

/// An estimate that is not at hand is made of the messages, their number and the prompt;
/// one that is at hand is given again.
pub proof fn law_estimates_are_of_the_session<F: Fn(&Vec<Message>) -> usize>(
    estimate: F,
    cache: CacheView,
    session: Session,
    tokens: usize,
    after: CacheView,
)
    requires
        estimates(estimate, cache, session, tokens, after),
    ensures
        cache.cached_tokens is None ==> after.cached_tokens == Some(tokens) && exists|n: usize|
            #[trigger] call_ensures(estimate, (&session.messages,), n) && tokens
                == crate::context::input_estimate(
                n as int,
                session.messages@.len() as int,
                opt_prompt(session.system_prompt),
            ),
        cache.cached_tokens is None || cache.messages_revision != session.messages_revision
            ==> after.messages_revision == session.messages_revision,
        cache.cached_tokens is Some ==> (after.hits != cache.hits ==> cache.cached_tokens == Some(
            tokens,
        )),
{
}

/// A model is left to the program exactly where it is named so, in whatever letters and
/// with whatever blanks around it.
pub proof fn law_models_are_left_to_the_program(
    e: Engine,
    model: String,
    limits: Option<crate::engine::state::RouteLimits>,
)
    ensures
        e.with_model(model, limits).session.auto_model <==> crate::text::ascii_lower(trimmed(model@))
            == "auto"@,
{
}

/// The colour of a tool's status is the one that the theme has for it, and a theme is
/// made for its palette.
pub proof fn law_statuses_have_colours(theme: Theme)
    ensures
        theme.status_color(ToolStatus::Running) == theme.tool_running_accent,
        theme.status_color(ToolStatus::Success) == theme.tool_success_accent,
        theme.status_color(ToolStatus::Failed) == theme.tool_failed_accent,
        Theme::theme_for(PaletteMode::Dark).variant == Variant::Dark,
        Theme::theme_for(PaletteMode::Light).variant == Variant::Light,
        Theme::theme_for(PaletteMode::SolarizedLight).variant == Variant::Light,
        Theme::theme_for(PaletteMode::Grayscale).variant == Variant::Grayscale,
{
}

/// What the user decided about a call is told as they decided it; a cancelled request
/// is cancelled and the mark taken back; a sub-agent without a model is refused.
pub proof fn law_decisions_are_told(e: Engine, op: Op, step: Step)
    requires
        passed_on(e, op, step),
    ensures
        op matches Op::ApproveToolCall { id } ==> (step matches Step::Done(events)
            && crate::events::event_views(events@) == seq![
            EventView::Status("Approved tool call: "@ + id@),
        ]),
        op matches Op::DenyToolCall { id } ==> (step matches Step::Done(events)
            && crate::events::event_views(events@) == seq![
            EventView::Status("Denied tool call: "@ + id@),
        ]),
        op is CancelRequest ==> (step matches Step::Done(events) && crate::events::event_views(
            events@,
        ) == seq![EventView::CancelRunning, EventView::CancelReset]),
        op matches Op::SpawnSubAgent { prompt } ==> e.client.connected is Some ==> (
        step matches Step::SpawnSubAgent { prompt: p } && p == prompt),
        op is SpawnSubAgent && e.client.connected is None ==> (step matches Step::Done(events)
            && crate::events::event_views(events@).len() == 1 && crate::events::event_views(
            events@,
        )[0] is Error),
        op is ListSubAgents ==> step is ListSubAgents,
        op is GetSessionSnapshot ==> step is Snapshot,
        op is GetProviderRuntimeStatus ==> step is ProviderStatus,
        op matches Op::SetGoalStatus { status, clear } ==> (step matches Step::SetGoalStatus {
            status: s,
            clear: c,
        } && s == status && c == clear),
{
}

/// Whether compaction is on is told as it was set.
pub proof fn law_switches_are_told(
    before: Engine,
    op: Op,
    ceilings: SubagentCeilings,
    after: Engine,
    step: Step,
)
    requires
        settings_changed(before, op, ceilings, after, step),
    ensures
        op matches Op::SetCompaction { config } ==> (step matches Step::Done(events)
            && crate::events::event_views(events@) == seq![
            EventView::Status(
                if config.enabled {
                    "Auto-compaction enabled"@
                } else {
                    "Auto-compaction disabled"@
                },
            ),
        ]),
        op matches Op::ChangeMode { mode, .. } ==> (step matches Step::ModeChanged { mode: m } && m
            == mode),
{
    reveal_strlit("Auto-compaction ");
    reveal_strlit("enabled");
    reveal_strlit("disabled");
    reveal_strlit("Auto-compaction enabled");
    reveal_strlit("Auto-compaction disabled");
    assert("Auto-compaction "@ + "enabled"@ =~= "Auto-compaction enabled"@);
    assert("Auto-compaction "@ + "disabled"@ =~= "Auto-compaction disabled"@);
}

/// Advice about a key names where it came from and whose it is; a notice about input
/// names where that came from.
pub proof fn law_notices_name_their_source(
    env_var: Seq<char>,
    provider: Seq<char>,
    provenance: UserInputProvenance,
)
    ensures
        ("The rejected key came from "@ + env_var).is_prefix_of(
            crate::engine::state::env_key_hint(env_var, provider),
        ),
        holds(crate::engine::state::env_key_hint(env_var, provider), provider),
        ("Input provenance '"@ + provenance.word()).is_prefix_of(
            crate::authority::narrowing_notice(provenance),
        ),
{
    let a = "The rejected key came from "@ + env_var
        + "; no saved config key is present.\nRun `codewhale auth status` to inspect credential sources, then `codewhale auth set --provider "@;
    let b = "` to save a valid key in ~/.codewhale/config.toml, or remove the stale export and open a fresh shell."@;
    lemma_holds_between(a, provider, b);
}

/// Where input comes from has a word of its own.
pub proof fn law_sources_have_words()
    ensures
        UserInputProvenance::ExternalUser.word() == "external_user"@,
        UserInputProvenance::Runtime.word() == "runtime"@,
        UserInputProvenance::SubAgentHandoff.word() == "subagent_handoff"@,
        UserInputProvenance::ImportedTranscript.word() == "imported_transcript"@,
        UserInputProvenance::MemoryRecall.word() == "memory_recall"@,
        UserInputProvenance::AssistantGenerated.word() == "assistant_generated"@,
{
}

} // verus!
