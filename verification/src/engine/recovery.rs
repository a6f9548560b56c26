//! What is done when a request would not fit into the context of a model, and
//! how the context is summed up in layers before that.

use crate::context::system_estimate;
use crate::engine::compaction::{
    drop_trace, drops_ended, estimates, law_newest_messages_stay, usable, CompactionResult,
};
use crate::engine::metadata::text_block;
use crate::engine::prompt::summary_text;
use crate::engine::state::{CompactionConfig, Engine};
use crate::events::{event_views, no_events, session_told, tell, Event, EventView};
use crate::models::{opt_prompt, ContentBlock, Message};
use crate::session::{next_revision, Session};
use crate::text::{concat, decimal, opt_text, push_decimal, push_usize};
use crate::token_estimate_cache::CacheView;
use vstd::prelude::*;

verus! {

/// A context that is being made shorter by force.
#[derive(Debug)]
pub struct Recovery {
    pub id: String,
    pub budget: usize,
    pub before_tokens: usize,
    pub before_count: usize,
    pub forced: CompactionConfig,
}

/// The settings of a forced pass: it is made, and it starts below the budget.
pub open spec fn forced_config(config: CompactionConfig, budget: usize) -> CompactionConfig {
    let below = if budget == 0 {
        0usize
    } else {
        (budget - 1) as usize
    };
    let least = if config.token_threshold <= below {
        config.token_threshold
    } else {
        below
    };
    CompactionConfig {
        enabled: true,
        token_threshold: if least >= 1 {
            least
        } else {
            1
        },
    }
}

fn force(config: CompactionConfig, budget: usize) -> (r: CompactionConfig)
    ensures
        r == forced_config(config, budget),
{
    let below: usize = if budget == 0 {
        0
    } else {
        budget - 1
    };
    let least: usize = if config.token_threshold <= below {
        config.token_threshold
    } else {
        below
    };
    CompactionConfig {
        enabled: true,
        token_threshold: if least >= 1 {
            least
        } else {
            1
        },
    }
}

/// The context got below the budget, and something of it went.
pub open spec fn has_recovered(
    budget: usize,
    before_tokens: usize,
    before_count: usize,
    after_tokens: usize,
    after_count: nat,
    trimmed: usize,
) -> bool {
    after_tokens <= budget && (after_tokens < before_tokens || after_count < before_count
        || trimmed > 0)
}

/// What is told of a recovery that succeeded.
pub open spec fn recovered_text(
    before_count: nat,
    after_count: nat,
    before_tokens: nat,
    after_tokens: nat,
    retries: u32,
    trimmed: nat,
) -> Seq<char> {
    let removed = if before_count >= after_count {
        (before_count - after_count) as nat
    } else {
        0nat
    };
    "Emergency compaction complete: "@ + decimal(before_count) + " → "@ + decimal(after_count)
        + " messages ("@ + decimal(removed) + " removed), ~"@ + decimal(before_tokens) + " → ~"@
        + decimal(after_tokens) + " tokens"@ + (if retries > 0 {
        " ("@ + decimal(retries as nat) + " retries)"@
    } else {
        Seq::empty()
    }) + (if trimmed > 0 {
        ", trimmed "@ + decimal(trimmed) + " oldest"@
    } else {
        Seq::empty()
    })
}

fn recovered_message(
    before_count: usize,
    after_count: usize,
    before_tokens: usize,
    after_tokens: usize,
    retries: u32,
    trimmed: usize,
) -> (r: String)
    ensures
        r@ == recovered_text(
            before_count as nat,
            after_count as nat,
            before_tokens as nat,
            after_tokens as nat,
            retries,
            trimmed as nat,
        ),
{
    let removed: usize = if before_count >= after_count {
        before_count - after_count
    } else {
        0
    };
    let mut out = "Emergency compaction complete: ".to_owned();
    push_usize(&mut out, before_count);
    out.append(" → ");
    push_usize(&mut out, after_count);
    out.append(" messages (");
    push_usize(&mut out, removed);
    out.append(" removed), ~");
    push_usize(&mut out, before_tokens);
    out.append(" → ~");
    push_usize(&mut out, after_tokens);
    out.append(" tokens");
    let mut again = String::new();
    if retries > 0 {
        again = " (".to_owned();
        push_decimal(&mut again, retries as u64);
        again.append(" retries)");
    }
    out.append(again.as_str());
    let mut cut = String::new();
    if trimmed > 0 {
        cut = ", trimmed ".to_owned();
        push_usize(&mut cut, trimmed);
        cut.append(" oldest");
    }
    out.append(cut.as_str());
    out
}

/// What is told of a recovery that failed.
pub open spec fn not_recovered_text(after_tokens: nat, budget: nat) -> Seq<char> {
    "Emergency context compaction failed to reduce request below model limit (estimate ~"@
        + decimal(after_tokens) + " tokens, budget ~"@ + decimal(budget) + ")."@
}

fn not_recovered_message(after_tokens: usize, budget: usize) -> (r: String)
    ensures
        r@ == not_recovered_text(after_tokens as nat, budget as nat),
{
    let mut out = "Emergency context compaction failed to reduce request below model limit (estimate ~".to_owned();
    push_usize(&mut out, after_tokens);
    out.append(" tokens, budget ~");
    push_usize(&mut out, budget);
    out.append(").");
    out
}

/// As many of the oldest messages were dropped as the budget calls for, and what
/// is left was estimated.
pub open spec fn cut_and_counted<F: Fn(&Vec<Message>) -> usize>(
    estimate: F,
    budget: usize,
    before: (Session, CacheView),
    after: (Session, CacheView),
    trimmed: usize,
    tokens: usize,
) -> bool {
    exists|states: Seq<(Session, CacheView)>, cache: CacheView|
        {
            &&& #[trigger] drop_trace(estimate, budget, states)
            &&& states.len() == trimmed + 1
            &&& states[0] == before
            &&& states.last().0 == after.0
            &&& drops_ended(estimate, after.0, states.last().1, budget, cache)
            &&& #[trigger] estimates(estimate, cache, after.0, tokens, after.1)
        }
}

/// How a recovery ended.
#[derive(Debug)]
pub struct RecoveryOutcome {
    pub recovered: bool,
    pub after_tokens: usize,
    pub trimmed: usize,
    pub events: Vec<Event>,
}

/// What is told at the end of a recovery.
pub open spec fn recovery_events(
    plan: Recovery,
    failure: Option<Seq<char>>,
    retries: u32,
    recovered: bool,
    after_tokens: usize,
    after_count: nat,
    trimmed: usize,
    summary: Option<Seq<char>>,
    session: Session,
) -> Seq<EventView> {
    pass_events(failure) + seq![session_told(session)] + outcome_events(
        plan,
        retries,
        recovered,
        after_tokens,
        after_count,
        trimmed,
        summary,
    )
}

/// What is told where the forced pass failed.
pub open spec fn pass_events(failure: Option<Seq<char>>) -> Seq<EventView> {
    match failure {
        Some(e) => seq![
            EventView::Status(
                "Emergency compaction API pass failed: "@ + e
                    + ". Falling back to local trim."@,
            ),
        ],
        None => Seq::empty(),
    }
}

/// What is told of how a recovery ended.
pub open spec fn outcome_events(
    plan: Recovery,
    retries: u32,
    recovered: bool,
    after_tokens: usize,
    after_count: nat,
    trimmed: usize,
    summary: Option<Seq<char>>,
) -> Seq<EventView> {
    if recovered {
        let details = recovered_text(
            plan.before_count as nat,
            after_count,
            plan.before_tokens as nat,
            after_tokens as nat,
            retries,
            trimmed as nat,
        );
        seq![
            EventView::CompactionCompleted {
                id: plan.id@,
                auto: true,
                message: details,
                messages_before: Some(plan.before_count),
                messages_after: Some(after_count as usize),
                summary_prompt: summary,
            },
            EventView::Status(details),
        ]
    } else {
        let message = not_recovered_text(after_tokens as nat, plan.budget as nat);
        seq![
            EventView::CompactionFailed { id: plan.id@, auto: true, message },
            EventView::Status(message),
        ]
    }
}

fn tell_recovery(
    events: &mut Vec<Event>,
    plan: Recovery,
    retries: u32,
    recovered: bool,
    after_tokens: usize,
    after_count: usize,
    trimmed: usize,
    summary_prompt: Option<String>,
)
    ensures
        event_views(final(events)@) == event_views(old(events)@) + outcome_events(
            plan,
            retries,
            recovered,
            after_tokens,
            after_count as nat,
            trimmed,
            opt_text(summary_prompt),
        ),
{
    let ghost told = event_views(events@);
    if recovered {
        let details = recovered_message(
            plan.before_count,
            after_count,
            plan.before_tokens,
            after_tokens,
            retries,
            trimmed,
        );
        let ghost done = EventView::CompactionCompleted {
            id: plan.id@,
            auto: true,
            message: details@,
            messages_before: Some(plan.before_count),
            messages_after: Some(after_count),
            summary_prompt: opt_text(summary_prompt),
        };
        tell(
            events,
            Event::CompactionCompleted {
                id: plan.id,
                auto: true,
                message: details.clone(),
                messages_before: Some(plan.before_count),
                messages_after: Some(after_count),
                summary_prompt,
            },
        );
        tell(events, Event::status(details));
        proof {
            assert(event_views(events@) =~= told + seq![done, EventView::Status(details@)]);
        }
    } else {
        let message = not_recovered_message(after_tokens, plan.budget);
        tell(
            events,
            Event::CompactionFailed { id: plan.id, auto: true, message: message.clone() },
        );
        tell(events, Event::status(message));
        proof {
            assert(event_views(events@) =~= told + seq![
                EventView::CompactionFailed { id: plan.id@, auto: true, message: message@ },
                EventView::Status(message@),
            ]);
        }
    }
}

impl Engine {
    /// Begins to make the context shorter by force. Where no budget is known
    /// nothing can be done.
    pub fn begin_recovery<F: Fn(&Vec<Message>) -> usize>(
        &mut self,
        budget: Option<usize>,
        id: &str,
        reason: &str,
        estimate: &F,
    ) -> (r: Option<(Recovery, Event)>)
        requires
            system_estimate(opt_prompt(old(self).session.system_prompt)) <= usize::MAX,
            forall|m: &Vec<Message>| #[trigger] call_requires(estimate, (m,)),
        ensures
            match budget {
                None => r is None && *final(self) == *old(self),
                Some(b) => {
                    &&& r matches Some((plan, event))
                    &&& plan.id@ == id@
                    &&& plan.budget == b
                    &&& plan.before_count == old(self).session.messages@.len()
                    &&& plan.forced == forced_config(old(self).config.compaction, b)
                    &&& estimates(
                        *estimate,
                        old(self).token_estimate_cache@,
                        old(self).session,
                        plan.before_tokens,
                        final(self).token_estimate_cache@,
                    )
                    &&& event@ == (EventView::CompactionStarted {
                        id: id@,
                        auto: true,
                        message: "Emergency context compaction started ("@ + reason@ + ")"@,
                    })
                    &&& *final(self) == (Engine {
                        token_estimate_cache: final(self).token_estimate_cache,
                        ..*old(self)
                    })
                },
            },
    {
        let budget = match budget {
            Some(b) => b,
            None => return None,
        };
        let mut message = concat("Emergency context compaction started (", reason);
        message.append(")");
        let event = Event::CompactionStarted { id: id.to_owned(), auto: true, message };
        let before_tokens = self.estimated_input_tokens(estimate);
        let plan = Recovery {
            id: id.to_owned(),
            budget,
            before_tokens,
            before_count: self.session.messages.len(),
            forced: force(self.config.compaction, budget),
        };
        Some((plan, event))
    }

    /// The engine after the forced pass: with what it gave, where that can be
    /// used, else with the messages as they were. Where the pass failed the
    /// messages count as written anew.
    pub open spec fn after_forced_pass(self, result: Result<CompactionResult, String>) -> Engine {
        match result {
            Ok(c) => if usable(c.messages@, self.session.messages@) {
                self.with_compacted(c)
            } else {
                self.with_summary(c.merged)
            },
            Err(_) => Engine {
                session: Session {
                    messages_revision: next_revision(self.session.messages_revision),
                    ..self.session
                },
                ..self
            },
        }
    }

    fn cut_and_count<F: Fn(&Vec<Message>) -> usize>(&mut self, budget: usize, estimate: &F) -> (r: (
        usize,
        usize,
    ))
        requires
            system_estimate(opt_prompt(old(self).session.system_prompt)) <= usize::MAX,
            forall|m: &Vec<Message>| #[trigger] call_requires(estimate, (m,)),
        ensures
            cut_and_counted(
                *estimate,
                budget,
                (old(self).session, old(self).token_estimate_cache@),
                (final(self).session, final(self).token_estimate_cache@),
                r.0,
                r.1,
            ),
            final(self).session.messages@ == old(self).session.messages@.skip(r.0 as int),
            final(self).session.same_but_messages(old(self).session),
            *final(self) == (Engine {
                session: final(self).session,
                token_estimate_cache: final(self).token_estimate_cache,
                ..*old(self)
            }),
    {
        let trimmed = self.trim_oldest_messages_to_budget(budget, estimate);
        let ghost mid = self.token_estimate_cache@;
        let ghost first = (old(self).session, old(self).token_estimate_cache@);
        let ghost session = self.session;
        let ghost states = choose|states: Seq<(Session, CacheView)>|
            {
                &&& #[trigger] drop_trace(*estimate, budget, states)
                &&& states.len() == trimmed + 1
                &&& states[0] == first
                &&& states.last().0 == session
                &&& drops_ended(*estimate, session, states.last().1, budget, mid)
            };
        let after_tokens = self.estimated_input_tokens(estimate);
        proof {
            let after = (self.session, self.token_estimate_cache@);
            assert(drop_trace(*estimate, budget, states));
            assert(states[0] == first);
            assert(states.last().0 == after.0);
            assert(drops_ended(*estimate, after.0, states.last().1, budget, mid));
            assert(estimates(*estimate, mid, after.0, after_tokens, after.1));
            assert(cut_and_counted(*estimate, budget, first, after, trimmed, after_tokens));
        }
        (trimmed, after_tokens)
    }

    fn take_over_forced_pass(&mut self, result: Result<CompactionResult, String>) -> (r: (
        Vec<Event>,
        u32,
    ))
        ensures
            *final(self) == old(self).after_forced_pass(result),
            event_views(r.0@) == pass_events(
                match result {
                    Ok(_) => None,
                    Err(e) => Some(e@),
                },
            ),
            r.1 == (match result {
                Ok(c) => c.retries_used,
                Err(_) => 0u32,
            }),
    {
        let mut events = no_events();
        match result {
            Ok(c) => {
                if c.messages.len() > 0 || self.session.messages.len() == 0 {
                    self.session.replace_messages(c.messages);
                }
                self.merge_compaction_summary(c.merged);
                proof {
                    assert(event_views(events@) =~= Seq::<EventView>::empty());
                }
                (events, c.retries_used)
            },
            Err(e) => {
                let mut text = concat("Emergency compaction API pass failed: ", e.as_str());
                text.append(". Falling back to local trim.");
                tell(&mut events, Event::status(text));
                self.session.bump_messages_revision();
                proof {
                    assert(event_views(events@) =~= pass_events(Some(e@)));
                }
                (events, 0)
            },
        }
    }

    /// Ends the recovery: takes over what the forced pass gave, drops the oldest
    /// messages as far as that was not enough, and tells whether the context now
    /// fits.
    pub fn finish_recovery<F: Fn(&Vec<Message>) -> usize>(
        &mut self,
        plan: Recovery,
        result: Result<CompactionResult, String>,
        estimate: &F,
    ) -> (r: RecoveryOutcome)
        requires
            system_estimate(
                opt_prompt(old(self).after_forced_pass(result).session.system_prompt),
            ) <= usize::MAX,
            forall|m: &Vec<Message>| #[trigger] call_requires(estimate, (m,)),
        ensures
            ({
                let base = old(self).after_forced_pass(result);
                &&& cut_and_counted(
                    *estimate,
                    plan.budget,
                    (base.session, base.token_estimate_cache@),
                    (final(self).session, final(self).token_estimate_cache@),
                    r.trimmed,
                    r.after_tokens,
                )
                &&& final(self).session.messages@ == base.session.messages@.skip(
                    r.trimmed as int,
                )
                &&& *final(self) == (Engine {
                    session: final(self).session,
                    token_estimate_cache: final(self).token_estimate_cache,
                    ..base
                })
                &&& final(self).session.same_but_messages(base.session)
            }),
            r.recovered == has_recovered(
                plan.budget,
                plan.before_tokens,
                plan.before_count,
                r.after_tokens,
                final(self).session.messages@.len(),
                r.trimmed,
            ),
            result matches Ok(c) ==> c.messages@.len() > 0 ==> final(self).session.messages@
                == c.messages@.skip(r.trimmed as int),
            result matches Ok(c) ==> c.messages@.len() == 0 ==> final(self).session.messages@
                == old(self).session.messages@.skip(r.trimmed as int),
            result is Err ==> final(self).session.messages@ == old(self).session.messages@.skip(
                r.trimmed as int,
            ),
            final(self).session.messages@.len() <= 4 || r.after_tokens <= plan.budget,
            event_views(r.events@) == recovery_events(
                plan,
                match result {
                    Ok(_) => None,
                    Err(e) => Some(e@),
                },
                match result {
                    Ok(c) => c.retries_used,
                    Err(_) => 0,
                },
                r.recovered,
                r.after_tokens,
                final(self).session.messages@.len(),
                r.trimmed,
                summary_text(opt_prompt(final(self).session.compaction_summary_prompt)),
                final(self).session,
            ),
    {
        let ghost base = self.after_forced_pass(result);
        let ghost failure = match &result {
            Ok(_) => None,
            Err(e) => Some(e@),
        };
        let ghost given = *self;
        let ghost outcome = result;
        let (mut events, retries) = self.take_over_forced_pass(result);
        let (trimmed, after_tokens) = self.cut_and_count(plan.budget, estimate);
        proof {
            law_recovery_keeps_the_newest_of_the_pass(
                given,
                outcome,
                *estimate,
                plan.budget,
                (self.session, self.token_estimate_cache@),
                trimmed,
                after_tokens,
            );
        }
        tell(&mut events, Event::session_updated(&self.session));
        let after_count: usize = self.session.messages.len();
        let recovered = after_tokens <= plan.budget && (after_tokens < plan.before_tokens
            || after_count < plan.before_count || trimmed > 0);
        let summary_prompt = self.rendered_compaction_summary();
        let ghost told = event_views(events@);
        tell_recovery(
            &mut events,
            plan,
            retries,
            recovered,
            after_tokens,
            after_count,
            trimmed,
            summary_prompt,
        );
        proof {
            assert(told =~= pass_events(failure) + seq![session_told(self.session)]);
        }
        RecoveryOutcome { recovered, after_tokens, trimmed, events }
    }
}

/// A recovery goes on from the messages of the forced pass where it gave some, and
/// from those of before where it failed or gave none. Of them the oldest are
/// dropped, the newest few stay, and more than those stay only where the request
/// fits the budget.
pub proof fn law_recovery_keeps_the_newest_of_the_pass<F: Fn(&Vec<Message>) -> usize>(
    engine: Engine,
    result: Result<CompactionResult, String>,
    estimate: F,
    budget: usize,
    after: (Session, CacheView),
    trimmed: usize,
    tokens: usize,
)
    requires
        ({
            let base = engine.after_forced_pass(result);
            cut_and_counted(
                estimate,
                budget,
                (base.session, base.token_estimate_cache@),
                after,
                trimmed,
                tokens,
            )
        }),
    ensures
        result matches Ok(c) ==> c.messages@.len() > 0 ==> after.0.messages@ == c.messages@.skip(
            trimmed as int,
        ) && trimmed <= c.messages@.len(),
        result matches Ok(c) ==> c.messages@.len() == 0 ==> after.0.messages@
            == engine.session.messages@.skip(trimmed as int),
        result is Err ==> after.0.messages@ == engine.session.messages@.skip(trimmed as int),
        trimmed > 0 ==> after.0.messages@.len() >= 4,
        after.0.messages@.len() <= 4 || tokens <= budget,
        after.0.model == engine.session.model,
        after.0.id == engine.session.id,
        after.0.workspace == engine.session.workspace,
        after.0.total_usage == engine.session.total_usage,
        result is Err ==> after.0.system_prompt == engine.session.system_prompt,
{
    let base = engine.after_forced_pass(result);
    let before = (base.session, base.token_estimate_cache@);
    let (states, cache) = choose|states: Seq<(Session, CacheView)>, cache: CacheView|
        {
            &&& #[trigger] drop_trace(estimate, budget, states)
            &&& states.len() == trimmed + 1
            &&& states[0] == before
            &&& states.last().0 == after.0
            &&& drops_ended(estimate, after.0, states.last().1, budget, cache)
            &&& #[trigger] estimates(estimate, cache, after.0, tokens, after.1)
        };
    law_newest_messages_stay(estimate, budget, states);
    if let Ok(c) = result {
        if c.messages@.len() == 0 && engine.session.messages@.len() == 0 {
            assert(c.messages@ =~= engine.session.messages@);
        }
    }
    if after.0.messages@.len() > 4 {
        let fits = choose|t: usize|
            #[trigger] estimates(estimate, states.last().1, after.0, t, cache) && t <= budget;
        assert(tokens == fits);
    }
}

/// A recovery never counts as one while the context is over its budget, or when
/// nothing of it went.
pub proof fn law_recovery_is_real(
    budget: usize,
    before_tokens: usize,
    before_count: usize,
    after_tokens: usize,
    after_count: nat,
    trimmed: usize,
)
    ensures
        has_recovered(budget, before_tokens, before_count, after_tokens, after_count, trimmed)
            ==> after_tokens <= budget,
        !has_recovered(
            budget,
            before_tokens,
            before_count,
            before_tokens,
            before_count as nat,
            0,
        ),
{
}

// ---------------------------------------------------------------------------
// Summing up in layers
// ---------------------------------------------------------------------------

/// What is done about summing up.
#[derive(Debug)]
pub enum SeamStep {
    /// Nothing.
    Skip,
    /// The first `end` messages are summed up at a level.
    Produce { level: u8, end: usize, status: String },
}

/// What is told when summing up begins.
pub open spec fn seam_started_text(level: u8, end: nat) -> Seq<char> {
    "⏻ producing L"@ + decimal(level as nat) + " context seam ("@ + decimal(end) + " messages)…"@
}

/// What is told when summing up is done.
pub open spec fn seam_done_text(level: u8, count: nat, end: nat) -> Seq<char> {
    "⏻ L"@ + decimal(level as nat) + " seam complete ("@ + decimal(count) + " total, "@ + decimal(
        end,
    ) + " messages covered)"@
}

/// How a summary was to be made: from the messages, or from earlier summaries.
#[derive(Debug, Clone, Copy, PartialEq, Eq, Structural)]
pub enum SeamWay {
    Fresh,
    Again,
}

/// How a summary is made: anew where there is none yet.
pub fn seam_way(existing: usize) -> (r: SeamWay)
    ensures
        r == (if existing == 0 {
            SeamWay::Fresh
        } else {
            SeamWay::Again
        }),
{
    if existing == 0 {
        SeamWay::Fresh
    } else {
        SeamWay::Again
    }
}

/// What is noted where a summary could not be made.
pub open spec fn seam_failed_text(way: SeamWay, level: u8, error: Seq<char>) -> Seq<char> {
    "L"@ + decimal(level as nat) + (match way {
        SeamWay::Fresh => " soft seam failed: "@,
        SeamWay::Again => " recompact failed: "@,
    }) + error
}

/// What is noted where a summary could not be made.
pub fn seam_failed_message(way: SeamWay, level: u8, error: &str) -> (r: String)
    ensures
        r@ == seam_failed_text(way, level, error@),
{
    let mut out = "L".to_owned();
    push_decimal(&mut out, level as u64);
    match way {
        SeamWay::Fresh => out.append(" soft seam failed: "),
        SeamWay::Again => out.append(" recompact failed: "),
    }
    out.append(error);
    out
}

impl Engine {
    /// Decides whether a part of the context is summed up. `level` is the level
    /// that the estimate calls for, where it calls for one, and
    /// `verbatim_start` the message from which on the text stays as it is.
    pub fn begin_seam(&self, level: Option<u8>, verbatim_start: usize) -> (r: SeamStep)
        ensures
            ({
                let on = self.seam matches Some(s) && s.enabled;
                match r {
                    SeamStep::Skip => !on || level is None || verbatim_start == 0,
                    SeamStep::Produce { level: l, end, status } => on && level == Some(l)
                        && verbatim_start > 0 && end == verbatim_start && status@
                        == seam_started_text(l, end as nat),
                }
            }),
    {
        let on = match &self.seam {
            Some(s) => s.enabled,
            None => false,
        };
        if !on {
            return SeamStep::Skip;
        }
        let level = match level {
            Some(l) => l,
            None => return SeamStep::Skip,
        };
        if verbatim_start == 0 {
            return SeamStep::Skip;
        }
        let mut status = "⏻ producing L".to_owned();
        push_decimal(&mut status, level as u64);
        status.append(" context seam (");
        push_usize(&mut status, verbatim_start);
        status.append(" messages)…");
        SeamStep::Produce { level, end: verbatim_start, status }
    }

    /// Adds a summary to the conversation. A summary without text changes
    /// nothing.
    pub fn finish_seam(&mut self, level: u8, end: usize, text: String, seam_count: usize) -> (r:
        Vec<Event>)
        ensures
            if text@.len() == 0 {
                *final(self) == *old(self) && event_views(r@) == Seq::<EventView>::empty()
            } else {
                &&& final(self).session.messages@.len() == old(self).session.messages@.len() + 1
                &&& final(self).session.messages@.drop_last() == old(self).session.messages@
                &&& final(self).session.messages@.last().role@ == "assistant"@
                &&& final(self).session.messages@.last().content@ == seq![
                    ContentBlock::Text { text, cache_control: None },
                ]
                &&& final(self).session.messages_revision == next_revision(
                    old(self).session.messages_revision,
                )
                &&& final(self).session.same_but_messages(old(self).session)
                &&& *final(self) == (Engine { session: final(self).session, ..*old(self) })
                &&& event_views(r@) == seq![
                    session_told(final(self).session),
                    EventView::Status(seam_done_text(level, seam_count as nat, end as nat)),
                ]
            },
    {
        let mut events = no_events();
        if text.as_str().is_empty() {
            return events;
        }
        let content: Vec<ContentBlock> = vec![text_block(text)];
        let ghost before = self.session.messages@;
        self.session.add_message(Message { role: "assistant".to_owned(), content });
        tell(&mut events, Event::session_updated(&self.session));
        let mut status = "⏻ L".to_owned();
        push_decimal(&mut status, level as u64);
        status.append(" seam complete (");
        push_usize(&mut status, seam_count);
        status.append(" total, ");
        push_usize(&mut status, end);
        status.append(" messages covered)");
        tell(&mut events, Event::status(status));
        proof {
            assert(self.session.messages@.drop_last() =~= before);
            assert(self.session.messages@.last().content@ =~= seq![
                ContentBlock::Text { text, cache_control: None },
            ]);
            assert(event_views(events@) =~= seq![
                session_told(self.session),
                EventView::Status(seam_done_text(level, seam_count as nat, end as nat)),
            ]);
        }
        events
    }
}

} // verus!
