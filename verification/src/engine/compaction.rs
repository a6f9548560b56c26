//! Making the context shorter: at the user's wish, by a purge, when it has grown
//! over its limit, and by layers.

use crate::context::{system_estimate, MIN_RECENT_MESSAGES_TO_KEEP};
use crate::engine::prompt::summary_text;
use crate::engine::state::Engine;
use crate::events::{
    event_views, no_events, session_told, tell, turn_over_view, Event, EventView, FailureKind,
};
use crate::models::{opt_prompt, Message, SystemPrompt};
use crate::ops::TurnOutcomeStatus;
use crate::session::{next_revision, Session};
use crate::text::{concat, decimal, opt_text, push_decimal, push_usize};
use crate::token_estimate_cache::{after_hit, after_miss, fingerprint, is_hit, CacheView};
use vstd::prelude::*;

verus! {

/// What a pass over the context came to. `merged` holds the summaries so far and
/// the prompt, each with the new summary, where there is one.
#[derive(Debug)]
pub struct CompactionResult {
    pub messages: Vec<Message>,
    pub retries_used: u32,
    pub merged: Option<(Option<SystemPrompt>, Option<SystemPrompt>)>,
}

/// What is told at the end of a pass.
pub open spec fn completed_text(before: nat, after: nat, retries: u32) -> Seq<char> {
    let removed = if before >= after {
        (before - after) as nat
    } else {
        0nat
    };
    "Compaction complete: "@ + decimal(before) + " → "@ + decimal(after) + " messages ("@ + decimal(
        removed,
    ) + " removed"@ + (if retries > 0 {
        ", "@ + decimal(retries as nat) + " retries)"@
    } else {
        ")"@
    })
}

fn completed_message(before: usize, after: usize, retries: u32) -> (r: String)
    ensures
        r@ == completed_text(before as nat, after as nat, retries),
{
    let removed: usize = if before >= after {
        before - after
    } else {
        0
    };
    let mut out = "Compaction complete: ".to_owned();
    push_usize(&mut out, before);
    out.append(" → ");
    push_usize(&mut out, after);
    out.append(" messages (");
    push_usize(&mut out, removed);
    out.append(" removed");
    let mut tail = ")".to_owned();
    if retries > 0 {
        tail = ", ".to_owned();
        push_decimal(&mut tail, retries as u64);
        tail.append(" retries)");
    }
    out.append(tail.as_str());
    out
}

/// What is told at the end of a purge.
pub open spec fn purged_text(before: nat, after: nat, removed: nat, replaced: nat) -> Seq<char> {
    "Purge complete: "@ + decimal(before) + " → "@ + decimal(after) + " messages ("@ + decimal(
        removed,
    ) + " removed, "@ + decimal(replaced) + " condensed)"@
}

fn purged_message(before: usize, after: usize, removed: usize, replaced: usize) -> (r: String)
    ensures
        r@ == purged_text(before as nat, after as nat, removed as nat, replaced as nat),
{
    let mut out = "Purge complete: ".to_owned();
    push_usize(&mut out, before);
    out.append(" → ");
    push_usize(&mut out, after);
    out.append(" messages (");
    push_usize(&mut out, removed);
    out.append(" removed, ");
    push_usize(&mut out, replaced);
    out.append(" condensed)");
    out
}

/// What a purge came to.
#[derive(Debug)]
pub struct PurgeResult {
    pub messages: Vec<Message>,
    pub removed_count: usize,
    pub replaced_count: usize,
}

/// What is told where nothing can be done for want of a client.
pub open spec fn unavailable(first: EventView, message: Seq<char>) -> Seq<EventView> {
    seq![
        first,
        EventView::Error(FailureKind::FatalAuth, message),
        turn_over_view(TurnOutcomeStatus::Failed, Some(message)),
    ]
}

/// Whether a pass gave something to go on with: messages, or nothing where
/// nothing was there.
pub open spec fn usable(result: Seq<Message>, current: Seq<Message>) -> bool {
    result.len() > 0 || current.len() == 0
}

impl Engine {
    /// Begins to make the context shorter at the user's wish. Without a client
    /// the turn is over.
    pub fn begin_manual_compaction(&self, id: &str) -> (r: (bool, Vec<Event>))
        ensures
            r.0 == (self.client.connected is Some),
            event_views(r.1@) == (if self.client.connected is Some {
                seq![
                    EventView::CompactionStarted {
                        id: id@,
                        auto: false,
                        message: "Manual context compaction started"@,
                    },
                ]
            } else {
                let message = "Manual compaction unavailable: API client not configured"@;
                unavailable(
                    EventView::CompactionFailed { id: id@, auto: false, message },
                    message,
                )
            }),
    {
        let mut events = no_events();
        if self.client.connected.is_none() {
            let message = "Manual compaction unavailable: API client not configured".to_owned();
            tell(
                &mut events,
                Event::CompactionFailed {
                    id: id.to_owned(),
                    auto: false,
                    message: message.clone(),
                },
            );
            tell(&mut events, Event::error(FailureKind::FatalAuth, message.clone()));
            tell(&mut events, Event::turn_over(TurnOutcomeStatus::Failed, Some(message)));
            proof {
                assert(event_views(events@) =~= unavailable(
                    EventView::CompactionFailed { id: id@, auto: false, message: message@ },
                    message@,
                ));
            }
            return (false, events);
        }
        tell(
            &mut events,
            Event::CompactionStarted {
                id: id.to_owned(),
                auto: false,
                message: "Manual context compaction started".to_owned(),
            },
        );
        proof {
            assert(event_views(events@) =~= seq![
                EventView::CompactionStarted {
                    id: id@,
                    auto: false,
                    message: "Manual context compaction started"@,
                },
            ]);
        }
        (true, events)
    }

    /// The engine with other messages and a summary of what was cut away.
    pub open spec fn with_compacted(self, result: CompactionResult) -> Engine {
        (Engine {
            session: Session {
                messages: result.messages,
                messages_revision: next_revision(self.session.messages_revision),
                ..self.session
            },
            ..self
        }).with_summary(result.merged)
    }

    /// Ends the pass: takes over what it gave, and tells how much was cut away.
    /// A pass that gave nothing, or failed, leaves the context as it was.
    pub fn finish_manual_compaction(
        &mut self,
        id: &str,
        result: Result<CompactionResult, String>,
    ) -> (r: Vec<Event>)
        ensures
            result matches Ok(c) ==> c.messages@.len() > 0 ==> final(self).session.messages@
                == c.messages@,
            result matches Ok(c) ==> c.messages@.len() == 0 && old(self).session.messages@.len() > 0
                ==> *final(self) == *old(self),
            result is Err ==> *final(self) == *old(self),
            match result {
                Ok(c) => if usable(c.messages@, old(self).session.messages@) {
                    &&& *final(self) == old(self).with_compacted(c)
                    &&& event_views(r@) == seq![
                        session_told(final(self).session),
                        EventView::CompactionCompleted {
                            id: id@,
                            auto: false,
                            message: completed_text(
                                old(self).session.messages@.len(),
                                c.messages@.len(),
                                c.retries_used,
                            ),
                            messages_before: Some(old(self).session.messages@.len() as usize),
                            messages_after: Some(c.messages@.len() as usize),
                            summary_prompt: summary_text(
                                opt_prompt(final(self).session.compaction_summary_prompt),
                            ),
                        },
                        turn_over_view(TurnOutcomeStatus::Completed, None),
                    ]
                } else {
                    let message = "Compaction skipped: produced empty result"@;
                    &&& *final(self) == *old(self)
                    &&& event_views(r@) == seq![
                        EventView::CompactionFailed { id: id@, auto: false, message },
                        turn_over_view(TurnOutcomeStatus::Failed, Some(message)),
                    ]
                },
                Err(e) => {
                    let message = "Manual context compaction failed: "@ + e@;
                    &&& *final(self) == *old(self)
                    &&& event_views(r@) == seq![
                        EventView::CompactionFailed { id: id@, auto: false, message },
                        EventView::Status(message),
                        turn_over_view(TurnOutcomeStatus::Failed, Some(message)),
                    ]
                },
            },
    {
        let mut events = no_events();
        match result {
            Ok(c) => {
                if c.messages.len() > 0 || self.session.messages.len() == 0 {
                    let before: usize = self.session.messages.len();
                    let after: usize = c.messages.len();
                    let retries = c.retries_used;
                    self.session.replace_messages(c.messages);
                    self.merge_compaction_summary(c.merged);
                    tell(&mut events, Event::session_updated(&self.session));
                    let message = completed_message(before, after, retries);
                    let summary_prompt = self.rendered_compaction_summary();
                    let ghost told = EventView::CompactionCompleted {
                        id: id@,
                        auto: false,
                        message: message@,
                        messages_before: Some(before),
                        messages_after: Some(after),
                        summary_prompt: opt_text(summary_prompt),
                    };
                    tell(
                        &mut events,
                        Event::CompactionCompleted {
                            id: id.to_owned(),
                            auto: false,
                            message,
                            messages_before: Some(before),
                            messages_after: Some(after),
                            summary_prompt,
                        },
                    );
                    tell(&mut events, Event::turn_over(TurnOutcomeStatus::Completed, None));
                    proof {
                        assert(event_views(events@) =~= seq![
                            session_told(self.session),
                            told,
                            turn_over_view(TurnOutcomeStatus::Completed, None),
                        ]);
                    }
                } else {
                    let message = "Compaction skipped: produced empty result".to_owned();
                    tell(
                        &mut events,
                        Event::CompactionFailed {
                            id: id.to_owned(),
                            auto: false,
                            message: message.clone(),
                        },
                    );
                    tell(&mut events, Event::turn_over(TurnOutcomeStatus::Failed, Some(message)));
                    proof {
                        assert(event_views(events@) =~= seq![
                            EventView::CompactionFailed {
                                id: id@,
                                auto: false,
                                message: message@,
                            },
                            turn_over_view(TurnOutcomeStatus::Failed, Some(message@)),
                        ]);
                    }
                }
            },
            Err(e) => {
                let message = concat("Manual context compaction failed: ", e.as_str());
                tell(
                    &mut events,
                    Event::CompactionFailed {
                        id: id.to_owned(),
                        auto: false,
                        message: message.clone(),
                    },
                );
                tell(&mut events, Event::status(message.clone()));
                tell(&mut events, Event::turn_over(TurnOutcomeStatus::Failed, Some(message)));
                proof {
                    assert(event_views(events@) =~= seq![
                        EventView::CompactionFailed { id: id@, auto: false, message: message@ },
                        EventView::Status(message@),
                        turn_over_view(TurnOutcomeStatus::Failed, Some(message@)),
                    ]);
                }
            },
        }
        events
    }

    /// Begins a purge. Without a client the turn is over.
    pub fn begin_purge(&self) -> (r: (bool, Vec<Event>))
        ensures
            r.0 == (self.client.connected is Some),
            event_views(r.1@) == (if self.client.connected is Some {
                seq![EventView::PurgeStarted("Agent context purge in progress\u{2026}"@)]
            } else {
                let message = "Purge unavailable: API client not configured"@;
                unavailable(EventView::PurgeFailed(message), message)
            }),
    {
        let mut events = no_events();
        if self.client.connected.is_none() {
            let message = "Purge unavailable: API client not configured".to_owned();
            tell(&mut events, Event::PurgeFailed { message: message.clone() });
            tell(&mut events, Event::error(FailureKind::FatalAuth, message.clone()));
            tell(&mut events, Event::turn_over(TurnOutcomeStatus::Failed, Some(message)));
            proof {
                assert(event_views(events@) =~= unavailable(
                    EventView::PurgeFailed(message@),
                    message@,
                ));
            }
            return (false, events);
        }
        tell(
            &mut events,
            Event::PurgeStarted {
                message: "Agent context purge in progress\u{2026}".to_owned(),
            },
        );
        proof {
            assert(event_views(events@) =~= seq![
                EventView::PurgeStarted("Agent context purge in progress\u{2026}"@),
            ]);
        }
        (true, events)
    }

    /// Ends a purge: takes over what it left, or tells why it failed.
    pub fn finish_purge(&mut self, result: Result<PurgeResult, String>) -> (r: Vec<Event>)
        ensures
            match result {
                Ok(p) => {
                    let before = old(self).session.messages@.len();
                    let after = p.messages@.len();
                    &&& *final(self) == (Engine {
                        session: Session {
                            messages: p.messages,
                            messages_revision: next_revision(
                                old(self).session.messages_revision,
                            ),
                            ..old(self).session
                        },
                        ..*old(self)
                    })
                    &&& event_views(r@) == seq![
                        session_told(final(self).session),
                        EventView::PurgeCompleted {
                            messages_before: before as usize,
                            messages_after: after as usize,
                            removed_count: p.removed_count,
                            replaced_count: p.replaced_count,
                            message: purged_text(
                                before,
                                after,
                                p.removed_count as nat,
                                p.replaced_count as nat,
                            ),
                        },
                        turn_over_view(TurnOutcomeStatus::Completed, None),
                    ]
                },
                Err(e) => {
                    &&& *final(self) == *old(self)
                    &&& event_views(r@) == seq![
                        EventView::PurgeFailed(e@),
                        turn_over_view(TurnOutcomeStatus::Failed, Some(e@)),
                    ]
                },
            },
    {
        let mut events = no_events();
        match result {
            Ok(p) => {
                let before: usize = self.session.messages.len();
                let after: usize = p.messages.len();
                let removed = p.removed_count;
                let replaced = p.replaced_count;
                self.session.replace_messages(p.messages);
                tell(&mut events, Event::session_updated(&self.session));
                let message = purged_message(before, after, removed, replaced);
                let ghost told = EventView::PurgeCompleted {
                    messages_before: before,
                    messages_after: after,
                    removed_count: removed,
                    replaced_count: replaced,
                    message: message@,
                };
                tell(
                    &mut events,
                    Event::PurgeCompleted {
                        messages_before: before,
                        messages_after: after,
                        removed_count: removed,
                        replaced_count: replaced,
                        message,
                    },
                );
                tell(&mut events, Event::turn_over(TurnOutcomeStatus::Completed, None));
                proof {
                    assert(event_views(events@) =~= seq![
                        session_told(self.session),
                        told,
                        turn_over_view(TurnOutcomeStatus::Completed, None),
                    ]);
                }
            },
            Err(e) => {
                tell(&mut events, Event::PurgeFailed { message: e.clone() });
                tell(&mut events, Event::turn_over(TurnOutcomeStatus::Failed, Some(e)));
                proof {
                    assert(event_views(events@) =~= seq![
                        EventView::PurgeFailed(e@),
                        turn_over_view(TurnOutcomeStatus::Failed, Some(e@)),
                    ]);
                }
            },
        }
        events
    }
}

// ---------------------------------------------------------------------------
// A context that has grown over its limit
// ---------------------------------------------------------------------------

/// An estimate of a request, made with the cache or anew.
pub open spec fn estimates<F: Fn(&Vec<Message>) -> usize>(
    estimate: F,
    cache: CacheView,
    session: Session,
    tokens: usize,
    after: CacheView,
) -> bool {
    let system = opt_prompt(session.system_prompt);
    let print = fingerprint(system);
    if is_hit(cache, session.messages_revision, print) {
        Some(tokens) == cache.cached_tokens && after == after_hit(cache)
    } else {
        after == after_miss(cache, session.messages_revision, print, tokens) && exists|n: usize|
            #[trigger] call_ensures(estimate, (&session.messages,), n) && tokens
                == crate::context::input_estimate(
                n as int,
                session.messages@.len() as int,
                system,
            )
    }
}

/// A session without its oldest message.
pub open spec fn oldest_dropped(before: Session, after: Session) -> bool {
    &&& before.messages@.len() > 0
    &&& after.messages@ == before.messages@.skip(1)
    &&& after.messages_revision == next_revision(before.messages_revision)
    &&& after.same_but_messages(before)
}

/// One message was dropped, because the request was estimated over the budget
/// and more than the newest few were left.
pub open spec fn drop_step<F: Fn(&Vec<Message>) -> usize>(
    estimate: F,
    budget: usize,
    before: (Session, CacheView),
    after: (Session, CacheView),
) -> bool {
    &&& before.0.messages@.len() > MIN_RECENT_MESSAGES_TO_KEEP
    &&& exists|tokens: usize|
        #[trigger] estimates(estimate, before.1, before.0, tokens, after.1) && tokens > budget
    &&& oldest_dropped(before.0, after.0)
}

/// The states through which messages are dropped one after the other.
pub open spec fn drop_trace<F: Fn(&Vec<Message>) -> usize>(
    estimate: F,
    budget: usize,
    states: Seq<(Session, CacheView)>,
) -> bool {
    &&& states.len() > 0
    &&& forall|i: int|
        #![trigger states[i]]
        0 <= i < states.len() - 1 ==> drop_step(estimate, budget, states[i], states[i + 1])
}

/// What was dropped are the oldest messages, and the newest few stay.
pub proof fn law_newest_messages_stay<F: Fn(&Vec<Message>) -> usize>(
    estimate: F,
    budget: usize,
    states: Seq<(Session, CacheView)>,
)
    requires
        drop_trace(estimate, budget, states),
    ensures
        ({
            let k = states.len() - 1;
            let first = states[0].0;
            let last = states.last().0;
            &&& k <= first.messages@.len()
            &&& last.messages@ == first.messages@.skip(k)
            &&& k > 0 ==> last.messages@.len() >= MIN_RECENT_MESSAGES_TO_KEEP
            &&& last.same_but_messages(first)
        }),
    decreases states.len(),
{
    let k = states.len() - 1;
    if k > 0 {
        let shorter = states.drop_last();
        assert forall|i: int| #![trigger shorter[i]] 0 <= i < shorter.len() - 1 implies drop_step(
            estimate,
            budget,
            shorter[i],
            shorter[i + 1],
        ) by {
            assert(states[i] == shorter[i]);
            assert(states[i + 1] == shorter[i + 1]);
        }
        law_newest_messages_stay(estimate, budget, shorter);
        assert(shorter.last() == states[k - 1]);
        assert(drop_step(estimate, budget, states[k - 1], states[k - 1 + 1]));
        let all = states[0].0.messages@;
        assert(all.skip(k - 1).skip(1) =~= all.skip(k));
    } else {
        assert(states[0].0.messages@.skip(0) =~= states[0].0.messages@);
    }
}

/// The drops ended: only the newest few are left, or the request is estimated
/// within the budget.
pub open spec fn drops_ended<F: Fn(&Vec<Message>) -> usize>(
    estimate: F,
    session: Session,
    cache: CacheView,
    budget: usize,
    cache_after: CacheView,
) -> bool {
    if session.messages@.len() <= MIN_RECENT_MESSAGES_TO_KEEP {
        cache_after == cache
    } else {
        exists|tokens: usize|
            #[trigger] estimates(estimate, cache, session, tokens, cache_after) && tokens
                <= budget
    }
}

impl Engine {
    /// The estimate of the next request.
    pub fn estimated_input_tokens<F: Fn(&Vec<Message>) -> usize>(&mut self, estimate: &F) -> (r:
        usize)
        requires
            system_estimate(opt_prompt(old(self).session.system_prompt)) <= usize::MAX,
            forall|m: &Vec<Message>| #[trigger] call_requires(estimate, (m,)),
        ensures
            estimates(
                *estimate,
                old(self).token_estimate_cache@,
                old(self).session,
                r,
                final(self).token_estimate_cache@,
            ),
            *final(self) == (Engine {
                token_estimate_cache: final(self).token_estimate_cache,
                ..*old(self)
            }),
    {
        let r = match &self.session.system_prompt {
            Some(p) => self.token_estimate_cache.lookup_or_compute(
                self.session.messages_revision,
                Some(p),
                &self.session.messages,
                estimate,
            ),
            None => self.token_estimate_cache.lookup_or_compute(
                self.session.messages_revision,
                None,
                &self.session.messages,
                estimate,
            ),
        };
        r
    }

    /// Drops the oldest messages until the next request is estimated within a
    /// budget, and keeps the newest few in any case. Gives how many were dropped.
    pub fn trim_oldest_messages_to_budget<F: Fn(&Vec<Message>) -> usize>(
        &mut self,
        budget: usize,
        estimate: &F,
    ) -> (r: usize)
        requires
            system_estimate(opt_prompt(old(self).session.system_prompt)) <= usize::MAX,
            forall|m: &Vec<Message>| #[trigger] call_requires(estimate, (m,)),
        ensures
            exists|states: Seq<(Session, CacheView)>|
                {
                    &&& #[trigger] drop_trace(*estimate, budget, states)
                    &&& states.len() == r + 1
                    &&& states[0] == (old(self).session, old(self).token_estimate_cache@)
                    &&& states.last().0 == final(self).session
                    &&& drops_ended(
                        *estimate,
                        final(self).session,
                        states.last().1,
                        budget,
                        final(self).token_estimate_cache@,
                    )
                },
            final(self).session.messages@ == old(self).session.messages@.skip(r as int),
            r <= old(self).session.messages@.len(),
            r > 0 ==> final(self).session.messages@.len() >= MIN_RECENT_MESSAGES_TO_KEEP,
            final(self).session.same_but_messages(old(self).session),
            *final(self) == (Engine {
                session: final(self).session,
                token_estimate_cache: final(self).token_estimate_cache,
                ..*old(self)
            }),
    {
        let mut removed: usize = 0;
        let ghost mut states: Seq<(Session, CacheView)> = seq![
            (self.session, self.token_estimate_cache@),
        ];
        loop
            invariant_except_break
                states.last() == (self.session, self.token_estimate_cache@),
            invariant
                drop_trace(*estimate, budget, states),
                states.len() == removed + 1,
                states[0] == (old(self).session, old(self).token_estimate_cache@),
                system_estimate(opt_prompt(self.session.system_prompt)) <= usize::MAX,
                forall|m: &Vec<Message>| #[trigger] call_requires(estimate, (m,)),
                *self == (Engine {
                    session: self.session,
                    token_estimate_cache: self.token_estimate_cache,
                    ..*old(self)
                }),
            ensures
                drop_trace(*estimate, budget, states),
                states.len() == removed + 1,
                states[0] == (old(self).session, old(self).token_estimate_cache@),
                states.last().0 == self.session,
                drops_ended(
                    *estimate,
                    self.session,
                    states.last().1,
                    budget,
                    self.token_estimate_cache@,
                ),
                *self == (Engine {
                    session: self.session,
                    token_estimate_cache: self.token_estimate_cache,
                    ..*old(self)
                }),
            decreases self.session.messages@.len(),
        {
            if self.session.messages.len() <= MIN_RECENT_MESSAGES_TO_KEEP {
                break;
            }
            let ghost before = states.last();
            let tokens = self.estimated_input_tokens(estimate);
            if tokens <= budget {
                break;
            }
            let ghost s0 = self.session;
            let ghost c0 = self.token_estimate_cache@;
            assert(estimates(*estimate, before.1, before.0, tokens, c0));
            self.session.messages.remove(0);
            self.session.bump_messages_revision();
            proof {
                assert(self.session.messages@ =~= s0.messages@.skip(1));
                let after = (self.session, self.token_estimate_cache@);
                assert(oldest_dropped(before.0, after.0));
                assert(after.1 == c0);
                assert(before.0.messages@.len() > MIN_RECENT_MESSAGES_TO_KEEP);
                assert(estimates(*estimate, before.1, before.0, tokens, after.1));
                assert(tokens > budget);
                assert(drop_step(*estimate, budget, before, after));
                let longer = states.push(after);
                assert forall|i: int|
                    #![trigger longer[i]]
                    0 <= i < longer.len() - 1 implies drop_step(
                    *estimate,
                    budget,
                    longer[i],
                    longer[i + 1],
                ) by {
                    if i < states.len() - 1 {
                        assert(longer[i] == states[i]);
                        assert(longer[i + 1] == states[i + 1]);
                    }
                }
                law_newest_messages_stay(*estimate, budget, states);
                states = longer;
            }
            assert(removed < old(self).session.messages.len());
            removed = removed + 1;
        }
        proof {
            law_newest_messages_stay(*estimate, budget, states);
        }
        removed
    }
}

} // verus!
