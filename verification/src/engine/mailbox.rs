//! Which messages of sub-agents are passed on: news that others follow soon are
//! passed on at most once in a while.

use crate::text::same_text;
use vstd::prelude::*;

verus! {

/// How long news of one sub-agent are held back after the last, in nanoseconds.
pub const SUBAGENT_MAILBOX_BEST_EFFORT_MIN_INTERVAL: u128 = 100_000_000;

/// What a message of a sub-agent is about.
#[derive(Debug, Clone, Copy, PartialEq, Eq, Structural)]
pub enum MailboxKind {
    Progress,
    ToolCallStarted,
    ToolCallCompleted,
    Other,
}

/// A message that may be dropped.
pub open spec fn may_be_dropped(kind: MailboxKind) -> bool {
    kind != MailboxKind::Other
}

/// Whether a message may be dropped.
pub fn subagent_mailbox_message_is_best_effort(kind: MailboxKind) -> (r: bool)
    ensures
        r == may_be_dropped(kind),
{
    kind != MailboxKind::Other
}

/// When the last news of each sub-agent was passed on.
#[derive(Debug)]
pub struct SentTimes {
    times: Vec<(String, u128)>,
}

/// The time that a list holds for a name.
pub open spec fn time_of(list: Seq<(Seq<char>, u128)>, agent: Seq<char>, from: int) -> Option<u128>
    decreases list.len() - from,
{
    if from < 0 || from >= list.len() {
        None
    } else if list[from].0 == agent {
        Some(list[from].1)
    } else {
        time_of(list, agent, from + 1)
    }
}

spec fn pairs(list: Seq<(String, u128)>) -> Seq<(Seq<char>, u128)> {
    list.map_values(|p: (String, u128)| (p.0@, p.1))
}

impl SentTimes {
    /// When the last news of a sub-agent was passed on.
    pub closed spec fn last(&self, agent: Seq<char>) -> Option<u128> {
        time_of(pairs(self.times@), agent, 0)
    }

    /// Nothing was passed on yet.
    pub fn new() -> (r: Self)
        ensures
            forall|a: Seq<char>| (#[trigger] r.last(a)) is None,
    {
        SentTimes { times: Vec::new() }
    }

    /// Decides whether a message of a sub-agent is passed on, and notes the time
    /// where it is news.
    pub fn permit(&mut self, kind: MailboxKind, agent: &str, now: u128) -> (r: bool)
        ensures
            r == send_permitted(old(self).last(agent@), kind, now),
            forall|a: Seq<char>| #[trigger]
                final(self).last(a) == (if r && may_be_dropped(kind) && a == agent@ {
                    Some(now)
                } else {
                    old(self).last(a)
                }),
    {
        if !subagent_mailbox_message_is_best_effort(kind) {
            return true;
        }
        let ghost all = pairs(self.times@);
        let mut i: usize = 0;
        while i < self.times.len()
            invariant
                i <= self.times@.len(),
                may_be_dropped(kind),
                self.times@ == old(self).times@,
                all == pairs(old(self).times@),
                time_of(all, agent@, 0) == time_of(all, agent@, i as int),
                forall|k: int| 0 <= k < i ==> (#[trigger] all[k]).0 != agent@,
            decreases self.times@.len() - i,
        {
            assert(all[i as int] == (self.times@[i as int].0@, self.times@[i as int].1));
            if same_text(self.times[i].0.as_str(), agent) {
                let last = self.times[i].1;
                let since: u128 = if now >= last {
                    now - last
                } else {
                    0
                };
                if since < SUBAGENT_MAILBOX_BEST_EFFORT_MIN_INTERVAL {
                    return false;
                }
                let name = self.times[i].0.clone();
                self.times.set(i, (name, now));
                proof {
                    let after = pairs(self.times@);
                    assert(after =~= all.update(i as int, (agent@, now)));
                    assert forall|a: Seq<char>| #[trigger] time_of(after, a, 0) == (if a
                        == agent@ {
                        Some(now)
                    } else {
                        time_of(all, a, 0)
                    }) by {
                        lemma_update(all, i as int, agent@, now, a, 0);
                    }
                }
                return true;
            }
            i += 1;
        }
        self.times.push((agent.to_owned(), now));
        proof {
            let after = pairs(self.times@);
            assert(after =~= all.push((agent@, now)));
            assert forall|a: Seq<char>| #[trigger] time_of(after, a, 0) == (if a == agent@ {
                Some(now)
            } else {
                time_of(all, a, 0)
            }) by {
                lemma_push(all, agent@, now, a, 0);
            }
        }
        true
    }
}

/// A message is passed on where it must be, or where no news of the sub-agent
/// was passed on shortly before.
pub open spec fn send_permitted(last: Option<u128>, kind: MailboxKind, now: u128) -> bool {
    !may_be_dropped(kind) || match last {
        Some(t) => now >= t + SUBAGENT_MAILBOX_BEST_EFFORT_MIN_INTERVAL,
        None => true,
    }
}

proof fn lemma_update(
    all: Seq<(Seq<char>, u128)>,
    i: int,
    agent: Seq<char>,
    now: u128,
    a: Seq<char>,
    from: int,
)
    requires
        0 <= from <= all.len(),
        0 <= i < all.len(),
        all[i].0 == agent,
        forall|k: int| 0 <= k < i ==> (#[trigger] all[k]).0 != agent,
    ensures
        time_of(all.update(i, (agent, now)), a, from) == (if a == agent && from <= i {
            Some(now)
        } else {
            time_of(all, a, from)
        }),
    decreases all.len() - from,
{
    let after = all.update(i, (agent, now));
    if from < all.len() {
        assert(after[from].0 == all[from].0);
        if all[from].0 != a {
            lemma_update(all, i, agent, now, a, from + 1);
        }
    }
}

proof fn lemma_push(
    all: Seq<(Seq<char>, u128)>,
    agent: Seq<char>,
    now: u128,
    a: Seq<char>,
    from: int,
)
    requires
        0 <= from <= all.len(),
        forall|k: int| 0 <= k < all.len() ==> (#[trigger] all[k]).0 != agent,
    ensures
        time_of(all.push((agent, now)), a, from) == (if a == agent {
            Some(now)
        } else {
            time_of(all, a, from)
        }),
    decreases all.len() - from,
{
    let after = all.push((agent, now));
    if from < all.len() {
        assert(after[from] == all[from]);
        if all[from].0 != a {
            lemma_push(all, agent, now, a, from + 1);
        }
    } else {
        assert(after[from] == (agent, now));
        assert(time_of(after, a, from + 1) is None);
    }
}

/// What must not be lost is never held back.
pub proof fn law_important_messages_pass(last: Option<u128>, kind: MailboxKind, now: u128)
    ensures
        !may_be_dropped(kind) ==> send_permitted(last, kind, now),
        last is None ==> send_permitted(last, kind, now),
{
}

} // verus!
