//! Keeping the system prompt as it is for as long as nothing in it changes.

use crate::engine::metadata::{prompt_hash, system_prompt_hash};
use crate::engine::state::Engine;
use crate::models::{opt_prompt, PromptView, SystemPrompt};
use crate::session::Session;
use crate::text::{concat, join, joined, opt_text, push_line, texts, trim, trimmed};
use vstd::prelude::*;

verus! {

/// A prompt with what still has to be done before work is complete. Only a
/// prompt that is one text takes it up.
pub open spec fn with_gate(prompt: Option<PromptView>, gate: Option<Seq<char>>) -> Option<
    PromptView,
> {
    match (prompt, gate) {
        (Some(PromptView::Text(text)), Some(g)) => Some(PromptView::Text(text + "\n\n"@ + g)),
        _ => prompt,
    }
}

fn add_gate(prompt: Option<SystemPrompt>, gate: &Option<String>) -> (r: Option<SystemPrompt>)
    ensures
        opt_prompt(r) == with_gate(opt_prompt(prompt), opt_text(*gate)),
{
    match gate {
        Some(g) => match prompt {
            Some(SystemPrompt::Text(text)) => {
                let mut out = concat(text.as_str(), "\n\n");
                out.append(g.as_str());
                Some(SystemPrompt::Text(out))
            },
            other => other,
        },
        None => prompt,
    }
}

/// An engine after a new prompt: it is taken over where it differs from the last
/// one, and nothing changes where it does not.
pub open spec fn refreshed(
    before: Engine,
    merged: Option<PromptView>,
    gate: Option<Seq<char>>,
    after: Engine,
) -> bool {
    let prompt = with_gate(merged, gate);
    if takes_over(
        before.session.system_prompt_override,
        before.session.last_system_prompt_hash,
        prompt,
    ) {
        &&& opt_prompt(after.session.system_prompt) == prompt
        &&& after == (Engine {
            session: Session {
                system_prompt: after.session.system_prompt,
                last_system_prompt_hash: Some(prompt_hash(prompt)),
                ..before.session
            },
            ..before
        })
    } else {
        after == before
    }
}

impl Engine {
    /// Takes a new prompt over where it differs from the last one. A prompt that
    /// the host set is never replaced. `merged` is the prompt for the settings
    /// with the summary of what was cut away.
    pub fn refresh_system_prompt(&mut self, merged: Option<SystemPrompt>, gate: &Option<String>)
        ensures
            refreshed(*old(self), opt_prompt(merged), opt_text(*gate), *final(self)),
    {
        let prompt = add_gate(merged, gate);
        let hash = match &prompt {
            Some(p) => system_prompt_hash(Some(p)),
            None => system_prompt_hash(None),
        };
        if self.session.system_prompt_override {
            return;
        }
        let same = match self.session.last_system_prompt_hash {
            Some(h) => h == hash,
            None => false,
        };
        if !same {
            self.session.system_prompt = prompt;
            self.session.last_system_prompt_hash = Some(hash);
        }
    }

    /// Takes over a summary of what was cut away. `merged` holds the summaries so
    /// far with it, and the prompt with it; without a summary nothing changes.
    pub fn merge_compaction_summary(
        &mut self,
        merged: Option<(Option<SystemPrompt>, Option<SystemPrompt>)>,
    )
        ensures
            *final(self) == old(self).with_summary(merged),
    {
        match merged {
            None => {},
            Some((summary, prompt)) => {
                let hash = match &prompt {
                    Some(p) => system_prompt_hash(Some(p)),
                    None => system_prompt_hash(None),
                };
                self.session.compaction_summary_prompt = summary;
                self.session.last_system_prompt_hash = Some(hash);
                self.session.system_prompt = prompt;
            },
        }
    }

    /// The engine with a summary of what was cut away.
    pub open spec fn with_summary(
        self,
        merged: Option<(Option<SystemPrompt>, Option<SystemPrompt>)>,
    ) -> Engine {
        match merged {
            None => self,
            Some((summary, prompt)) => Engine {
                session: Session {
                    compaction_summary_prompt: summary,
                    last_system_prompt_hash: Some(prompt_hash(opt_prompt(prompt))),
                    system_prompt: prompt,
                    ..self.session
                },
                ..self
            },
        }
    }

    /// The summary of what was cut away, as one text.
    pub fn rendered_compaction_summary(&self) -> (r: Option<String>)
        ensures
            opt_text(r) == summary_text(opt_prompt(self.session.compaction_summary_prompt)),
    {
        let text = match &self.session.compaction_summary_prompt {
            Some(SystemPrompt::Text(t)) => t.clone(),
            Some(SystemPrompt::Blocks(blocks)) => {
                let ghost all = crate::models::block_views(blocks@);
                let mut parts: Vec<String> = Vec::new();
                let mut i: usize = 0;
                proof {
                    assert(texts(parts@) =~= block_texts(all).take(0));
                }
                while i < blocks.len()
                    invariant
                        i <= blocks@.len(),
                        all == crate::models::block_views(blocks@),
                        texts(parts@) == block_texts(all).take(i as int),
                    decreases blocks@.len() - i,
                {
                    proof {
                        assert(all[i as int] == blocks@[i as int]@);
                        assert(block_texts(all).take(i + 1) =~= block_texts(all).take(
                            i as int,
                        ).push(blocks@[i as int].text@));
                    }
                    push_line(&mut parts, blocks[i].text.clone());
                    i += 1;
                }
                proof {
                    assert(block_texts(all).take(all.len() as int) =~= block_texts(all));
                }
                join(&parts, "\n\n")
            },
            None => return None,
        };
        let bare = trim(text.as_str());
        if bare.as_str().is_empty() {
            None
        } else {
            Some(text)
        }
    }
}

/// The texts of blocks.
pub open spec fn block_texts(blocks: Seq<crate::models::BlockView>) -> Seq<Seq<char>> {
    blocks.map_values(|b: crate::models::BlockView| b.text)
}

/// The summary of what was cut away, as one text; none where it says nothing.
pub open spec fn summary_text(prompt: Option<PromptView>) -> Option<Seq<char>> {
    match prompt {
        None => None,
        Some(p) => {
            let text = match p {
                PromptView::Text(t) => t,
                PromptView::Blocks(blocks) => joined(block_texts(blocks), "\n\n"@),
            };
            if trimmed(text).len() > 0 {
                Some(text)
            } else {
                None
            }
        },
    }
}

/// What still has to be done before work is complete, as it was last read, with
/// the time at which it had last been changed then.
#[derive(Debug)]
pub struct GateCache {
    pub read: Option<(Option<u128>, Option<String>)>,
}

impl GateCache {
    /// What was read, where nothing has been changed since; else it has to be
    /// read again.
    pub fn lookup(&self, modified: Option<u128>) -> (r: Option<Option<String>>)
        ensures
            match self.read {
                Some((at, block)) => if at == modified {
                    r == Some(block)
                } else {
                    r is None
                },
                None => r is None,
            },
    {
        match &self.read {
            Some((at, block)) => {
                let same = match (*at, modified) {
                    (Some(a), Some(b)) => a == b,
                    (None, None) => true,
                    _ => false,
                };
                if same {
                    Some(
                        match block {
                            Some(s) => Some(s.clone()),
                            None => None,
                        },
                    )
                } else {
                    None
                }
            },
            None => None,
        }
    }

    /// Notes what was read. A ledger without open entries, or one that cannot be
    /// read, says nothing.
    pub fn store(&mut self, modified: Option<u128>, summary: Option<String>, has_open: bool)
        ensures
            final(self).read == Some(
                (
                    modified,
                    if has_open {
                        summary
                    } else {
                        None
                    },
                ),
            ),
    {
        self.read = Some(
            (
                modified,
                if has_open {
                    summary
                } else {
                    None
                },
            ),
        );
    }
}

/// A prompt is taken over: the host set none, and it differs from the last.
pub open spec fn takes_over(
    set_by_host: bool,
    last: Option<u64>,
    prompt: Option<PromptView>,
) -> bool {
    !set_by_host && last != Some(prompt_hash(prompt))
}

/// A prompt that comes out the same is not taken over again: the second of two
/// refreshes with one prompt changes nothing.
pub proof fn law_same_prompt_is_kept(
    set_by_host: bool,
    last: Option<u64>,
    next: Option<u64>,
    prompt: Option<PromptView>,
)
    requires
        next == (if takes_over(set_by_host, last, prompt) {
            Some(prompt_hash(prompt))
        } else {
            last
        }),
    ensures
        !takes_over(set_by_host, next, prompt),
{
}

} // verus!
