//! The estimate of a request's size, kept until the request changes.

use crate::context::{estimate_input_tokens_conservative, input_estimate, system_estimate};
use crate::models::{block_views, opt_prompt_ref, BlockView, Message, PromptView, SystemPrompt};
use crate::session::next_revision;
use crate::text::{decimal, decimal_text, push_line, texts};
use std::hash::{Hash, Hasher};
use vstd::prelude::*;

verus! {

/// How many estimates are remembered.
pub const AUDIT_RING_CAPACITY: usize = 64;

/// The digest of a list of texts that the standard hasher computes from its
/// fixed start.
pub uninterp spec fn digest(parts: Seq<Seq<char>>) -> u64;

/// `std::hash::Hash::hash_slice` on strings with `DefaultHasher::new`, whose start
/// is the same each time: the digest is a function of the texts alone.
#[verifier::external_body]
pub(crate) fn digest_of(parts: &Vec<String>) -> (r: u64)
    ensures
        r == digest(texts(parts@)),
{
    let mut hasher = std::collections::hash_map::DefaultHasher::new();
    String::hash_slice(parts.as_slice(), &mut hasher);
    hasher.finish()
}

/// The parts of the first `n` blocks that tell prompts apart.
pub open spec fn block_parts(before: Seq<Seq<char>>, blocks: Seq<BlockView>, n: nat) -> Seq<
    Seq<char>,
>
    decreases n,
{
    if n == 0 {
        before
    } else {
        block_parts(before, blocks, (n - 1) as nat).push(blocks[n - 1].block_type).push(
            blocks[n - 1].text,
        )
    }
}

/// The parts of a prompt that tell it apart: how its blocks are cached is not
/// among them.
pub open spec fn prompt_parts(prompt: PromptView) -> Seq<Seq<char>> {
    match prompt {
        PromptView::Text(text) => seq!["text"@, text],
        PromptView::Blocks(blocks) => block_parts(
            seq!["blocks"@, decimal(blocks.len())],
            blocks,
            blocks.len(),
        ),
    }
}

/// The fingerprint of a prompt; none has the fingerprint zero.
pub open spec fn fingerprint(prompt: Option<PromptView>) -> u64 {
    match prompt {
        Some(p) => digest(prompt_parts(p)),
        None => 0,
    }
}

/// The fingerprint of a prompt.
pub fn fingerprint_system_prompt(system: Option<&SystemPrompt>) -> (r: u64)
    ensures
        r == fingerprint(opt_prompt_ref(system)),
{
    match system {
        None => 0,
        Some(SystemPrompt::Text(text)) => {
            let parts = vec!["text".to_owned(), text.clone()];
            proof {
                assert(texts(parts@) =~= seq!["text"@, text@]);
            }
            digest_of(&parts)
        },
        Some(SystemPrompt::Blocks(blocks)) => {
            let ghost all = block_views(blocks@);
            let mut parts = vec!["blocks".to_owned(), decimal_text(blocks.len() as u64)];
            let ghost head = seq!["blocks"@, decimal(all.len())];
            let mut i: usize = 0;
            proof {
                assert(texts(parts@) =~= head);
            }
            while i < blocks.len()
                invariant
                    i <= blocks@.len(),
                    all == block_views(blocks@),
                    texts(parts@) == block_parts(head, all, i as nat),
                decreases blocks@.len() - i,
            {
                assert(all[i as int] == blocks@[i as int]@);
                push_line(&mut parts, blocks[i].block_type.clone());
                push_line(&mut parts, blocks[i].text.clone());
                i += 1;
            }
            digest_of(&parts)
        },
    }
}

/// What the cache holds, as contracts see it.
#[verifier::ext_equal]
pub struct CacheView {
    pub messages_revision: u64,
    pub system_fingerprint: u64,
    pub cached_tokens: Option<usize>,
    pub audit_ring: Seq<(u64, usize)>,
    pub hits: u64,
    pub misses: u64,
}

/// The estimate of a request's size, kept until the messages or the system
/// prompt change.
#[derive(Debug, Clone)]
pub struct TokenEstimateCache {
    messages_revision: u64,
    system_fingerprint: u64,
    cached_tokens: Option<usize>,
    audit_ring: Vec<(u64, usize)>,
    hits: u64,
    misses: u64,
}

impl View for TokenEstimateCache {
    type V = CacheView;

    closed spec fn view(&self) -> CacheView {
        CacheView {
            messages_revision: self.messages_revision,
            system_fingerprint: self.system_fingerprint,
            cached_tokens: self.cached_tokens,
            audit_ring: self.audit_ring@,
            hits: self.hits,
            misses: self.misses,
        }
    }
}

/// One more, as far as the type reaches.
pub open spec fn one_more(n: u64) -> u64 {
    if n == u64::MAX {
        n
    } else {
        (n + 1) as u64
    }
}

/// The cache before its first use.
pub open spec fn empty_cache() -> CacheView {
    CacheView {
        messages_revision: 0,
        system_fingerprint: 0,
        cached_tokens: None,
        audit_ring: Seq::empty(),
        hits: 0,
        misses: 0,
    }
}

/// The remembered estimates with one more; the oldest goes where there is no
/// room.
pub open spec fn ring_with(ring: Seq<(u64, usize)>, revision: u64, tokens: usize) -> Seq<
    (u64, usize),
> {
    if ring.len() >= 64 {
        ring.skip(1).push((revision, tokens))
    } else {
        ring.push((revision, tokens))
    }
}

/// The estimate that is kept is the one asked for.
pub open spec fn is_hit(cache: CacheView, revision: u64, print: u64) -> bool {
    cache.messages_revision == revision && cache.system_fingerprint == print
        && cache.cached_tokens is Some
}

/// The cache after an estimate that was kept was asked for.
pub open spec fn after_hit(cache: CacheView) -> CacheView {
    CacheView { hits: one_more(cache.hits), ..cache }
}

/// The cache after a new estimate was made.
pub open spec fn after_miss(
    cache: CacheView,
    revision: u64,
    print: u64,
    tokens: usize,
) -> CacheView {
    CacheView {
        messages_revision: revision,
        system_fingerprint: print,
        cached_tokens: Some(tokens),
        audit_ring: ring_with(cache.audit_ring, revision, tokens),
        hits: cache.hits,
        misses: one_more(cache.misses),
    }
}

impl Default for TokenEstimateCache {
    fn default() -> (r: Self)
        ensures
            r@ == empty_cache(),
    {
        let r = TokenEstimateCache {
            messages_revision: 0,
            system_fingerprint: 0,
            cached_tokens: None,
            audit_ring: Vec::new(),
            hits: 0,
            misses: 0,
        };
        proof {
            assert(r@ =~= empty_cache());
        }
        r
    }
}

impl TokenEstimateCache {
    /// The cache before its first use.
    pub fn new() -> (r: Self)
        ensures
            r@ == empty_cache(),
    {
        TokenEstimateCache::default()
    }

    /// The estimate that is kept, or a new one. `estimate_tokens` gives the
    /// messages' own estimate, and is asked only where a new one is made.
    pub fn lookup_or_compute<F: Fn(&Vec<Message>) -> usize>(
        &mut self,
        messages_revision: u64,
        system_prompt: Option<&SystemPrompt>,
        messages: &Vec<Message>,
        estimate_tokens: F,
    ) -> (r: usize)
        requires
            system_estimate(opt_prompt_ref(system_prompt)) <= usize::MAX,
            call_requires(estimate_tokens, (messages,)),
        ensures
            ({
                let print = fingerprint(opt_prompt_ref(system_prompt));
                if is_hit(old(self)@, messages_revision, print) {
                    &&& Some(r) == old(self)@.cached_tokens
                    &&& final(self)@ == after_hit(old(self)@)
                } else {
                    &&& final(self)@ == after_miss(old(self)@, messages_revision, print, r)
                    &&& exists|n: usize|
                        #[trigger] call_ensures(estimate_tokens, (messages,), n) && r
                            == input_estimate(
                            n as int,
                            messages@.len() as int,
                            opt_prompt_ref(system_prompt),
                        )
                }
            }),
    {
        let print = fingerprint_system_prompt(system_prompt);
        let ghost start = self@;
        if self.messages_revision == messages_revision && self.system_fingerprint == print {
            if let Some(tokens) = self.cached_tokens {
                self.hits = self.hits.saturating_add(1);
                proof {
                    assert(self@ =~= after_hit(start));
                }
                return tokens;
            }
        }
        let raw = estimate_tokens(messages);
        let tokens = estimate_input_tokens_conservative(raw, messages.len(), system_prompt);
        self.messages_revision = messages_revision;
        self.system_fingerprint = print;
        self.cached_tokens = Some(tokens);
        self.misses = self.misses.saturating_add(1);
        self.push_audit(messages_revision, tokens);
        proof {
            assert(self@ =~= after_miss(start, messages_revision, print, tokens));
        }
        tokens
    }

    /// Forgets the estimate where the messages have moved on.
    pub fn bump_messages_revision(&mut self, revision: u64)
        ensures
            final(self)@ == if revision > old(self)@.messages_revision {
                CacheView { messages_revision: revision, cached_tokens: None, ..old(self)@ }
            } else {
                old(self)@
            },
    {
        if revision > self.messages_revision {
            self.messages_revision = revision;
            self.cached_tokens = None;
        }
    }

    /// Forgets the estimate, the fingerprint, the history and the counts.
    pub fn invalidate(&mut self)
        ensures
            final(self)@ == (CacheView {
                messages_revision: old(self)@.messages_revision,
                ..empty_cache()
            }),
    {
        self.cached_tokens = None;
        self.system_fingerprint = 0;
        self.audit_ring.clear();
        self.hits = 0;
        self.misses = 0;
        proof {
            assert(self@ =~= CacheView {
                messages_revision: old(self)@.messages_revision,
                ..empty_cache()
            });
        }
    }

    /// How often an estimate was kept, and how often made.
    pub fn stats(&self) -> (r: (u64, u64))
        ensures
            r == (self@.hits, self@.misses),
    {
        (self.hits, self.misses)
    }

    /// The newest estimates with the revisions they were made for, oldest first.
    pub fn recent_audit(&self) -> (r: &Vec<(u64, usize)>)
        ensures
            r@ == self@.audit_ring,
    {
        &self.audit_ring
    }

    fn push_audit(&mut self, revision: u64, tokens: usize)
        ensures
            final(self)@ == (CacheView {
                audit_ring: ring_with(old(self)@.audit_ring, revision, tokens),
                ..old(self)@
            }),
    {
        let ghost start = self.audit_ring@;
        if self.audit_ring.len() >= AUDIT_RING_CAPACITY {
            self.audit_ring.remove(0);
            proof {
                assert(self.audit_ring@ =~= start.skip(1));
            }
        }
        self.audit_ring.push((revision, tokens));
        proof {
            assert(self@ =~= CacheView {
                audit_ring: ring_with(start, revision, tokens),
                ..old(self)@
            });
        }
    }
}

/// An estimate that was just made is kept: asked for again under the same
/// revision and the same prompt it comes back, and only the count changes.
pub proof fn law_fresh_estimates_are_kept(
    cache: CacheView,
    revision: u64,
    print: u64,
    tokens: usize,
)
    ensures
        ({
            let made = after_miss(cache, revision, print, tokens);
            &&& is_hit(made, revision, print)
            &&& made.cached_tokens == Some(tokens)
            &&& after_hit(made).cached_tokens == Some(tokens)
            &&& after_hit(made).misses == made.misses
        }),
{
}

/// An estimate is never given for anything else: under another revision or
/// another prompt it is made anew, and so it is after every change of the
/// messages.
pub proof fn law_stale_estimates_are_not_given(
    cache: CacheView,
    revision: u64,
    print: u64,
    tokens: usize,
    other_revision: u64,
    other_print: u64,
)
    ensures
        ({
            let made = after_miss(cache, revision, print, tokens);
            &&& revision != other_revision || print != other_print ==> !is_hit(
                made,
                other_revision,
                other_print,
            )
            &&& revision < u64::MAX ==> !is_hit(made, next_revision(revision), other_print)
        }),
{
}

/// The history never outgrows its room, and its last entry is the newest.
pub proof fn law_history_is_bounded(ring: Seq<(u64, usize)>, revision: u64, tokens: usize)
    requires
        ring.len() <= 64,
    ensures
        ring_with(ring, revision, tokens).len() <= 64,
        ring_with(ring, revision, tokens).last() == (revision, tokens),
{
}

/// How the blocks of a prompt are cached does not change its fingerprint.
pub proof fn law_cache_marks_do_not_matter(blocks: Seq<BlockView>, others: Seq<BlockView>)
    requires
        blocks.len() == others.len(),
        forall|i: int|
            0 <= i < blocks.len() ==> (#[trigger] blocks[i]).block_type == others[i].block_type
                && blocks[i].text == others[i].text,
    ensures
        fingerprint(Some(PromptView::Blocks(blocks))) == fingerprint(
            Some(PromptView::Blocks(others)),
        ),
{
    lemma_same_parts(
        seq!["blocks"@, decimal(blocks.len())],
        blocks,
        others,
        blocks.len(),
    );
}

proof fn lemma_same_parts(
    before: Seq<Seq<char>>,
    blocks: Seq<BlockView>,
    others: Seq<BlockView>,
    n: nat,
)
    requires
        n <= blocks.len(),
        blocks.len() == others.len(),
        forall|i: int|
            0 <= i < blocks.len() ==> (#[trigger] blocks[i]).block_type == others[i].block_type
                && blocks[i].text == others[i].text,
    ensures
        block_parts(before, blocks, n) == block_parts(before, others, n),
    decreases n,
{
    if n > 0 {
        lemma_same_parts(before, blocks, others, (n - 1) as nat);
        assert(blocks[n - 1].text == others[n - 1].text);
    }
}

} // verus!
