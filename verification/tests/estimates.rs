use codewhale_tui::models::{ContentBlock, Message, SystemBlock, SystemPrompt};
use codewhale_tui::token_estimate_cache::{TokenEstimateCache, AUDIT_RING_CAPACITY};

fn user_text(s: &str) -> Message {
    Message {
        role: "user".to_string(),
        content: vec![ContentBlock::Text {
            text: s.to_string(),
            cache_control: None,
        }],
    }
}

fn sys_text(s: &str) -> SystemPrompt {
    SystemPrompt::Text(s.to_string())
}

fn estimate(messages: &Vec<Message>) -> usize {
    let mut total = 0;
    for message in messages {
        for block in &message.content {
            if let ContentBlock::Text { text, .. } = block {
                total += text.len() / 4 + 1;
            }
        }
    }
    total
}

#[test]
fn first_call_is_a_miss() {
    let mut cache = TokenEstimateCache::new();
    let messages = vec![user_text("hello world")];
    let tokens = cache.lookup_or_compute(1, None, &messages, estimate);
    let (hits, misses) = cache.stats();
    assert!(tokens > 0);
    assert_eq!(hits, 0);
    assert_eq!(misses, 1);
}

#[test]
fn repeated_call_with_same_revision_is_a_hit() {
    let mut cache = TokenEstimateCache::new();
    let messages = vec![user_text("hello world")];
    let _ = cache.lookup_or_compute(1, None, &messages, estimate);
    let _ = cache.lookup_or_compute(1, None, &messages, estimate);
    let (hits, misses) = cache.stats();
    assert_eq!(hits, 1);
    assert_eq!(misses, 1);
}

#[test]
fn revision_bump_invalidates() {
    let mut cache = TokenEstimateCache::new();
    let messages = vec![user_text("hi")];
    let a = cache.lookup_or_compute(1, None, &messages, estimate);
    let b = cache.lookup_or_compute(2, None, &messages, estimate);
    let (hits, misses) = cache.stats();
    assert_eq!(a, b);
    assert_eq!(hits, 0);
    assert_eq!(misses, 2);
}

#[test]
fn system_prompt_change_invalidates() {
    let mut cache = TokenEstimateCache::new();
    let messages = vec![user_text("hi")];
    let _ = cache.lookup_or_compute(1, Some(&sys_text("alpha")), &messages, estimate);
    let _ = cache.lookup_or_compute(1, Some(&sys_text("beta")), &messages, estimate);
    let (hits, misses) = cache.stats();
    assert_eq!(hits, 0);
    assert_eq!(misses, 2);
}

#[test]
fn bump_messages_revision_clears_cache() {
    let mut cache = TokenEstimateCache::new();
    let messages = vec![user_text("x")];
    let _ = cache.lookup_or_compute(1, None, &messages, estimate);
    cache.bump_messages_revision(2);
    let _ = cache.lookup_or_compute(2, None, &messages, estimate);
    let (hits, misses) = cache.stats();
    assert_eq!(hits, 0);
    assert_eq!(misses, 2);
}

#[test]
fn bump_to_smaller_revision_is_noop() {
    let mut cache = TokenEstimateCache::new();
    let messages = vec![user_text("x")];
    let _ = cache.lookup_or_compute(5, None, &messages, estimate);
    cache.bump_messages_revision(2);
    let _ = cache.lookup_or_compute(5, None, &messages, estimate);
    let (hits, _) = cache.stats();
    assert_eq!(hits, 1);
}

#[test]
fn invalidate_resets_state() {
    let mut cache = TokenEstimateCache::new();
    let messages = vec![user_text("x")];
    let _ = cache.lookup_or_compute(1, None, &messages, estimate);
    let _ = cache.lookup_or_compute(1, None, &messages, estimate);
    cache.invalidate();
    let (hits, misses) = cache.stats();
    assert_eq!(hits, 0);
    assert_eq!(misses, 0);
}

#[test]
fn blocks_system_prompt_yields_distinct_fingerprint() {
    let blocks_a = SystemPrompt::Blocks(vec![SystemBlock {
        block_type: "text".to_string(),
        text: "alpha".to_string(),
        cache_control: None,
    }]);
    let blocks_b = SystemPrompt::Blocks(vec![SystemBlock {
        block_type: "text".to_string(),
        text: "beta".to_string(),
        cache_control: None,
    }]);
    let mut cache = TokenEstimateCache::new();
    let messages = vec![user_text("hi")];
    let _ = cache.lookup_or_compute(1, Some(&blocks_a), &messages, estimate);
    let _ = cache.lookup_or_compute(1, Some(&blocks_b), &messages, estimate);
    let (hits, misses) = cache.stats();
    assert_eq!(hits, 0);
    assert_eq!(misses, 2);
}

#[test]
fn audit_ring_records_recent_pairs() {
    let mut cache = TokenEstimateCache::new();
    let messages = vec![user_text("hi")];
    for rev in 1..=5 {
        let _ = cache.lookup_or_compute(rev, None, &messages, estimate);
    }
    let ring = cache.recent_audit();
    assert_eq!(ring.len(), 5);
    assert_eq!(ring.last().copied(), Some((5, ring.last().unwrap().1)));
}

#[test]
fn audit_ring_bounded_by_capacity() {
    let mut cache = TokenEstimateCache::new();
    let messages = vec![user_text("hi")];
    for rev in 1..=(AUDIT_RING_CAPACITY + 10) as u64 {
        let _ = cache.lookup_or_compute(rev, None, &messages, estimate);
    }
    let ring = cache.recent_audit();
    assert_eq!(ring.len(), AUDIT_RING_CAPACITY);
    assert_eq!(ring.last().unwrap().0, (AUDIT_RING_CAPACITY + 10) as u64);
}
