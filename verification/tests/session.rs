use codewhale_tui::models::{ContentBlock, Message, Usage};
use codewhale_tui::session::{Session, SessionUsage};
use codewhale_tui::turn::{
    add_optional_usage, format_snapshot_label, post_turn_snapshot, pre_tool_snapshot,
    pre_turn_snapshot, snapshot_id, SnapshotOutcome, TurnContext,
};

fn usage(hit: Option<u32>, miss: Option<u32>) -> Usage {
    Usage {
        input_tokens: 100,
        output_tokens: 50,
        prompt_cache_hit_tokens: hit,
        prompt_cache_miss_tokens: miss,
        reasoning_tokens: None,
        reasoning_replay_tokens: None,
        server_tool_use: None,
    }
}

#[test]
fn session_usage_cache_starts_none() {
    let usage = SessionUsage::default();
    assert!(usage.cache_creation_input_tokens.is_none());
    assert!(usage.cache_read_input_tokens.is_none());
}

#[test]
fn session_usage_cache_remains_none_when_api_omits_cache() {
    let mut total = SessionUsage::default();
    total.add(&usage(None, None));
    assert!(total.cache_creation_input_tokens.is_none());
    assert!(total.cache_read_input_tokens.is_none());
}

#[test]
fn session_usage_cache_accumulates_when_reported() {
    let mut total = SessionUsage::default();
    let api_usage = usage(Some(30), Some(70));
    total.add(&api_usage);
    assert_eq!(total.cache_read_input_tokens, Some(30));
    assert_eq!(total.cache_creation_input_tokens, Some(70));
    total.add(&api_usage);
    assert_eq!(total.cache_read_input_tokens, Some(60));
    assert_eq!(total.cache_creation_input_tokens, Some(140));
}

#[test]
fn session_usage_cache_preserves_explicit_zero() {
    let mut total = SessionUsage::default();
    total.add(&usage(Some(0), Some(1234)));
    assert_eq!(total.cache_read_input_tokens, Some(0));
    assert_eq!(total.cache_creation_input_tokens, Some(1234));
}

fn session() -> Session {
    Session::new(
        "model".to_string(),
        "/w".to_string(),
        true,
        false,
        "notes.txt".to_string(),
        "mcp.json".to_string(),
        None,
    )
}

#[test]
fn new_sessions_have_fresh_identifiers() {
    let a = session();
    let b = session();
    assert_eq!(a.id.len(), 36);
    assert_eq!(a.id.as_bytes()[14], b'4');
    assert_ne!(a.id, b.id);
}

#[test]
fn every_change_of_messages_raises_the_revision() {
    let mut s = session();
    let message = Message {
        role: "user".to_string(),
        content: vec![ContentBlock::Text {
            text: "hi".to_string(),
            cache_control: None,
        }],
    };
    assert_eq!(s.messages_revision, 0);
    s.add_message(message);
    assert_eq!((s.messages.len(), s.messages_revision), (1, 1));
    s.replace_messages(Vec::new());
    assert_eq!((s.messages.len(), s.messages_revision), (0, 2));
    s.bump_messages_revision();
    assert_eq!(s.messages_revision, 3);
    s.messages_revision = u64::MAX;
    s.bump_messages_revision();
    assert_eq!(s.messages_revision, u64::MAX);
}

#[test]
fn steps_are_counted_up_to_the_limit() {
    let mut turn = TurnContext::new(2, 1_000);
    assert_eq!(turn.id.len(), 36);
    assert!(turn.next_step());
    assert!(!turn.at_max_steps());
    assert!(turn.next_step());
    assert!(turn.at_max_steps());
    assert!(!turn.next_step());
    assert_eq!(turn.elapsed(3_500), 2_500);
    assert_eq!(turn.elapsed(10), 0);
}

#[test]
fn unreported_counts_stay_unreported() {
    assert_eq!(add_optional_usage(None, None), None);
    assert_eq!(add_optional_usage(Some(3), None), Some(3));
    assert_eq!(add_optional_usage(None, Some(4)), Some(4));
    assert_eq!(add_optional_usage(Some(3), Some(4)), Some(7));
    assert_eq!(add_optional_usage(Some(u32::MAX), Some(4)), Some(u32::MAX));
}

#[test]
fn snapshot_labels_hold_the_first_line() {
    assert_eq!(format_snapshot_label("pre-turn", 7, None), "pre-turn:7");
    assert_eq!(format_snapshot_label("pre-turn", 7, Some("")), "pre-turn:7");
    assert_eq!(
        format_snapshot_label("post-turn", 7, Some("fix it\nplease")),
        "post-turn:7: fix it"
    );
    let long = "x".repeat(130);
    let expected = format!("pre-turn:1: {}…", "x".repeat(100));
    assert_eq!(format_snapshot_label("pre-turn", 1, Some(long.as_str())), expected);
}

#[test]
fn snapshot_requests_name_what_they_are_for() {
    let before = pre_turn_snapshot("/w", 3, 10, Some("hi"));
    assert_eq!((before.workspace.as_str(), before.label.as_str(), before.cap_bytes), ("/w", "pre-turn:3: hi", 10));
    let tool = pre_tool_snapshot("/w", "call_1", 10);
    assert_eq!(tool.label, "tool:call_1");
    let after = post_turn_snapshot("/w", 3, 10, None);
    assert_eq!(after.label, "post-turn:3");
}

#[test]
fn snapshots_that_were_taken_have_an_identifier() {
    assert_eq!(snapshot_id(SnapshotOutcome::RepositoryFailed), None);
    assert_eq!(snapshot_id(SnapshotOutcome::SnapshotFailed), None);
    let taken = SnapshotOutcome::Taken {
        id: "abc".to_string(),
        pruned: false,
    };
    assert_eq!(snapshot_id(taken), Some("abc".to_string()));
}
