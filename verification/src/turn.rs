//! One turn of a conversation.

use crate::ids::{is_random_id, random_id};
use crate::models::{no_usage, Usage};
use crate::text::{
    chars_of, concat, decimal, first_line, first_line_of, opt_str, push_decimal, text_of,
};
use vstd::prelude::*;

verus! {

/// One turn of a conversation. Times are in nanoseconds of a clock that never
/// goes back.
#[derive(Debug)]
pub struct TurnContext {
    pub id: String,
    pub started_at: u128,
    pub step: u32,
    pub max_steps: u32,
    pub tool_call_count: usize,
    pub cancelled: bool,
    pub usage: Usage,
}

/// A count after one more report; the largest number is not passed.
pub open spec fn added(total: Option<u32>, delta: Option<u32>) -> Option<u32> {
    match (total, delta) {
        (Some(a), Some(b)) => Some(
            if a + b > u32::MAX {
                u32::MAX
            } else {
                (a + b) as u32
            },
        ),
        (None, d) => d,
        (t, None) => t,
    }
}

/// A count after one more report.
pub fn add_optional_usage(total: Option<u32>, delta: Option<u32>) -> (r: Option<u32>)
    ensures
        r == added(total, delta),
{
    match (total, delta) {
        (Some(a), Some(b)) => Some(a.saturating_add(b)),
        (None, Some(b)) => Some(b),
        (Some(a), None) => Some(a),
        (None, None) => None,
    }
}

/// The usage of a turn after one more request.
pub open spec fn turn_usage_after(total: Usage, usage: Usage) -> Usage {
    Usage {
        input_tokens: (total.input_tokens + usage.input_tokens) as u32,
        output_tokens: (total.output_tokens + usage.output_tokens) as u32,
        prompt_cache_hit_tokens: added(
            total.prompt_cache_hit_tokens,
            usage.prompt_cache_hit_tokens,
        ),
        prompt_cache_miss_tokens: added(
            total.prompt_cache_miss_tokens,
            usage.prompt_cache_miss_tokens,
        ),
        reasoning_tokens: added(total.reasoning_tokens, usage.reasoning_tokens),
        reasoning_replay_tokens: total.reasoning_replay_tokens,
        server_tool_use: total.server_tool_use,
    }
}

impl TurnContext {
    /// A turn that begins at `now` under the identifier `id`.
    pub fn with_id(id: String, max_steps: u32, now: u128) -> (r: Self)
        ensures
            r == (TurnContext {
                id,
                started_at: now,
                step: 0,
                max_steps,
                tool_call_count: 0,
                cancelled: false,
                usage: no_usage(),
            }),
    {
        TurnContext {
            id,
            started_at: now,
            step: 0,
            max_steps,
            tool_call_count: 0,
            cancelled: false,
            usage: Usage::default(),
        }
    }

    /// A turn that begins at `now` under a fresh identifier.
    pub fn new(max_steps: u32, now: u128) -> (r: Self)
        ensures
            is_random_id(r.id@),
            r == (TurnContext {
                id: r.id,
                started_at: now,
                step: 0,
                max_steps,
                tool_call_count: 0,
                cancelled: false,
                usage: no_usage(),
            }),
    {
        let id = random_id();
        TurnContext::with_id(id, max_steps, now)
    }

    /// Goes on to the next step; tells whether it may be taken.
    pub fn next_step(&mut self) -> (r: bool)
        requires
            old(self).step < u32::MAX,
        ensures
            *final(self) == (TurnContext { step: (old(self).step + 1) as u32, ..*old(self) }),
            r == (old(self).step + 1 <= old(self).max_steps),
    {
        self.step = self.step + 1;
        self.step <= self.max_steps
    }

    /// Whether no step is left.
    pub fn at_max_steps(&self) -> (r: bool)
        ensures
            r == (self.step >= self.max_steps),
    {
        self.step >= self.max_steps
    }

    /// Notes a tool call.
    pub fn record_tool_call(&mut self)
        requires
            old(self).tool_call_count < usize::MAX,
        ensures
            *final(self) == (TurnContext {
                tool_call_count: (old(self).tool_call_count + 1) as usize,
                ..*old(self)
            }),
    {
        self.tool_call_count = self.tool_call_count + 1;
    }

    /// Whether a tool was called.
    pub fn has_tool_calls(&self) -> (r: bool)
        ensures
            r == (self.tool_call_count > 0),
    {
        self.tool_call_count > 0
    }

    /// Notes that the turn was cancelled.
    pub fn cancel(&mut self)
        ensures
            *final(self) == (TurnContext { cancelled: true, ..*old(self) }),
    {
        self.cancelled = true;
    }

    /// How long the turn has run at `now`.
    pub fn elapsed(&self, now: u128) -> (r: u128)
        ensures
            r == if now >= self.started_at {
                now - self.started_at
            } else {
                0
            },
    {
        now.saturating_sub(self.started_at)
    }

    /// Adds what a request used.
    pub fn add_usage(&mut self, usage: &Usage)
        requires
            old(self).usage.input_tokens + usage.input_tokens <= u32::MAX,
            old(self).usage.output_tokens + usage.output_tokens <= u32::MAX,
        ensures
            *final(self) == (TurnContext {
                usage: turn_usage_after(old(self).usage, *usage),
                ..*old(self)
            }),
    {
        self.usage.input_tokens = self.usage.input_tokens + usage.input_tokens;
        self.usage.output_tokens = self.usage.output_tokens + usage.output_tokens;
        self.usage.prompt_cache_hit_tokens = add_optional_usage(
            self.usage.prompt_cache_hit_tokens,
            usage.prompt_cache_hit_tokens,
        );
        self.usage.prompt_cache_miss_tokens = add_optional_usage(
            self.usage.prompt_cache_miss_tokens,
            usage.prompt_cache_miss_tokens,
        );
        self.usage.reasoning_tokens = add_optional_usage(
            self.usage.reasoning_tokens,
            usage.reasoning_tokens,
        );
    }
}

/// A turn can be asked for its next step exactly as often as it has steps.
pub proof fn law_steps_are_bounded(turn: TurnContext)
    requires
        turn.step < u32::MAX,
    ensures
        turn.step >= turn.max_steps <==> !(turn.step + 1 <= turn.max_steps),
{
}

/// The label of a snapshot: its kind, the number of the turn, and the first
/// line of what the user wrote, cut to a hundred characters.
pub open spec fn snapshot_label(prefix: Seq<char>, turn_seq: u64, prompt: Option<Seq<char>>) -> Seq<
    char,
> {
    let base = prefix + ":"@ + decimal(turn_seq as nat);
    match prompt {
        Some(text) => if text.len() == 0 {
            base
        } else {
            let line = first_line(text);
            if line.len() > 100 {
                base + ": "@ + line.take(100) + "…"@
            } else {
                base + ": "@ + line
            }
        },
        None => base,
    }
}

/// The label of a snapshot.
pub fn format_snapshot_label(prefix: &str, turn_seq: u64, user_prompt: Option<&str>) -> (r: String)
    ensures
        r@ == snapshot_label(prefix@, turn_seq, opt_str(user_prompt)),
{
    let mut out = concat(prefix, ":");
    push_decimal(&mut out, turn_seq);
    if let Some(prompt) = user_prompt {
        if !prompt.is_empty() {
            let line = first_line_of(prompt);
            let c = chars_of(line.as_str());
            out.append(": ");
            if c.len() > 100 {
                let cut = text_of(&c, 0, 100);
                proof {
                    assert(cut@ =~= line@.take(100));
                }
                out.append(cut.as_str());
                out.append("…");
            } else {
                out.append(line.as_str());
            }
        }
    }
    out
}

/// A snapshot of a workspace that is to be taken.
#[derive(Debug)]
pub struct SnapshotRequest {
    pub workspace: String,
    pub label: String,
    pub cap_bytes: u64,
}

/// The snapshot to take before a turn.
pub fn pre_turn_snapshot(
    workspace: &str,
    turn_seq: u64,
    cap_bytes: u64,
    user_prompt: Option<&str>,
) -> (r: SnapshotRequest)
    ensures
        r.workspace@ == workspace@,
        r.label@ == snapshot_label("pre-turn"@, turn_seq, opt_str(user_prompt)),
        r.cap_bytes == cap_bytes,
{
    SnapshotRequest {
        workspace: workspace.to_owned(),
        label: format_snapshot_label("pre-turn", turn_seq, user_prompt),
        cap_bytes,
    }
}

/// The snapshot to take before a tool call.
pub fn pre_tool_snapshot(workspace: &str, call_id: &str, cap_bytes: u64) -> (r: SnapshotRequest)
    ensures
        r.workspace@ == workspace@,
        r.label@ == "tool:"@ + call_id@,
        r.cap_bytes == cap_bytes,
{
    SnapshotRequest {
        workspace: workspace.to_owned(),
        label: concat("tool:", call_id),
        cap_bytes,
    }
}

/// The snapshot to take after a turn.
pub fn post_turn_snapshot(
    workspace: &str,
    turn_seq: u64,
    cap_bytes: u64,
    user_prompt: Option<&str>,
) -> (r: SnapshotRequest)
    ensures
        r.workspace@ == workspace@,
        r.label@ == snapshot_label("post-turn"@, turn_seq, opt_str(user_prompt)),
        r.cap_bytes == cap_bytes,
{
    SnapshotRequest {
        workspace: workspace.to_owned(),
        label: format_snapshot_label("post-turn", turn_seq, user_prompt),
        cap_bytes,
    }
}

/// What came of taking a snapshot.
#[derive(Debug)]
pub enum SnapshotOutcome {
    RepositoryFailed,
    SnapshotFailed,
    Taken { id: String, pruned: bool },
}

/// The identifier of a snapshot that was taken; that old ones could not be
/// pruned does not matter.
pub fn snapshot_id(outcome: SnapshotOutcome) -> (r: Option<String>)
    ensures
        r == (match outcome {
            SnapshotOutcome::Taken { id, .. } => Some(id),
            _ => None,
        }),
{
    match outcome {
        SnapshotOutcome::Taken { id, .. } => Some(id),
        _ => None,
    }
}

} // verus!
