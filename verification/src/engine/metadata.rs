//! What a model is told with each message: where and when it works, under which
//! rules, and how much room is left.

use crate::context::{
    estimate_input_tokens_conservative, input_estimate, saturated, system_estimate,
};
use crate::engine::goal::GoalSnapshot;
use crate::models::{
    block_views, opt_prompt_ref, AppMode, BlockView, ContentBlock, Message, PromptView,
    SystemPrompt,
};
use crate::ops::UserInputProvenance;
use crate::session::SessionUsage;
use crate::text::{
    concat, decimal, join, joined, opt_text, push_decimal, push_line, texts, trim, trimmed,
};
use crate::token_estimate_cache::{digest, digest_of};
use vstd::prelude::*;

verus! {

/// The texts of the first `n` blocks that are hashed, behind a mark for blocks.
pub open spec fn block_parts(blocks: Seq<BlockView>, n: nat) -> Seq<Seq<char>>
    decreases n,
{
    if n == 0 {
        seq!["1"@]
    } else {
        let b = blocks[n - 1];
        let base = block_parts(blocks, (n - 1) as nat).push(b.block_type).push(b.text);
        match b.cache_type {
            Some(c) => base.push(c),
            None => base,
        }
    }
}

/// The digest by which a change of the system prompt is noticed.
pub open spec fn prompt_hash(prompt: Option<PromptView>) -> u64 {
    match prompt {
        Some(PromptView::Text(text)) => digest(seq!["0"@, text]),
        Some(PromptView::Blocks(blocks)) => digest(block_parts(blocks, blocks.len())),
        None => digest(seq!["2"@]),
    }
}

/// The digest by which a change of the system prompt is noticed.
pub fn system_prompt_hash(prompt: Option<&SystemPrompt>) -> (r: u64)
    ensures
        r == prompt_hash(opt_prompt_ref(prompt)),
{
    match prompt {
        Some(SystemPrompt::Text(text)) => {
            let parts = vec!["0".to_owned(), text.clone()];
            proof {
                assert(texts(parts@) =~= seq!["0"@, text@]);
            }
            digest_of(&parts)
        },
        Some(SystemPrompt::Blocks(blocks)) => {
            let ghost all = block_views(blocks@);
            let mut parts = vec!["1".to_owned()];
            proof {
                assert(texts(parts@) =~= seq!["1"@]);
            }
            let mut i: usize = 0;
            while i < blocks.len()
                invariant
                    i <= blocks@.len(),
                    all == block_views(blocks@),
                    texts(parts@) == block_parts(all, i as nat),
                decreases blocks@.len() - i,
            {
                assert(all[i as int] == blocks@[i as int]@);
                crate::text::push_line(&mut parts, blocks[i].block_type.clone());
                crate::text::push_line(&mut parts, blocks[i].text.clone());
                if let Some(c) = &blocks[i].cache_control {
                    crate::text::push_line(&mut parts, c.cache_type.clone());
                }
                i += 1;
            }
            assert(all.len() == blocks@.len());
            digest_of(&parts)
        },
        None => {
            let parts = vec!["2".to_owned()];
            proof {
                assert(texts(parts@) =~= seq!["2"@]);
            }
            digest_of(&parts)
        },
    }
}

/// The rules of the modes, as texts.
#[derive(Debug)]
pub struct ModeTexts {
    pub agent: String,
    pub plan: String,
    pub operate: String,
}

/// The rules of a mode. The modes that act share theirs.
pub open spec fn mode_text(mode: AppMode, t: ModeTexts) -> Seq<char> {
    trimmed(
        match mode {
            AppMode::Plan => t.plan@,
            AppMode::Operate => t.operate@,
            _ => t.agent@,
        },
    )
}

/// The rules of a mode.
pub fn mode_runtime_instructions(mode: AppMode, t: &ModeTexts) -> (r: String)
    ensures
        r@ == mode_text(mode, *t),
{
    match mode {
        AppMode::Agent | AppMode::Auto | AppMode::Yolo => trim(t.agent.as_str()),
        AppMode::Plan => trim(t.plan.as_str()),
        AppMode::Operate => trim(t.operate.as_str()),
    }
}

/// The sum of two counts, which stops at the largest number.
pub open spec fn saturated_sum(a: u64, b: u64) -> nat {
    if a + b > u64::MAX {
        u64::MAX as nat
    } else {
        (a + b) as nat
    }
}

/// A count with a label, where it was reported.
pub open spec fn labelled(label: Seq<char>, n: Option<u64>) -> Seq<char> {
    match n {
        Some(k) => label + decimal(k as nat),
        None => Seq::empty(),
    }
}

/// The line about the tokens of a session; none where none were used.
pub open spec fn usage_line(usage: SessionUsage) -> Option<Seq<char>> {
    let total = saturated_sum(usage.input_tokens, usage.output_tokens);
    if total == 0 {
        None
    } else {
        Some(
            "Session token usage: "@ + decimal(total) + " total ("@ + decimal(
                usage.input_tokens as nat,
            ) + " input, "@ + decimal(usage.output_tokens as nat) + " output)"@ + labelled(
                ", cache hits "@,
                usage.cache_read_input_tokens,
            ) + labelled(", cache misses "@, usage.cache_creation_input_tokens),
        )
    }
}

fn append_labelled(out: &mut String, label: &str, n: Option<u64>)
    ensures
        final(out)@ == old(out)@ + labelled(label@, n),
{
    let ghost before = out@;
    if let Some(k) = n {
        out.append(label);
        push_decimal(out, k);
        proof {
            assert((before + label@) + decimal(k as nat) =~= before + (label@ + decimal(
                k as nat,
            )));
        }
    } else {
        proof {
            assert(before + Seq::<char>::empty() =~= before);
        }
    }
}

/// The line about the tokens of a session.
pub fn session_token_usage_line(usage: &SessionUsage) -> (r: Option<String>)
    ensures
        opt_text(r) == usage_line(*usage),
{
    let total: u64 = usage.input_tokens.saturating_add(usage.output_tokens);
    if total == 0 {
        return None;
    }
    let mut line = "Session token usage: ".to_owned();
    push_decimal(&mut line, total);
    line.append(" total (");
    push_decimal(&mut line, usage.input_tokens);
    line.append(" input, ");
    push_decimal(&mut line, usage.output_tokens);
    line.append(" output)");
    append_labelled(&mut line, ", cache hits ", usage.cache_read_input_tokens);
    append_labelled(&mut line, ", cache misses ", usage.cache_creation_input_tokens);
    Some(line)
}

/// How near the context is to its limit.
#[derive(Debug, Clone, Copy, PartialEq, Eq, Structural)]
pub enum PressureLevel {
    Normal,
    Warning,
    Critical,
}

/// How much of the context is used. The share is given as a text.
#[derive(Debug)]
pub struct ContextPressure {
    pub label: String,
    pub percent: String,
    pub level: PressureLevel,
    pub input_tokens: u64,
    pub window_tokens: u64,
    pub available_input_tokens: u64,
}

/// What is added to the line where the context is near its limit.
pub open spec fn escalation(level: PressureLevel) -> Seq<char> {
    match level {
        PressureLevel::Critical => " — CRITICAL: stop expanding scope; run /compact immediately or finish the current task"@,
        PressureLevel::Warning => " — ESCALATED: prefer /compact, narrow scope, or finish the current task"@,
        PressureLevel::Normal => ""@,
    }
}

/// The line about how much of the context is used.
pub open spec fn pressure_line(p: ContextPressure) -> Seq<char> {
    "Context pressure: "@ + p.label@ + " ("@ + p.percent@ + "% used, "@ + decimal(
        p.input_tokens as nat,
    ) + " / "@ + decimal(p.window_tokens as nat) + " tokens; "@ + decimal(
        p.available_input_tokens as nat,
    ) + " input tokens available)"@ + escalation(p.level)
}

/// The line about how much of the context is used.
pub fn context_pressure_line(p: &ContextPressure) -> (r: String)
    ensures
        r@ == pressure_line(*p),
{
    let mut line = concat("Context pressure: ", p.label.as_str());
    line.append(" (");
    line.append(p.percent.as_str());
    line.append("% used, ");
    push_decimal(&mut line, p.input_tokens);
    line.append(" / ");
    push_decimal(&mut line, p.window_tokens);
    line.append(" tokens; ");
    push_decimal(&mut line, p.available_input_tokens);
    line.append(" input tokens available)");
    match p.level {
        PressureLevel::Critical => line.append(
            " — CRITICAL: stop expanding scope; run /compact immediately or finish the current task",
        ),
        PressureLevel::Warning => line.append(
            " — ESCALATED: prefer /compact, narrow scope, or finish the current task",
        ),
        PressureLevel::Normal => line.append(""),
    }
    line
}

/// A goal that is told of, with what it used and how fast as texts.
#[derive(Debug)]
pub struct GoalResources {
    pub goal: GoalSnapshot,
    pub summary: String,
    pub rate: String,
}

/// The line about what a goal used; none where it is not active. The rate is
/// told only where tokens and time were used.
pub open spec fn goal_line(g: GoalResources) -> Option<Seq<char>> {
    if !g.goal.active {
        None
    } else {
        Some(
            "Active goal resource usage: "@ + g.summary@ + (if g.goal.tokens_used > 0
                && g.goal.time_used_seconds > 0 {
                "; "@ + g.rate@ + " tok/s"@
            } else {
                Seq::empty()
            }) + "; "@ + decimal(g.goal.continuation_count as nat) + " continuations"@,
        )
    }
}

/// The line about what a goal used.
pub fn active_goal_resource_line(g: &GoalResources) -> (r: Option<String>)
    ensures
        opt_text(r) == goal_line(*g),
{
    if !g.goal.active {
        return None;
    }
    let mut line = concat("Active goal resource usage: ", g.summary.as_str());
    let mut speed = String::new();
    if g.goal.tokens_used > 0 && g.goal.time_used_seconds > 0 {
        speed = concat("; ", g.rate.as_str());
        speed.append(" tok/s");
    }
    line.append(speed.as_str());
    line.append("; ");
    push_decimal(&mut line, g.goal.continuation_count as u64);
    line.append(" continuations");
    Some(line)
}

/// Where and when a turn takes place.
#[derive(Debug)]
pub struct TurnFacts {
    pub today: String,
    pub workspace: String,
    pub mode: AppMode,
    pub mode_setting: String,
    pub working_set_summary: Option<String>,
    pub git_snapshot: Option<String>,
    pub pressure: Option<ContextPressure>,
    pub goal: Option<GoalResources>,
}

/// Which model a turn uses.
#[derive(Debug)]
pub struct TurnRoute {
    pub model: String,
    pub auto_model: bool,
    pub reasoning_effort: Option<String>,
    pub reasoning_effort_auto: bool,
}

/// A line, where there is one.
pub open spec fn maybe(line: Option<Seq<char>>) -> Seq<Seq<char>> {
    match line {
        Some(l) => seq![l],
        None => Seq::empty(),
    }
}

/// The lines that stand first.
pub open spec fn first_lines(
    f: TurnFacts,
    model: Seq<char>,
    provenance: UserInputProvenance,
    texts: ModeTexts,
) -> Seq<Seq<char>> {
    seq![
        "Current local date: "@ + f.today@,
        "Current workspace: "@ + f.workspace@,
        "Current model: "@ + model,
        "Current mode: "@ + f.mode_setting@,
        "Current mode policy source: runtime"@,
        "Current mode policy:\n"@ + mode_text(f.mode, texts),
        "Input provenance: "@ + provenance.word(),
        "Input authority: "@ + (if provenance == UserInputProvenance::ExternalUser {
            "external_current_turn"@
        } else {
            "non_authoritative"@
        }),
    ]
}

/// The lines about the route that was chosen.
pub open spec fn route_lines(route: TurnRoute) -> Seq<Seq<char>> {
    maybe(
        if route.auto_model {
            Some("Auto model route: "@ + route.model@)
        } else {
            None
        },
    ) + maybe(
        match route.reasoning_effort {
            Some(e) => if route.reasoning_effort_auto {
                Some("Auto reasoning effort: "@ + e@)
            } else {
                None
            },
            None => None,
        },
    )
}

/// The lines about what was used.
pub open spec fn resource_lines(f: TurnFacts, usage: SessionUsage) -> Seq<Seq<char>> {
    maybe(
        match f.pressure {
            Some(p) => Some(pressure_line(p)),
            None => None,
        },
    ) + maybe(usage_line(usage)) + maybe(
        match f.goal {
            Some(g) => goal_line(g),
            None => None,
        },
    )
}

/// The lines about the workspace.
pub open spec fn workspace_lines(f: TurnFacts) -> Seq<Seq<char>> {
    maybe(
        match f.working_set_summary {
            Some(s) => if trimmed(s@).len() > 0 {
                Some(trimmed(s@))
            } else {
                None
            },
            None => None,
        },
    ) + maybe(
        match f.git_snapshot {
            Some(g) => Some("Git workspace: "@ + g@),
            None => None,
        },
    )
}

/// What a model is told with a message.
pub open spec fn metadata_text(
    f: TurnFacts,
    route: TurnRoute,
    provenance: UserInputProvenance,
    usage: SessionUsage,
    texts: ModeTexts,
) -> Seq<char> {
    "<turn_meta>\n"@ + joined(
        first_lines(f, route.model@, provenance, texts) + route_lines(route) + resource_lines(
            f,
            usage,
        ) + workspace_lines(f),
        "\n"@,
    ) + "\n</turn_meta>"@
}

fn push_maybe(lines: &mut Vec<String>, line: Option<String>)
    ensures
        texts(final(lines)@) == texts(old(lines)@) + maybe(opt_text(line)),
{
    let ghost before = texts(lines@);
    match line {
        Some(l) => {
            push_line(lines, l);
            proof {
                assert(before.push(l@) =~= before + seq![l@]);
            }
        },
        None => {
            proof {
                assert(before + Seq::<Seq<char>>::empty() =~= before);
            }
        },
    }
}

fn push_first_lines(
    lines: &mut Vec<String>,
    f: &TurnFacts,
    model: &str,
    provenance: UserInputProvenance,
    t: &ModeTexts,
)
    requires
        old(lines)@.len() == 0,
    ensures
        texts(final(lines)@) == first_lines(*f, model@, provenance, *t),
{
    proof {
        assert(texts(lines@) =~= Seq::empty());
    }
    push_line(lines, concat("Current local date: ", f.today.as_str()));
    push_line(lines, concat("Current workspace: ", f.workspace.as_str()));
    push_line(lines, concat("Current model: ", model));
    push_line(lines, concat("Current mode: ", f.mode_setting.as_str()));
    push_line(lines, "Current mode policy source: runtime".to_owned());
    let rules = mode_runtime_instructions(f.mode, t);
    push_line(lines, concat("Current mode policy:\n", rules.as_str()));
    push_line(lines, concat("Input provenance: ", provenance.as_str()));
    let authority = if provenance.can_authorize_work() {
        "external_current_turn"
    } else {
        "non_authoritative"
    };
    push_line(lines, concat("Input authority: ", authority));
    proof {
        assert(texts(lines@) =~= first_lines(*f, model@, provenance, *t));
    }
}

fn push_route_lines(lines: &mut Vec<String>, route: &TurnRoute)
    ensures
        texts(final(lines)@) == texts(old(lines)@) + route_lines(*route),
{
    let ghost before = texts(lines@);
    let auto = if route.auto_model {
        Some(concat("Auto model route: ", route.model.as_str()))
    } else {
        None
    };
    push_maybe(lines, auto);
    let effort = match &route.reasoning_effort {
        Some(e) => if route.reasoning_effort_auto {
            Some(concat("Auto reasoning effort: ", e.as_str()))
        } else {
            None
        },
        None => None,
    };
    push_maybe(lines, effort);
    proof {
        assert(before + maybe(opt_text(auto)) + maybe(opt_text(effort)) =~= before + (maybe(
            opt_text(auto),
        ) + maybe(opt_text(effort))));
    }
}

fn push_resource_lines(lines: &mut Vec<String>, f: &TurnFacts, usage: &SessionUsage)
    ensures
        texts(final(lines)@) == texts(old(lines)@) + resource_lines(*f, *usage),
{
    let ghost before = texts(lines@);
    let pressure = match &f.pressure {
        Some(p) => Some(context_pressure_line(p)),
        None => None,
    };
    push_maybe(lines, pressure);
    let used = session_token_usage_line(usage);
    let ghost u = opt_text(used);
    push_maybe(lines, used);
    let goal = match &f.goal {
        Some(g) => active_goal_resource_line(g),
        None => None,
    };
    push_maybe(lines, goal);
    proof {
        let p = opt_text(pressure);
        let g = opt_text(goal);
        assert(before + maybe(p) + maybe(u) + maybe(g) =~= before + (maybe(p) + maybe(u)
            + maybe(g)));
    }
}

fn push_workspace_lines(lines: &mut Vec<String>, f: &TurnFacts)
    ensures
        texts(final(lines)@) == texts(old(lines)@) + workspace_lines(*f),
{
    let ghost before = texts(lines@);
    let set = match &f.working_set_summary {
        Some(s) => crate::context::clean_text(s.as_str()),
        None => None,
    };
    push_maybe(lines, set);
    let git = match &f.git_snapshot {
        Some(g) => Some(concat("Git workspace: ", g.as_str())),
        None => None,
    };
    push_maybe(lines, git);
    proof {
        assert(before + maybe(opt_text(set)) + maybe(opt_text(git)) =~= before + (maybe(
            opt_text(set),
        ) + maybe(opt_text(git))));
    }
}

/// What a model is told with a message.
pub fn turn_metadata_text(
    f: &TurnFacts,
    route: &TurnRoute,
    provenance: UserInputProvenance,
    usage: &SessionUsage,
    t: &ModeTexts,
) -> (r: String)
    ensures
        r@ == metadata_text(*f, *route, provenance, *usage, *t),
{
    let mut lines: Vec<String> = Vec::new();
    push_first_lines(&mut lines, f, route.model.as_str(), provenance, t);
    push_route_lines(&mut lines, route);
    push_resource_lines(&mut lines, f, usage);
    push_workspace_lines(&mut lines, f);
    let summary = join(&lines, "\n");
    let mut out = concat("<turn_meta>\n", summary.as_str());
    out.append("\n</turn_meta>");
    out
}

/// A block of plain text.
pub fn text_block(text: String) -> (r: ContentBlock)
    ensures
        r == (ContentBlock::Text { text, cache_control: None }),
{
    ContentBlock::Text { text, cache_control: None }
}

/// A message of the user with what is told besides: the text stands first, so
/// that what changes from turn to turn stands last.
pub open spec fn is_user_message(m: Message, text: String, meta: Seq<char>) -> bool {
    &&& m.role@ == "user"@
    &&& m.content@.len() == 2
    &&& m.content@[0] == (ContentBlock::Text { text, cache_control: None })
    &&& m.content@[1] matches ContentBlock::Text { text: told, cache_control: None }
    &&& told@ == meta
}

/// A message of the user with what is told besides.
pub fn user_text_message(
    text: String,
    f: &TurnFacts,
    route: &TurnRoute,
    provenance: UserInputProvenance,
    usage: &SessionUsage,
    t: &ModeTexts,
) -> (r: Message)
    ensures
        is_user_message(r, text, metadata_text(*f, *route, provenance, *usage, *t)),
{
    let meta = turn_metadata_text(f, route, provenance, usage, t);
    let content: Vec<ContentBlock> = vec![text_block(text), text_block(meta)];
    Message { role: "user".to_owned(), content }
}

/// The estimate for a request that also holds the text of the user. `estimate`
/// is the messages' own, with the text where it says something.
pub fn active_input_tokens_with_current_text(
    message_count: usize,
    estimate: usize,
    system: Option<&SystemPrompt>,
    current_text: &str,
) -> (r: usize)
    requires
        system_estimate(opt_prompt_ref(system)) <= usize::MAX,
    ensures
        r == input_estimate(
            estimate as int,
            saturated(
                message_count + if trimmed(current_text@).len() > 0 {
                    1int
                } else {
                    0
                },
            ),
            opt_prompt_ref(system),
        ),
{
    let bare = trim(current_text);
    let count: usize = if bare.as_str().is_empty() {
        message_count
    } else {
        message_count.saturating_add(1)
    };
    estimate_input_tokens_conservative(estimate, count, system)
}

} // verus!
