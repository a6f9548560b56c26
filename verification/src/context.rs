//! What of a tool's output reaches the model, and how much room a request has.

use crate::json::{
    json_of_text, json_text, json_views, lemma_json_views, lookup, member_views, parse_json,
    render_json, Json, JsonView,
};
use crate::models::{
    block_views, opt_prompt, PromptView, SystemBlock, SystemPrompt, ToolResult, ToolResultView,
};
use crate::order::{lemma_insert_at, sort_by};
use crate::text::{
    chars_of, comes_before, concat, contains, contains_text, decimal, decimal_text, join, joined,
    opt_str, opt_text, parse_number, parsed_number, push_chars, push_decimal, push_line,
    push_signed, push_usize, same_text, signed_decimal, text_before, text_of, texts, trim,
    trim_back, trim_end, trimmed,
};
use vstd::prelude::*;

verus! {

/// The most output tokens a turn reserves room for.
pub const TURN_MAX_OUTPUT_TOKENS: u32 = 262_144;

/// The most output tokens a request asks for.
pub const API_MAX_OUTPUT_TOKENS: u32 = 65_536;

/// How many of the newest messages are never trimmed away.
pub const MIN_RECENT_MESSAGES_TO_KEEP: usize = 4;

/// How often a turn tries to recover from an overflowing context.
pub const MAX_CONTEXT_RECOVERY_ATTEMPTS: u8 = 2;

// ---------------------------------------------------------------------------
// Shortening texts
// ---------------------------------------------------------------------------

/// A text cut to `limit` characters, three of them dots where it was cut.
pub open spec fn summary_of(text: Seq<char>, limit: nat) -> Seq<char> {
    if text.len() <= limit {
        text
    } else {
        text.take(if limit >= 3 { limit - 3 } else { 0 }) + "..."@
    }
}

/// Cuts a text to `limit` characters, three of them dots where it was cut.
pub fn summarize_text(text: &str, limit: usize) -> (r: String)
    ensures
        r@ == summary_of(text@, limit as nat),
{
    let c = chars_of(text);
    if c.len() <= limit {
        return text.to_owned();
    }
    let take: usize = if limit >= 3 {
        limit - 3
    } else {
        0
    };
    let mut out = text_of(&c, 0, take);
    proof {
        assert(out@ =~= text@.take(take as int));
    }
    out.append("...");
    out
}

/// What stands where the middle of a text was left out.
pub open spec fn truncation_marker() -> Seq<char> {
    "\n\n[... output truncated for context ...]\n\n"@
}

/// Twice a number, or the largest machine number where that is less.
pub open spec fn saturated_double(n: int) -> int {
    if n * 2 <= usize::MAX {
        n * 2
    } else {
        usize::MAX as int
    }
}

/// A text cut to `limit` characters by leaving out its middle: two thirds of
/// the room go to its head. Where there is no room for the marker the end is
/// cut instead.
pub open spec fn head_tail_of(text: Seq<char>, limit: nat) -> Seq<char> {
    if text.len() <= limit {
        text
    } else if limit <= 62 {
        summary_of(text, limit)
    } else {
        let room = limit - 42;
        let head = saturated_double(room) / 3;
        let tail = room - head;
        text.take(head) + truncation_marker() + text.skip(text.len() - tail)
    }
}

proof fn lemma_truncation_marker()
    ensures
        truncation_marker().len() == 42,
{
    reveal_strlit("\n\n[... output truncated for context ...]\n\n");
}

/// Cuts a text to `limit` characters by leaving out its middle.
pub fn summarize_text_head_tail(text: &str, limit: usize) -> (r: String)
    ensures
        r@ == head_tail_of(text@, limit as nat),
{
    let c = chars_of(text);
    if c.len() <= limit {
        return text.to_owned();
    }
    if limit <= 62 {
        return summarize_text(text, limit);
    }
    let room: usize = limit - 42;
    let doubled: usize = if room <= usize::MAX / 2 {
        room * 2
    } else {
        usize::MAX
    };
    let head: usize = doubled / 3;
    let tail: usize = room - head;
    let mut out = text_of(&c, 0, head);
    out.append("\n\n[... output truncated for context ...]\n\n");
    push_chars(&mut out, &c, c.len() - tail, c.len());
    proof {
        assert(text@.subrange(0, head as int) =~= text@.take(head as int));
        assert(text@.subrange(text@.len() - tail, text@.len() as int) =~= text@.skip(
            text@.len() - tail,
        ));
    }
    out
}

/// Neither way of shortening yields more than `limit` characters, once there
/// is room for the three dots, and both leave a text alone that fits.
pub proof fn law_shortened_texts_fit(text: Seq<char>, limit: nat)
    ensures
        text.len() <= limit ==> summary_of(text, limit) == text,
        text.len() <= limit ==> head_tail_of(text, limit) == text,
        limit >= 3 ==> summary_of(text, limit).len() <= limit,
        limit >= 3 ==> head_tail_of(text, limit).len() <= limit,
        text.len() > limit >= 3 ==> summary_of(text, limit).len() == limit,
        text.len() > limit >= 3 ==> head_tail_of(text, limit).len() == limit,
{
    reveal_strlit("...");
    lemma_truncation_marker();
}

// ---------------------------------------------------------------------------
// Fields of a JSON value
// ---------------------------------------------------------------------------

/// The text without white space around it, where something is left.
pub open spec fn clean(text: Seq<char>) -> Option<Seq<char>> {
    if trimmed(text).len() > 0 {
        Some(trimmed(text))
    } else {
        None
    }
}

/// The string member `key`, trimmed, where something is left of it.
pub open spec fn clean_field(value: JsonView, key: Seq<char>) -> Option<Seq<char>> {
    match value.text_field(key) {
        Some(s) => clean(s),
        None => None,
    }
}

/// The first of two optional values that is there.
pub open spec fn first_some<T>(a: Option<T>, b: Option<T>) -> Option<T> {
    match a {
        Some(x) => Some(x),
        None => b,
    }
}

/// An optional value, or a default.
pub open spec fn or_else<T>(a: Option<T>, b: T) -> T {
    match a {
        Some(x) => x,
        None => b,
    }
}

/// Trims a text; nothing where only white space was there.
pub fn clean_text(text: &str) -> (r: Option<String>)
    ensures
        opt_text(r) == clean(text@),
{
    let t = trim(text);
    if t.as_str().is_empty() {
        None
    } else {
        Some(t)
    }
}

/// The string member `key`, trimmed, where something is left of it.
pub fn json_field_text(value: &Json, key: &str) -> (r: Option<String>)
    ensures
        opt_text(r) == clean_field(value@, key@),
{
    match value.get_str(key) {
        Some(s) => clean_text(s),
        None => None,
    }
}

/// The number that the member `key` holds, in decimal, or its trimmed text.
pub open spec fn number_field(value: JsonView, key: Seq<char>) -> Option<Seq<char>> {
    match value.field(key) {
        Some(JsonView::PosInt(n)) => Some(decimal(n as nat)),
        Some(JsonView::NegInt(n)) => Some(signed_decimal(n as int)),
        Some(JsonView::Str(s)) => clean(s),
        _ => None,
    }
}

/// The number that the member `key` holds, in decimal, or its trimmed text.
pub fn json_number_text(value: &Json, key: &str) -> (r: Option<String>)
    ensures
        opt_text(r) == number_field(value@, key@),
{
    match value.get(key) {
        Some(Json::PosInt(n)) => Some(decimal_text(*n)),
        Some(Json::NegInt(n)) => {
            let mut out = String::new();
            push_signed(&mut out, *n);
            proof {
                assert(out@ =~= signed_decimal(*n as int));
            }
            Some(out)
        },
        Some(Json::Str(s)) => clean_text(s.as_str()),
        _ => None,
    }
}

/// The text, or the default where there is none.
pub fn text_or(value: Option<String>, default: &str) -> (r: String)
    ensures
        r@ == or_else(opt_text(value), default@),
{
    match value {
        Some(s) => s,
        None => default.to_owned(),
    }
}

// ---------------------------------------------------------------------------
// Noise and metadata
// ---------------------------------------------------------------------------

/// The tools whose output is cut short earlier than that of others.
pub open spec fn is_noisy_tool(name: Seq<char>) -> bool {
    ||| name == "exec_shell"@
    ||| name == "exec_shell_wait"@
    ||| name == "exec_shell_interact"@
    ||| name == "exec_shell_cancel"@
    ||| name == "task_shell_start"@
    ||| name == "task_shell_wait"@
    ||| name == "run_tests"@
    ||| name == "run_verifiers"@
    ||| name == "task_gate_run"@
    ||| name == "multi_tool_use.parallel"@
    ||| name == "web_search"@
}

/// Whether a tool's output is cut short earlier than that of others.
pub fn tool_result_is_noisy(tool_name: &str) -> (r: bool)
    ensures
        r == is_noisy_tool(tool_name@),
{
    same_text(tool_name, "exec_shell") || same_text(tool_name, "exec_shell_wait") || same_text(
        tool_name,
        "exec_shell_interact",
    ) || same_text(tool_name, "exec_shell_cancel") || same_text(tool_name, "task_shell_start")
        || same_text(tool_name, "task_shell_wait") || same_text(tool_name, "run_tests")
        || same_text(tool_name, "run_verifiers") || same_text(tool_name, "task_gate_run")
        || same_text(tool_name, "multi_tool_use.parallel") || same_text(tool_name, "web_search")
}

/// The summary that a tool's metadata carries: the first of four members that
/// holds more than white space, cut to 320 characters.
pub open spec fn metadata_summary(metadata: Option<JsonView>) -> Option<Seq<char>> {
    match metadata {
        Some(v) => {
            let found = first_some(
                clean_field(v, "summary"@),
                first_some(
                    clean_field(v, "stdout_summary"@),
                    first_some(clean_field(v, "stderr_summary"@), clean_field(v, "message"@)),
                ),
            );
            match found {
                Some(s) => Some(summary_of(s, 320)),
                None => None,
            }
        },
        None => None,
    }
}

/// The summary that a tool's metadata carries.
pub fn tool_result_metadata_summary(metadata: &Option<Json>) -> (r: Option<String>)
    ensures
        opt_text(r) == metadata_summary(crate::json::opt_json(*metadata)),
{
    match metadata {
        None => None,
        Some(v) => {
            if let Some(s) = json_field_text(v, "summary") {
                return Some(summarize_text(s.as_str(), 320));
            }
            if let Some(s) = json_field_text(v, "stdout_summary") {
                return Some(summarize_text(s.as_str(), 320));
            }
            if let Some(s) = json_field_text(v, "stderr_summary") {
                return Some(summarize_text(s.as_str(), 320));
            }
            if let Some(s) = json_field_text(v, "message") {
                return Some(summarize_text(s.as_str(), 320));
            }
            None
        },
    }
}

// ---------------------------------------------------------------------------
// Results of sub-agents
// ---------------------------------------------------------------------------

/// A sub-agent's status in one word, with its reason in brackets where the
/// status is an object that gives one.
pub open spec fn subagent_status_text(status: JsonView) -> Seq<char> {
    match status {
        JsonView::Str(s) => s,
        JsonView::Object(members) => if members.len() == 0 {
            json_text(status)
        } else {
            match members[0].1 {
                JsonView::Str(reason) => if trimmed(reason).len() > 0 {
                    members[0].0 + "("@ + summary_of(trimmed(reason), 120) + ")"@
                } else {
                    members[0].0
                },
                _ => members[0].0,
            }
        },
        _ => json_text(status),
    }
}

/// A sub-agent's status in one word, with its reason where it gives one.
pub fn summarize_subagent_status(status: &Json) -> (r: String)
    ensures
        r@ == subagent_status_text(status@),
{
    match status {
        Json::Str(s) => s.clone(),
        Json::Object(members) => {
            proof {
                crate::json::lemma_member_views(members@);
            }
            if members.len() == 0 {
                return render_json(status);
            }
            assert(member_views(members@)[0] == (members@[0].0@, members@[0].1.view()));
            let mut out = members[0].0.clone();
            match &members[0].1 {
                Json::Str(reason) => {
                    let t = trim(reason.as_str());
                    if !t.as_str().is_empty() {
                        let s = summarize_text(t.as_str(), 120);
                        out.append("(");
                        out.append(s.as_str());
                        out.append(")");
                    }
                    out
                },
                _ => out,
            }
        },
        _ => render_json(status),
    }
}

/// A member of a value is a smaller value.
pub proof fn lemma_field_decreases(value: JsonView, key: Seq<char>)
    ensures
        value.field(key) matches Some(v) ==> decreases_to!(value => v),
{
    if let JsonView::Object(members) = value {
        lemma_lookup_decreases(members, key, 0);
        if let Some(v) = value.field(key) {
            assert(decreases_to!(value => members));
        }
    }
}

proof fn lemma_lookup_decreases(members: Seq<(Seq<char>, JsonView)>, key: Seq<char>, from: int)
    ensures
        lookup(members, key, from) matches Some(v) ==> decreases_to!(members => v),
    decreases members.len() - from,
{
    if 0 <= from < members.len() {
        if members[from].0 == key {
            assert(decreases_to!(members => members[from]));
            assert(decreases_to!(members[from] => members[from].1));
        } else {
            lemma_lookup_decreases(members, key, from + 1);
        }
    }
}

/// An optional number in decimal, or a question mark.
pub open spec fn number_or_mark(n: Option<u64>) -> Seq<char> {
    match n {
        Some(k) => decimal(k as nat),
        None => "?"@,
    }
}

/// The number in the member `key`, where it is a `u64`.
pub open spec fn unsigned_field(value: JsonView, key: Seq<char>) -> Option<u64> {
    match value.field(key) {
        Some(v) => v.unsigned(),
        None => None,
    }
}

/// The lines about one sub-agent whose record is the object `value`.
pub open spec fn snapshot_lines(value: JsonView) -> Seq<Seq<char>> {
    let head = "- "@ + or_else(value.text_field("agent_id"@), "unknown"@) + " ("@ + or_else(
        value.text_field("agent_type"@),
        "agent"@,
    ) + ") status="@ + (match value.field("status"@) {
        Some(s) => subagent_status_text(s),
        None => "unknown"@,
    });
    let objective = match value.field("assignment"@) {
        Some(a) => clean_field(a, "objective"@),
        None => None,
    };
    let with_objective = match objective {
        Some(s) => seq![head].push("  objective: "@ + summary_of(s, 220)),
        None => seq![head],
    };
    let with_result = match clean_field(value, "result"@) {
        Some(s) => with_objective.push("  result: "@ + summary_of(s, 1_600)),
        None => with_objective.push("  result: not available yet"@),
    };
    let steps = unsigned_field(value, "steps_taken"@);
    let duration = unsigned_field(value, "duration_ms"@);
    if steps is Some || duration is Some {
        with_result.push(
            "  stats: steps="@ + number_or_mark(steps) + ", duration_ms="@ + number_or_mark(
                duration,
            ),
        )
    } else {
        with_result
    }
}

/// What the parent is told of one sub-agent: a record may be wrapped in an
/// object under `snapshot`, to any depth.
pub open spec fn snapshot_text(value: JsonView, index: nat) -> Seq<char>
    decreases value,
{
    match value.field("snapshot"@) {
        Some(inner) => {
            proof {
                lemma_field_decreases(value, "snapshot"@);
            }
            snapshot_text(inner, index)
        },
        None => match value {
            JsonView::Object(_) => joined(snapshot_lines(value), "\n"@),
            _ => "- item "@ + decimal(index) + ": "@ + summary_of(json_text(value), 240),
        },
    }
}

fn push_number_or_mark(out: &mut String, n: Option<u64>)
    ensures
        final(out)@ == old(out)@ + number_or_mark(n),
{
    match n {
        Some(k) => push_decimal(out, k),
        None => out.append("?"),
    }
}

fn get_u64(value: &Json, key: &str) -> (r: Option<u64>)
    ensures
        r == unsigned_field(value@, key@),
{
    match value.get(key) {
        Some(v) => v.as_u64(),
        None => None,
    }
}

/// What the parent is told of one sub-agent.
pub fn summarize_subagent_snapshot(snapshot: &Json, index: usize) -> (r: String)
    ensures
        r@ == snapshot_text(snapshot@, index as nat),
    decreases snapshot@,
{
    if let Some(inner) = snapshot.get("snapshot") {
        proof {
            lemma_field_decreases(snapshot@, "snapshot"@);
        }
        return summarize_subagent_snapshot(inner, index);
    }
    match snapshot {
        Json::Object(_) => {},
        _ => {
            let mut out = "- item ".to_owned();
            push_usize(&mut out, index);
            out.append(": ");
            let whole = render_json(snapshot);
            let short = summarize_text(whole.as_str(), 240);
            out.append(short.as_str());
            return out;
        },
    }
    let mut head = "- ".to_owned();
    match snapshot.get_str("agent_id") {
        Some(s) => head.append(s),
        None => head.append("unknown"),
    }
    head.append(" (");
    match snapshot.get_str("agent_type") {
        Some(s) => head.append(s),
        None => head.append("agent"),
    }
    head.append(") status=");
    match snapshot.get("status") {
        Some(s) => {
            let status = summarize_subagent_status(s);
            head.append(status.as_str());
        },
        None => head.append("unknown"),
    }
    let mut lines: Vec<String> = Vec::new();
    push_line(&mut lines, head);
    proof {
        assert(texts(lines@) =~= seq![head@]);
    }
    let objective = match snapshot.get("assignment") {
        Some(a) => json_field_text(a, "objective"),
        None => None,
    };
    if let Some(s) = objective {
        let short = summarize_text(s.as_str(), 220);
        push_line(&mut lines, concat("  objective: ", short.as_str()));
    }
    match json_field_text(snapshot, "result") {
        Some(s) => {
            let short = summarize_text(s.as_str(), 1_600);
            push_line(&mut lines, concat("  result: ", short.as_str()));
        },
        None => push_line(&mut lines, "  result: not available yet".to_owned()),
    }
    let steps = get_u64(snapshot, "steps_taken");
    let duration = get_u64(snapshot, "duration_ms");
    if steps.is_some() || duration.is_some() {
        let mut stats = "  stats: steps=".to_owned();
        push_number_or_mark(&mut stats, steps);
        stats.append(", duration_ms=");
        push_number_or_mark(&mut stats, duration);
        push_line(&mut lines, stats);
    }
    proof {
        assert(texts(lines@) == snapshot_lines(snapshot@));
    }
    join(&lines, "\n")
}

/// The texts about the first `n` sub-agents, each on lines of its own.
pub open spec fn snapshots_text(items: Seq<JsonView>, n: nat) -> Seq<char>
    decreases n,
{
    if n == 0 {
        Seq::empty()
    } else {
        snapshots_text(items, (n - 1) as nat) + snapshot_text(items[n - 1], n) + "\n"@
    }
}

/// The introduction to a summary of sub-agent results.
pub open spec fn subagent_header() -> Seq<char> {
    "[sub-agent result summarized for parent context]\n"@
        + "Child results are self-reports; verify side effects with tools like read_file or list_dir before claiming success.\n"@
        + "Use `handle_read` on `transcript_handle` for bounded transcript slices when the returned summary is not enough.\n"@
}

/// The summary of a list of sub-agent records: eight of them are told, and how
/// many more there are.
pub open spec fn subagents_summary(items: Seq<JsonView>) -> Seq<char> {
    let told = subagent_header() + snapshots_text(
        items,
        if items.len() < 8 {
            items.len()
        } else {
            8
        },
    );
    trim_back(
        if items.len() > 8 {
            told + "- ... "@ + decimal((items.len() - 8) as nat)
                + " more sub-agent result(s) omitted from context summary\n"@
        } else {
            told
        },
    )
}

/// The records in a sub-agent's reply: an array of them, or one object.
pub open spec fn subagent_records(parsed: Option<JsonView>) -> Option<Seq<JsonView>> {
    match parsed {
        Some(JsonView::Array(items)) => Some(items),
        Some(JsonView::Object(members)) => Some(seq![JsonView::Object(members)]),
        _ => None,
    }
}

/// What the parent sees of the reply of the tool `agent`, given what its text
/// denotes; other tools and other replies are left alone.
pub open spec fn subagent_summary(tool_name: Seq<char>, parsed: Option<JsonView>) -> Option<
    Seq<char>,
> {
    if tool_name != "agent"@ {
        None
    } else {
        match subagent_records(parsed) {
            Some(items) => Some(subagents_summary(items)),
            None => None,
        }
    }
}

fn summarize_records(items: &Vec<Json>) -> (r: String)
    ensures
        r@ == subagents_summary(json_views(items@)),
{
    proof {
        lemma_json_views(items@);
    }
    let mut out = "[sub-agent result summarized for parent context]\n".to_owned();
    out.append(
        "Child results are self-reports; verify side effects with tools like read_file or list_dir before claiming success.\n",
    );
    out.append(
        "Use `handle_read` on `transcript_handle` for bounded transcript slices when the returned summary is not enough.\n",
    );
    let n: usize = if items.len() < 8 {
        items.len()
    } else {
        8
    };
    let ghost header = out@;
    let mut i: usize = 0;
    proof {
        assert(header + snapshots_text(json_views(items@), 0) =~= header);
    }
    while i < n
        invariant
            i <= n <= items@.len(),
            n <= 8,
            json_views(items@).len() == items@.len(),
            forall|j: int|
                0 <= j < items@.len() ==> #[trigger] json_views(items@)[j] == items@[j].view(),
            out@ == header + snapshots_text(json_views(items@), i as nat),
        decreases n - i,
    {
        let one = summarize_subagent_snapshot(&items[i], i + 1);
        out.append(one.as_str());
        out.append("\n");
        proof {
            assert(json_views(items@)[i as int] == items@[i as int].view());
            assert(out@ =~= header + snapshots_text(json_views(items@), (i + 1) as nat));
        }
        i += 1;
    }
    if items.len() > 8 {
        out.append("- ... ");
        push_usize(&mut out, items.len() - 8);
        out.append(" more sub-agent result(s) omitted from context summary\n");
    }
    trim_end(out.as_str())
}

/// What the parent sees of a reply of the tool `agent` that was parsed.
pub fn compact_parsed_subagent_result(tool_name: &str, parsed: Option<Json>) -> (r: Option<String>)
    ensures
        opt_text(r) == subagent_summary(tool_name@, crate::json::opt_json(parsed)),
{
    if !same_text(tool_name, "agent") {
        return None;
    }
    match parsed {
        Some(Json::Array(items)) => Some(summarize_records(&items)),
        Some(Json::Object(members)) => {
            let ghost view = JsonView::Object(member_views(members@));
            let one: Vec<Json> = vec![Json::Object(members)];
            proof {
                lemma_json_views(one@);
                assert(json_views(one@) =~= seq![view]);
            }
            Some(summarize_records(&one))
        },
        _ => None,
    }
}

/// What the parent sees of a reply of the tool `agent`.
pub fn compact_subagent_tool_result_for_context(tool_name: &str, raw: &str) -> (r: Option<String>)
    ensures
        opt_text(r) == subagent_summary(tool_name@, json_of_text(raw@)),
{
    if !same_text(tool_name, "agent") {
        return None;
    }
    let parsed = parse_json(raw);
    compact_parsed_subagent_result(tool_name, parsed)
}

// ---------------------------------------------------------------------------
// Results of test and verification tools
// ---------------------------------------------------------------------------

/// The lines that stand for the result of `run_tests`.
pub open spec fn run_tests_lines(value: JsonView, success: bool) -> Seq<Seq<char>> {
    let limit: nat = if success {
        500
    } else {
        1_000
    };
    let head = seq![
        "[run_tests result summarized for context]"@,
        "status: "@ + (if success {
            "passed"@
        } else {
            "failed"@
        }) + ", exit_code: "@ + or_else(number_field(value, "exit_code"@), "?"@),
        "command: "@ + summary_of(
            or_else(clean_field(value, "command"@), "(unknown command)"@),
            300,
        ),
    ];
    let with_stderr = match clean_field(value, "stderr"@) {
        Some(s) => head.push("stderr: "@ + head_tail_of(s, limit)),
        None => head,
    };
    match clean_field(value, "stdout"@) {
        Some(s) => with_stderr.push("stdout: "@ + head_tail_of(s, limit)),
        None => with_stderr,
    }
}

/// What the model sees of the result of `run_tests`: nothing where the result
/// does not say whether the tests passed.
pub open spec fn run_tests_summary(parsed: Option<JsonView>) -> Option<Seq<char>> {
    match parsed {
        Some(value) => match value.truth_field("success"@) {
            Some(success) => Some(joined(run_tests_lines(value, success), "\n"@)),
            None => None,
        },
        None => None,
    }
}

/// What the model sees of a parsed result of `run_tests`.
pub fn compact_parsed_run_tests_result(parsed: Option<Json>) -> (r: Option<String>)
    ensures
        opt_text(r) == run_tests_summary(crate::json::opt_json(parsed)),
{
    let value = match parsed {
        Some(v) => v,
        None => return None,
    };
    let success = match value.get_bool("success") {
        Some(b) => b,
        None => return None,
    };
    let limit: usize = if success {
        500
    } else {
        1_000
    };
    let mut lines: Vec<String> = Vec::new();
    push_line(&mut lines, "[run_tests result summarized for context]".to_owned());
    let mut status = "status: ".to_owned();
    if success {
        status.append("passed");
    } else {
        status.append("failed");
    }
    status.append(", exit_code: ");
    let exit_code = text_or(json_number_text(&value, "exit_code"), "?");
    status.append(exit_code.as_str());
    push_line(&mut lines, status);
    let command = text_or(json_field_text(&value, "command"), "(unknown command)");
    let short = summarize_text(command.as_str(), 300);
    push_line(&mut lines, concat("command: ", short.as_str()));
    proof {
        assert(texts(lines@) =~= seq![
            "[run_tests result summarized for context]"@,
            status@,
            "command: "@ + short@,
        ]);
    }
    if let Some(s) = json_field_text(&value, "stderr") {
        let cut = summarize_text_head_tail(s.as_str(), limit);
        push_line(&mut lines, concat("stderr: ", cut.as_str()));
    }
    if let Some(s) = json_field_text(&value, "stdout") {
        let cut = summarize_text_head_tail(s.as_str(), limit);
        push_line(&mut lines, concat("stdout: ", cut.as_str()));
    }
    proof {
        assert(texts(lines@) == run_tests_lines(value@, success));
    }
    Some(join(&lines, "\n"))
}

/// What the model sees of a result of `run_tests`.
pub fn compact_run_tests_result_for_context(raw: &str) -> (r: Option<String>)
    ensures
        opt_text(r) == run_tests_summary(json_of_text(raw@)),
{
    let parsed = parse_json(raw);
    compact_parsed_run_tests_result(parsed)
}

/// The rank by which gates are told: failures first, unknown states last.
pub open spec fn status_rank(status: Option<Seq<char>>) -> int {
    let s = or_else(status, Seq::empty());
    if s == "failed"@ || s == "timeout"@ {
        0
    } else if s == "skipped"@ {
        1
    } else if s == "passed"@ {
        2
    } else {
        3
    }
}

/// The rank by which gates are told.
pub fn run_verifier_status_rank(status: Option<&str>) -> (r: u8)
    ensures
        r == status_rank(opt_str(status)),
{
    proof {
        reveal_strlit("failed");
        reveal_strlit("timeout");
        reveal_strlit("skipped");
        reveal_strlit("passed");
    }
    match status {
        Some(s) => {
            if same_text(s, "failed") || same_text(s, "timeout") {
                0
            } else if same_text(s, "skipped") {
                1
            } else if same_text(s, "passed") {
                2
            } else {
                3
            }
        },
        None => {
            proof {
                assert(Seq::<char>::empty().len() == 0);
                assert("failed"@.len() == 6);
                assert("timeout"@.len() == 7);
                assert("skipped"@.len() == 7);
                assert("passed"@.len() == 6);
            }
            3
        },
    }
}

/// The order of optional names: none comes before any.
pub open spec fn name_before(a: Option<Seq<char>>, b: Option<Seq<char>>) -> bool {
    match (a, b) {
        (None, Some(_)) => true,
        (Some(x), Some(y)) => text_before(x, y),
        _ => false,
    }
}

/// The order in which gates are told: by rank, then by name.
pub open spec fn gate_before(a: JsonView, b: JsonView) -> bool {
    let ra = status_rank(clean_field(a, "status"@));
    let rb = status_rank(clean_field(b, "status"@));
    ra < rb || (ra == rb && name_before(clean_field(a, "name"@), clean_field(b, "name"@)))
}

fn gate_comes_before(a: &Json, b: &Json) -> (r: bool)
    ensures
        r == gate_before(a@, b@),
{
    let sa = json_field_text(a, "status");
    let sb = json_field_text(b, "status");
    let ra = run_verifier_status_rank(
        match &sa {
            Some(s) => Some(s.as_str()),
            None => None,
        },
    );
    let rb = run_verifier_status_rank(
        match &sb {
            Some(s) => Some(s.as_str()),
            None => None,
        },
    );
    if ra != rb {
        return ra < rb;
    }
    match (json_field_text(a, "name"), json_field_text(b, "name")) {
        (None, Some(_)) => true,
        (Some(x), Some(y)) => comes_before(x.as_str(), y.as_str()),
        _ => false,
    }
}

/// The gates in the order in which they are told.
pub open spec fn gates_in_order(gates: Seq<JsonView>) -> Seq<JsonView> {
    sort_by(gates, |a: JsonView, b: JsonView| gate_before(a, b))
}

fn sort_gates(gates: &Vec<Json>) -> (r: Vec<Json>)
    ensures
        json_views(r@) == gates_in_order(json_views(gates@)),
{
    let ghost before = |a: JsonView, b: JsonView| gate_before(a, b);
    let ghost all = json_views(gates@);
    let mut out: Vec<Json> = Vec::new();
    let mut i: usize = 0;
    proof {
        lemma_json_views(gates@);
        assert(all.take(0) =~= Seq::<JsonView>::empty());
    }
    while i < gates.len()
        invariant
            i <= gates@.len(),
            before == (|a: JsonView, b: JsonView| gate_before(a, b)),
            all == json_views(gates@),
            all.len() == gates@.len(),
            forall|j: int| 0 <= j < gates@.len() ==> #[trigger] all[j] == gates@[j].view(),
            json_views(out@) == sort_by(all.take(i as int), before),
            out@.len() == i,
        decreases gates@.len() - i,
    {
        let gate = gates[i].clone();
        let mut p: usize = out.len();
        let ghost sorted = json_views(out@);
        proof {
            lemma_json_views(out@);
        }
        while p > 0 && gate_comes_before(&gate, &out[p - 1])
            invariant
                p <= out@.len(),
                before == (|a: JsonView, b: JsonView| gate_before(a, b)),
                sorted == json_views(out@),
                sorted.len() == out@.len(),
                forall|j: int| 0 <= j < out@.len() ==> #[trigger] sorted[j] == out@[j].view(),
                forall|q: int| p <= q < sorted.len() ==> before(gate@, #[trigger] sorted[q]),
            decreases p,
        {
            proof {
                assert(sorted[p - 1] == out@[p - 1].view());
            }
            p -= 1;
        }
        proof {
            if p > 0 {
                assert(sorted[p - 1] == out@[p - 1].view());
            }
            lemma_insert_at(sorted, gate@, p as int, before);
            assert(all.take(i + 1).drop_last() =~= all.take(i as int));
            assert(all.take(i + 1).last() == gate@);
        }
        out.insert(p, gate);
        proof {
            lemma_json_views(out@);
            assert(json_views(out@) =~= sorted.insert(p as int, gate@));
        }
        i += 1;
    }
    proof {
        assert(all.take(gates@.len() as int) =~= all);
    }
    out
}

/// The heading that counts the gates, where the result does not bring one.
pub open spec fn verifiers_heading(value: JsonView) -> Seq<char> {
    match clean_field(value, "summary"@) {
        Some(s) => s,
        None => or_else(number_field(value, "passed"@), "?"@) + " passed, "@ + or_else(
            number_field(value, "failed"@),
            "?"@,
        ) + " failed, "@ + or_else(number_field(value, "skipped"@), "?"@) + " skipped"@,
    }
}

/// The lines about one gate: one where it passed; its command and a detail too
/// where it did not.
pub open spec fn gate_lines(before: Seq<Seq<char>>, gate: JsonView) -> Seq<Seq<char>> {
    let status = or_else(clean_field(gate, "status"@), "unknown"@);
    let first = before.push(
        "- "@ + or_else(clean_field(gate, "name"@), "gate"@) + " ("@ + or_else(
            clean_field(gate, "ecosystem"@),
            "unknown"@,
        ) + "): "@ + status + (match number_field(gate, "exit_code"@) {
            Some(code) => " exit="@ + code,
            None => Seq::empty(),
        }),
    );
    if status == "passed"@ {
        first
    } else {
        let second = match clean_field(gate, "command"@) {
            Some(c) => first.push("  command: "@ + summary_of(c, 240)),
            None => first,
        };
        let detail = first_some(
            clean_field(gate, "skipped_reason"@),
            first_some(clean_field(gate, "stderr"@), clean_field(gate, "stdout"@)),
        );
        match detail {
            Some(d) => second.push("  detail: "@ + head_tail_of(d, 600)),
            None => second,
        }
    }
}

/// The lines about the first `n` gates.
pub open spec fn gates_lines(before: Seq<Seq<char>>, gates: Seq<JsonView>, n: nat) -> Seq<Seq<char>>
    decreases n,
{
    if n == 0 {
        before
    } else {
        gate_lines(gates_lines(before, gates, (n - 1) as nat), gates[n - 1])
    }
}

/// The lines that stand for the result of `run_verifiers`: twelve gates are
/// told, and how many more there are.
pub open spec fn verifiers_lines(value: JsonView, gates: Seq<JsonView>) -> Seq<Seq<char>> {
    let ordered = gates_in_order(gates);
    let head = seq![
        "[run_verifiers result summarized for context]"@,
        "summary: "@ + verifiers_heading(value),
    ];
    let profile = clean_field(value, "profile"@);
    let level = clean_field(value, "level"@);
    let with_selection = if profile is Some || level is Some {
        head.push(
            "selection: profile="@ + or_else(profile, "?"@) + ", level="@ + or_else(level, "?"@),
        )
    } else {
        head
    };
    let told = gates_lines(
        with_selection,
        ordered,
        if gates.len() < 12 {
            gates.len()
        } else {
            12
        },
    );
    if gates.len() > 12 {
        told.push(
            "- ... "@ + decimal((gates.len() - 12) as nat)
                + " more gate(s) omitted from context summary"@,
        )
    } else {
        told
    }
}

/// What the model sees of the result of `run_verifiers`: nothing where it
/// lists no gates.
pub open spec fn run_verifiers_summary(parsed: Option<JsonView>) -> Option<Seq<char>> {
    match parsed {
        Some(value) => match value.items_field("gates"@) {
            Some(gates) => Some(joined(verifiers_lines(value, gates), "\n"@)),
            None => None,
        },
        None => None,
    }
}

fn push_gate_lines(lines: &mut Vec<String>, gate: &Json)
    ensures
        texts(final(lines)@) == gate_lines(texts(old(lines)@), gate@),
{
    let status = text_or(json_field_text(gate, "status"), "unknown");
    let name = text_or(json_field_text(gate, "name"), "gate");
    let ecosystem = text_or(json_field_text(gate, "ecosystem"), "unknown");
    let mut first = "- ".to_owned();
    first.append(name.as_str());
    first.append(" (");
    first.append(ecosystem.as_str());
    first.append("): ");
    first.append(status.as_str());
    match json_number_text(gate, "exit_code") {
        Some(code) => {
            let exit = concat(" exit=", code.as_str());
            first.append(exit.as_str());
        },
        None => {
            proof {
                assert(first@ + Seq::<char>::empty() =~= first@);
            }
        },
    }
    push_line(lines, first);
    if same_text(status.as_str(), "passed") {
        return ;
    }
    if let Some(c) = json_field_text(gate, "command") {
        let short = summarize_text(c.as_str(), 240);
        push_line(lines, concat("  command: ", short.as_str()));
    }
    let detail = match json_field_text(gate, "skipped_reason") {
        Some(d) => Some(d),
        None => match json_field_text(gate, "stderr") {
            Some(d) => Some(d),
            None => json_field_text(gate, "stdout"),
        },
    };
    if let Some(d) = detail {
        let cut = summarize_text_head_tail(d.as_str(), 600);
        push_line(lines, concat("  detail: ", cut.as_str()));
    }
}

/// What the model sees of a parsed result of `run_verifiers`.
pub fn compact_parsed_run_verifiers_result(parsed: Option<Json>) -> (r: Option<String>)
    ensures
        opt_text(r) == run_verifiers_summary(crate::json::opt_json(parsed)),
{
    let value = match parsed {
        Some(v) => v,
        None => return None,
    };
    let gates = match value.get_array("gates") {
        Some(g) => g,
        None => return None,
    };
    let heading = match json_field_text(&value, "summary") {
        Some(s) => s,
        None => {
            let mut h = text_or(json_number_text(&value, "passed"), "?");
            h.append(" passed, ");
            let failed = text_or(json_number_text(&value, "failed"), "?");
            h.append(failed.as_str());
            h.append(" failed, ");
            let skipped = text_or(json_number_text(&value, "skipped"), "?");
            h.append(skipped.as_str());
            h.append(" skipped");
            h
        },
    };
    assert(heading@ == verifiers_heading(value@));
    let ordered = sort_gates(gates);
    let mut lines: Vec<String> = Vec::new();
    push_line(&mut lines, "[run_verifiers result summarized for context]".to_owned());
    push_line(&mut lines, concat("summary: ", heading.as_str()));
    proof {
        assert(texts(lines@) =~= seq![
            "[run_verifiers result summarized for context]"@,
            "summary: "@ + verifiers_heading(value@),
        ]);
    }
    let profile = json_field_text(&value, "profile");
    let level = json_field_text(&value, "level");
    if profile.is_some() || level.is_some() {
        let mut selection = "selection: profile=".to_owned();
        let p = text_or(profile, "?");
        selection.append(p.as_str());
        selection.append(", level=");
        let l = text_or(level, "?");
        selection.append(l.as_str());
        push_line(&mut lines, selection);
    }
    let ghost head = texts(lines@);
    let ghost views = json_views(ordered@);
    proof {
        lemma_json_views(ordered@);
        lemma_json_views(gates@);
        crate::order::lemma_sort_contents(
            json_views(gates@),
            |a: JsonView, b: JsonView| gate_before(a, b),
        );
    }
    let n: usize = if ordered.len() < 12 {
        ordered.len()
    } else {
        12
    };
    let mut i: usize = 0;
    while i < n
        invariant
            i <= n <= ordered@.len(),
            views == json_views(ordered@),
            forall|j: int| 0 <= j < ordered@.len() ==> #[trigger] views[j] == ordered@[j].view(),
            texts(lines@) == gates_lines(head, views, i as nat),
        decreases n - i,
    {
        proof {
            assert(views[i as int] == ordered@[i as int].view());
        }
        push_gate_lines(&mut lines, &ordered[i]);
        i += 1;
    }
    if ordered.len() > 12 {
        let mut more = "- ... ".to_owned();
        push_usize(&mut more, ordered.len() - 12);
        more.append(" more gate(s) omitted from context summary");
        push_line(&mut lines, more);
    }
    proof {
        assert(texts(lines@) == verifiers_lines(value@, json_views(gates@)));
    }
    Some(join(&lines, "\n"))
}

/// What the model sees of a result of `run_verifiers`.
pub fn compact_run_verifiers_result_for_context(raw: &str) -> (r: Option<String>)
    ensures
        opt_text(r) == run_verifiers_summary(json_of_text(raw@)),
{
    let parsed = parse_json(raw);
    compact_parsed_run_verifiers_result(parsed)
}

/// The gates are told in order of rank, and those of one rank in order of name:
/// no gate stands behind one that it should come before. None is lost.
pub proof fn law_gates_told_in_order(gates: Seq<JsonView>)
    ensures
        gates_in_order(gates).len() == gates.len(),
        gates_in_order(gates).to_multiset() == gates.to_multiset(),
        forall|i: int, j: int|
            0 <= i < j < gates.len() ==> !gate_before(
                #[trigger] gates_in_order(gates)[j],
                #[trigger] gates_in_order(gates)[i],
            ),
{
    let before = |a: JsonView, b: JsonView| gate_before(a, b);
    crate::order::lemma_sort_contents(gates, before);
    assert forall|a: JsonView, b: JsonView| #[trigger] before(a, b) implies !before(b, a) by {
        if let (Some(x), Some(y)) = (clean_field(a, "name"@), clean_field(b, "name"@)) {
            crate::text::lemma_text_order_total(x, y);
        }
    }
    assert forall|a: JsonView, b: JsonView, c: JsonView|
        !(#[trigger] before(a, b)) && !(#[trigger] before(b, c)) implies !before(a, c) by {
        let (x, y, z) = (
            clean_field(a, "name"@),
            clean_field(b, "name"@),
            clean_field(c, "name"@),
        );
        if let (Some(p), Some(q), Some(s)) = (x, y, z) {
            crate::text::lemma_text_order_total(p, q);
            crate::text::lemma_text_order_total(q, s);
            crate::text::lemma_text_order_total(p, s);
            if p != q && q != s && !text_before(p, q) && !text_before(q, s) {
                crate::text::lemma_text_order_transitive(s, q, p);
            }
        }
    }
    crate::order::lemma_sort_in_order(gates, before);
    assert forall|i: int, j: int| 0 <= i < j < gates.len() implies !gate_before(
        #[trigger] gates_in_order(gates)[j],
        #[trigger] gates_in_order(gates)[i],
    ) by {
        let s = sort_by(gates, before);
        assert(!before(s[j], s[i]));
    }
}

/// The lines that stand for the result of `task_gate_run`.
pub open spec fn task_gate_lines(value: JsonView, gate: JsonView) -> Seq<Seq<char>> {
    let head = seq![
        "[task_gate_run result summarized for context]"@,
        "gate: "@ + or_else(clean_field(gate, "gate"@), "gate"@) + ", status: "@ + or_else(
            clean_field(gate, "status"@),
            "unknown"@,
        ) + (match number_field(gate, "exit_code"@) {
            Some(code) => ", exit_code: "@ + code,
            None => Seq::empty(),
        }),
        "command: "@ + summary_of(
            or_else(clean_field(gate, "command"@), "(unknown command)"@),
            300,
        ),
    ];
    let summary = first_some(
        clean_field(gate, "summary"@),
        first_some(clean_field(value, "stderr_summary"@), clean_field(value, "stdout_summary"@)),
    );
    let with_summary = match summary {
        Some(s) => head.push("summary: "@ + summary_of(s, 800)),
        None => head,
    };
    match clean_field(gate, "log_path"@) {
        Some(p) => with_summary.push("log_path: "@ + p),
        None => with_summary,
    }
}

/// What the model sees of the result of `task_gate_run`: nothing where it
/// names no gate.
pub open spec fn task_gate_summary(parsed: Option<JsonView>) -> Option<Seq<char>> {
    match parsed {
        Some(value) => match value.field("gate"@) {
            Some(gate) => Some(joined(task_gate_lines(value, gate), "\n"@)),
            None => None,
        },
        None => None,
    }
}

/// What the model sees of a parsed result of `task_gate_run`.
pub fn compact_parsed_task_gate_run_result(parsed: Option<Json>) -> (r: Option<String>)
    ensures
        opt_text(r) == task_gate_summary(crate::json::opt_json(parsed)),
{
    let value = match parsed {
        Some(v) => v,
        None => return None,
    };
    let gate = match value.get("gate") {
        Some(g) => g,
        None => return None,
    };
    let mut lines: Vec<String> = Vec::new();
    push_line(&mut lines, "[task_gate_run result summarized for context]".to_owned());
    let mut second = "gate: ".to_owned();
    let name = text_or(json_field_text(gate, "gate"), "gate");
    second.append(name.as_str());
    second.append(", status: ");
    let status = text_or(json_field_text(gate, "status"), "unknown");
    second.append(status.as_str());
    match json_number_text(gate, "exit_code") {
        Some(code) => {
            let exit = concat(", exit_code: ", code.as_str());
            second.append(exit.as_str());
        },
        None => {
            proof {
                assert(second@ + Seq::<char>::empty() =~= second@);
            }
        },
    }
    push_line(&mut lines, second);
    let command = text_or(json_field_text(gate, "command"), "(unknown command)");
    let short = summarize_text(command.as_str(), 300);
    push_line(&mut lines, concat("command: ", short.as_str()));
    proof {
        assert(texts(lines@) =~= seq![
            "[task_gate_run result summarized for context]"@,
            second@,
            "command: "@ + short@,
        ]);
    }
    let summary = match json_field_text(gate, "summary") {
        Some(s) => Some(s),
        None => match json_field_text(&value, "stderr_summary") {
            Some(s) => Some(s),
            None => json_field_text(&value, "stdout_summary"),
        },
    };
    if let Some(s) = summary {
        let cut = summarize_text(s.as_str(), 800);
        push_line(&mut lines, concat("summary: ", cut.as_str()));
    }
    if let Some(p) = json_field_text(gate, "log_path") {
        push_line(&mut lines, concat("log_path: ", p.as_str()));
    }
    proof {
        assert(texts(lines@) == task_gate_lines(value@, gate@));
    }
    Some(join(&lines, "\n"))
}

/// What the model sees of a result of `task_gate_run`.
pub fn compact_task_gate_run_result_for_context(raw: &str) -> (r: Option<String>)
    ensures
        opt_text(r) == task_gate_summary(json_of_text(raw@)),
{
    let parsed = parse_json(raw);
    compact_parsed_task_gate_run_result(parsed)
}

/// The summary of a result of one of the three tools whose results have a form
/// of their own.
pub open spec fn structured_summary(tool_name: Seq<char>, parsed: Option<JsonView>) -> Option<
    Seq<char>,
> {
    if tool_name == "run_tests"@ {
        run_tests_summary(parsed)
    } else if tool_name == "run_verifiers"@ {
        run_verifiers_summary(parsed)
    } else if tool_name == "task_gate_run"@ {
        task_gate_summary(parsed)
    } else {
        None
    }
}

/// The summary of a result of one of the three tools whose results have a form
/// of their own.
pub fn compact_structured_tool_result_for_context(tool_name: &str, raw: &str) -> (r: Option<String>)
    ensures
        opt_text(r) == structured_summary(tool_name@, json_of_text(raw@)),
{
    if same_text(tool_name, "run_tests") {
        compact_run_tests_result_for_context(raw)
    } else if same_text(tool_name, "run_verifiers") {
        compact_run_verifiers_result_for_context(raw)
    } else if same_text(tool_name, "task_gate_run") {
        compact_task_gate_run_result_for_context(raw)
    } else {
        None
    }
}

// ---------------------------------------------------------------------------
// Any tool's result
// ---------------------------------------------------------------------------

/// How many characters of a tool's output a model is shown.
#[derive(Debug, Clone, Copy, PartialEq, Eq, Structural)]
pub struct ToolResultContextLimits {
    pub hard_limit_chars: usize,
    pub noisy_soft_limit_chars: usize,
    pub snippet_chars: usize,
}

/// The limits for a model with a window of so many tokens.
pub open spec fn result_limits(window: Option<u32>) -> ToolResultContextLimits {
    if window is Some && window->0 >= 500_000 {
        ToolResultContextLimits {
            hard_limit_chars: 48_000,
            noisy_soft_limit_chars: 8_000,
            snippet_chars: 4_000,
        }
    } else {
        ToolResultContextLimits {
            hard_limit_chars: 12_000,
            noisy_soft_limit_chars: 2_000,
            snippet_chars: 900,
        }
    }
}

/// The limits for a model with a window of so many tokens, where that is known.
pub fn tool_result_context_limits_for_model(window: Option<u32>) -> (r: ToolResultContextLimits)
    ensures
        r == result_limits(window),
{
    let large = match window {
        Some(w) => w >= 500_000,
        None => false,
    };
    if large {
        ToolResultContextLimits {
            hard_limit_chars: 48_000,
            noisy_soft_limit_chars: 8_000,
            snippet_chars: 4_000,
        }
    } else {
        ToolResultContextLimits {
            hard_limit_chars: 12_000,
            noisy_soft_limit_chars: 2_000,
            snippet_chars: 900,
        }
    }
}

/// An output is too long for the context.
pub open spec fn must_compact(window: Option<u32>, tool_name: Seq<char>, raw: Seq<char>) -> bool {
    let limits = result_limits(window);
    raw.len() > limits.hard_limit_chars || (is_noisy_tool(tool_name) && raw.len()
        > limits.noisy_soft_limit_chars)
}

/// What the model sees of an output that has no form of its own: all of it, or
/// a snippet with a note of what was left out.
pub open spec fn plain_result_text(
    window: Option<u32>,
    tool_name: Seq<char>,
    raw: Seq<char>,
    metadata: Option<JsonView>,
) -> Seq<char> {
    if !must_compact(window, tool_name, raw) {
        raw
    } else {
        let snippet = head_tail_of(raw, result_limits(window).snippet_chars as nat);
        let intro = "["@ + tool_name + " output compacted to protect context]\n"@;
        let with_summary = match metadata_summary(metadata) {
            Some(s) => intro + "Summary: "@ + s + "\n"@,
            None => intro,
        };
        with_summary + "Snippet: "@ + snippet + "\n(Original: "@ + decimal(raw.len())
            + " chars, omitted: "@ + decimal(
            if raw.len() >= snippet.len() {
                (raw.len() - snippet.len()) as nat
            } else {
                0
            },
        ) + " chars.)"@
    }
}

/// What the model sees of an output that has no form of its own.
pub fn compact_plain_result(
    window: Option<u32>,
    tool_name: &str,
    raw: &str,
    metadata: &Option<Json>,
) -> (r: String)
    ensures
        r@ == plain_result_text(window, tool_name@, raw@, crate::json::opt_json(*metadata)),
{
    let limits = tool_result_context_limits_for_model(window);
    let raw_chars: usize = chars_of(raw).len();
    let must = raw_chars > limits.hard_limit_chars || (tool_result_is_noisy(tool_name) && raw_chars
        > limits.noisy_soft_limit_chars);
    if !must {
        return raw.to_owned();
    }
    let snippet = summarize_text_head_tail(raw, limits.snippet_chars);
    let snippet_chars: usize = chars_of(snippet.as_str()).len();
    let omitted: usize = raw_chars.saturating_sub(snippet_chars);
    let mut out = "[".to_owned();
    out.append(tool_name);
    out.append(" output compacted to protect context]\n");
    if let Some(s) = tool_result_metadata_summary(metadata) {
        out.append("Summary: ");
        out.append(s.as_str());
        out.append("\n");
    }
    out.append("Snippet: ");
    out.append(snippet.as_str());
    out.append("\n(Original: ");
    push_usize(&mut out, raw_chars);
    out.append(" chars, omitted: ");
    push_usize(&mut out, omitted);
    out.append(" chars.)");
    out
}

/// What the model sees of a tool's output, given what the trimmed output
/// denotes as JSON.
pub open spec fn result_text(
    window: Option<u32>,
    tool_name: Seq<char>,
    output: ToolResultView,
    parsed: Option<JsonView>,
) -> Seq<char> {
    let raw = trimmed(output.content);
    if raw.len() == 0 {
        Seq::empty()
    } else {
        match subagent_summary(tool_name, parsed) {
            Some(s) => s,
            None => match structured_summary(tool_name, parsed) {
                Some(s) => s,
                None => plain_result_text(window, tool_name, raw, output.metadata),
            },
        }
    }
}

/// What the model sees of a tool's output. `window` is the size of the model's
/// context window in tokens, where that is known.
pub fn compact_tool_result_for_context(
    window: Option<u32>,
    tool_name: &str,
    output: &ToolResult,
) -> (r: String)
    ensures
        r@ == result_text(
            window,
            tool_name@,
            output@,
            json_of_text(trimmed(output@.content)),
        ),
{
    let raw = trim(output.content.as_str());
    if raw.as_str().is_empty() {
        proof {
            assert(raw@ =~= Seq::<char>::empty());
        }
        return String::new();
    }
    if let Some(summary) = compact_subagent_tool_result_for_context(tool_name, raw.as_str()) {
        return summary;
    }
    if let Some(summary) = compact_structured_tool_result_for_context(tool_name, raw.as_str()) {
        return summary;
    }
    compact_plain_result(window, tool_name, raw.as_str(), &output.metadata)
}

/// An output that fits is shown unchanged, but for the white space around it,
/// whichever tool wrote it, unless it has a form of its own.
pub proof fn law_short_results_pass(
    window: Option<u32>,
    tool_name: Seq<char>,
    output: ToolResultView,
    parsed: Option<JsonView>,
)
    requires
        trimmed(output.content).len() <= 2_000,
        subagent_summary(tool_name, parsed) is None,
        structured_summary(tool_name, parsed) is None,
    ensures
        result_text(window, tool_name, output, parsed) == trimmed(output.content),
{
    if trimmed(output.content).len() == 0 {
        assert(trimmed(output.content) =~= Seq::<char>::empty());
    }
}

// ---------------------------------------------------------------------------
// Summaries in the system prompt
// ---------------------------------------------------------------------------

/// A text holds a summary of earlier conversation.
pub open spec fn holds_summary(text: Seq<char>) -> bool {
    contains_text(text, "Conversation Summary (Auto-Generated)"@)
}

/// The blocks of a prompt that hold a summary.
pub open spec fn summary_blocks(blocks: Seq<crate::models::BlockView>) -> Seq<
    crate::models::BlockView,
> {
    blocks.filter(|b: crate::models::BlockView| holds_summary(b.text))
}

/// The part of a prompt that summarises earlier conversation, if any.
pub open spec fn compaction_part(prompt: Option<PromptView>) -> Option<PromptView> {
    match prompt {
        Some(PromptView::Text(text)) => if holds_summary(text) {
            Some(PromptView::Text(text))
        } else {
            None
        },
        Some(PromptView::Blocks(blocks)) => if summary_blocks(blocks).len() == 0 {
            None
        } else {
            Some(PromptView::Blocks(summary_blocks(blocks)))
        },
        None => None,
    }
}

/// The part of a prompt that summarises earlier conversation, if any.
pub fn extract_compaction_summary_prompt(prompt: Option<SystemPrompt>) -> (r: Option<SystemPrompt>)
    ensures
        opt_prompt(r) == compaction_part(opt_prompt(prompt)),
{
    match prompt {
        Some(SystemPrompt::Text(text)) => {
            if contains(text.as_str(), "Conversation Summary (Auto-Generated)") {
                Some(SystemPrompt::Text(text))
            } else {
                None
            }
        },
        Some(SystemPrompt::Blocks(blocks)) => {
            let ghost all = block_views(blocks@);
            let ghost keep = |b: crate::models::BlockView| holds_summary(b.text);
            let mut kept: Vec<SystemBlock> = Vec::new();
            let mut i: usize = 0;
            proof {
                assert(all.take(0) =~= Seq::empty());
                reveal(Seq::filter);
            }
            while i < blocks.len()
                invariant
                    i <= blocks@.len(),
                    all == block_views(blocks@),
                    keep == (|b: crate::models::BlockView| holds_summary(b.text)),
                    block_views(kept@) == all.take(i as int).filter(keep),
                decreases blocks@.len() - i,
            {
                let ghost before = block_views(kept@);
                proof {
                    assert(all.take(i + 1).drop_last() =~= all.take(i as int));
                    assert(all.take(i + 1).last() == blocks@[i as int]@);
                    reveal(Seq::filter);
                }
                if contains(blocks[i].text.as_str(), "Conversation Summary (Auto-Generated)") {
                    kept.push(blocks[i].clone());
                    proof {
                        assert(block_views(kept@) =~= before.push(blocks@[i as int]@));
                    }
                }
                i += 1;
            }
            proof {
                assert(all.take(all.len() as int) =~= all);
            }
            if kept.len() == 0 {
                None
            } else {
                Some(SystemPrompt::Blocks(kept))
            }
        },
        None => None,
    }
}

// ---------------------------------------------------------------------------
// Estimates
// ---------------------------------------------------------------------------

/// A number, or the largest machine number where that is less.
pub open spec fn saturated(n: int) -> int {
    if n <= usize::MAX {
        n
    } else {
        usize::MAX as int
    }
}

/// One token for every three characters, rounded up.
pub open spec fn text_estimate(text: Seq<char>) -> int {
    (text.len() + 2) as int / 3
}

/// One token for every three characters, rounded up.
pub fn estimate_text_tokens_conservative(text: &str) -> (r: usize)
    ensures
        r == text_estimate(text@),
{
    let n: usize = chars_of(text).len();
    if n % 3 == 0 {
        n / 3
    } else {
        n / 3 + 1
    }
}

/// The estimates of a list of blocks, added up.
pub open spec fn blocks_estimate(blocks: Seq<crate::models::BlockView>) -> int
    decreases blocks.len(),
{
    if blocks.len() == 0 {
        0
    } else {
        blocks_estimate(blocks.drop_last()) + text_estimate(blocks.last().text)
    }
}

/// The estimate for a system prompt.
pub open spec fn system_estimate(system: Option<PromptView>) -> int {
    match system {
        Some(PromptView::Text(text)) => text_estimate(text),
        Some(PromptView::Blocks(blocks)) => blocks_estimate(blocks),
        None => 0,
    }
}

proof fn lemma_blocks_estimate_grows(blocks: Seq<crate::models::BlockView>, i: int)
    requires
        0 <= i <= blocks.len(),
    ensures
        0 <= blocks_estimate(blocks.take(i)) <= blocks_estimate(blocks),
    decreases blocks.len() - i, i,
{
    if i < blocks.len() {
        lemma_blocks_estimate_grows(blocks, i + 1);
        assert(blocks.take(i + 1).drop_last() =~= blocks.take(i));
        lemma_blocks_estimate_not_negative(blocks.take(i));
    } else {
        assert(blocks.take(i) =~= blocks);
        lemma_blocks_estimate_not_negative(blocks);
    }
}

proof fn lemma_blocks_estimate_not_negative(blocks: Seq<crate::models::BlockView>)
    ensures
        0 <= blocks_estimate(blocks),
    decreases blocks.len(),
{
    if blocks.len() > 0 {
        lemma_blocks_estimate_not_negative(blocks.drop_last());
    }
}

/// The estimate for a system prompt.
pub fn estimate_system_tokens_conservative(system: Option<&SystemPrompt>) -> (r: usize)
    requires
        system_estimate(crate::models::opt_prompt_ref(system)) <= usize::MAX,
    ensures
        r == system_estimate(crate::models::opt_prompt_ref(system)),
{
    match system {
        Some(SystemPrompt::Text(text)) => estimate_text_tokens_conservative(text.as_str()),
        Some(SystemPrompt::Blocks(blocks)) => {
            let ghost all = block_views(blocks@);
            let mut total: usize = 0;
            let mut i: usize = 0;
            proof {
                assert(all.take(0) =~= Seq::empty());
            }
            while i < blocks.len()
                invariant
                    i <= blocks@.len(),
                    all == block_views(blocks@),
                    blocks_estimate(all) <= usize::MAX,
                    total == blocks_estimate(all.take(i as int)),
                decreases blocks@.len() - i,
            {
                proof {
                    lemma_blocks_estimate_grows(all, i + 1);
                    assert(all.take(i + 1).drop_last() =~= all.take(i as int));
                    assert(all.take(i + 1).last() == blocks@[i as int]@);
                }
                total = total + estimate_text_tokens_conservative(blocks[i].text.as_str());
                i += 1;
            }
            proof {
                assert(all.take(all.len() as int) =~= all);
            }
            total
        },
        None => 0,
    }
}

/// The estimate for a request: half as much again as the messages' own
/// estimate, the system prompt, and twelve tokens a message with 48 on top for
/// framing. Each step stops at the largest machine number.
pub open spec fn input_estimate(
    message_estimate: int,
    message_count: int,
    system: Option<PromptView>,
) -> int {
    saturated(
        saturated((saturated(message_estimate * 3) + 1) / 2 + system_estimate(system)) + saturated(
            saturated(message_count * 12) + 48,
        ),
    )
}

fn saturating_times(n: usize, k: usize) -> (r: usize)
    requires
        k > 0,
    ensures
        r == saturated(n * k),
{
    if n <= usize::MAX / k {
        proof {
            assert(n * k <= usize::MAX) by (nonlinear_arith)
                requires
                    n <= usize::MAX / k,
                    k > 0,
            ;
        }
        n * k
    } else {
        proof {
            assert(n * k > usize::MAX) by (nonlinear_arith)
                requires
                    n > usize::MAX / k,
                    k > 0,
            ;
        }
        usize::MAX
    }
}

/// The estimate for a request with `message_count` messages whose own estimate
/// is `message_estimate`.
pub fn estimate_input_tokens_conservative(
    message_estimate: usize,
    message_count: usize,
    system: Option<&SystemPrompt>,
) -> (r: usize)
    requires
        system_estimate(crate::models::opt_prompt_ref(system)) <= usize::MAX,
    ensures
        r == input_estimate(
            message_estimate as int,
            message_count as int,
            crate::models::opt_prompt_ref(system),
        ),
{
    let tripled = saturating_times(message_estimate, 3);
    let message_tokens: usize = if tripled % 2 == 0 {
        tripled / 2
    } else {
        tripled / 2 + 1
    };
    let system_tokens = estimate_system_tokens_conservative(system);
    let framing = saturating_times(message_count, 12).saturating_add(48);
    message_tokens.saturating_add(system_tokens).saturating_add(framing)
}

// ---------------------------------------------------------------------------
// Room for output
// ---------------------------------------------------------------------------

/// The output cap that a setting asks for: a positive number.
pub open spec fn cap_override(setting: Option<Seq<char>>) -> Option<u32> {
    match setting {
        Some(raw) => match parsed_number(trimmed(raw), u32::MAX as nat) {
            Some(n) => if n > 0 {
                Some(n as u32)
            } else {
                None
            },
            None => None,
        },
        None => None,
    }
}

/// The output cap for a model: the setting, or what the window allows.
pub open spec fn output_cap(setting: Option<Seq<char>>, window: Option<u32>) -> u32 {
    match cap_override(setting) {
        Some(n) => n,
        None => {
            let w = or_else(window, 128_000u32);
            if w >= 500_000 || w / 2 >= 65_536 {
                65_536
            } else {
                w / 2
            }
        },
    }
}

/// The most output tokens to ask a model for. `setting` is the user's override,
/// `window` the size of the model's context window, where either is known.
pub fn effective_max_output_tokens(setting: Option<&str>, window: Option<u32>) -> (r: u32)
    ensures
        r == output_cap(opt_str(setting), window),
{
    if let Some(raw) = setting {
        let t = trim(raw);
        if let Some(n) = parse_number(t.as_str(), u32::MAX as u64) {
            if n > 0 {
                return n as u32;
            }
        }
    }
    let w: u32 = match window {
        Some(w) => w,
        None => 128_000,
    };
    if w >= 500_000 {
        API_MAX_OUTPUT_TOKENS
    } else if w / 2 < API_MAX_OUTPUT_TOKENS {
        w / 2
    } else {
        API_MAX_OUTPUT_TOKENS
    }
}

/// The window that a route states, where it is positive and fits 32 bits.
pub fn route_window_tokens(context_tokens: Option<u64>) -> (r: Option<u32>)
    ensures
        r == (match context_tokens {
            Some(n) => if 0 < n <= u32::MAX {
                Some(n as u32)
            } else {
                None
            },
            None => None,
        }),
{
    match context_tokens {
        Some(n) => if 0 < n && n <= u32::MAX as u64 {
            Some(n as u32)
        } else {
            None
        },
        None => None,
    }
}

/// A cap, bounded by the route's own where it has one.
pub open spec fn bounded_by_route(cap: u32, route_cap: Option<u32>) -> u32 {
    match route_cap {
        Some(c) => if c < cap {
            c
        } else {
            cap
        },
        None => cap,
    }
}

/// The lesser of a cap and the cap of a route.
pub fn route_capped(cap: u32, route_cap: Option<u32>) -> (r: u32)
    ensures
        r == bounded_by_route(cap, route_cap),
{
    match route_cap {
        Some(c) => if c < cap {
            c
        } else {
            cap
        },
        None => cap,
    }
}

/// The window that a route states, where it is a usable one.
pub open spec fn stated_window(context_tokens: Option<u64>) -> Option<u64> {
    match context_tokens {
        Some(n) => if 0 < n <= u32::MAX {
            Some(n)
        } else {
            None
        },
        None => None,
    }
}

/// The output that a budget leaves, at least one token; the cap where it fits no
/// cap.
pub open spec fn output_left(left: u64, cap: u32) -> int {
    let n = if left <= u32::MAX {
        left as int
    } else {
        cap as int
    };
    if n == 0 {
        1
    } else {
        n
    }
}

/// The most output tokens to ask for on a route. `cap` is the model's cap,
/// `route_cap` the route's own, and `context_tokens` the window that the route
/// states. `budget` tells what a window leaves for output under a cap; it is asked
/// where the window is a usable one.
pub fn effective_max_output_tokens_for_route<F: Fn(u64, u64) -> u64>(
    cap: u32,
    route_cap: Option<u32>,
    context_tokens: Option<u64>,
    budget: &F,
) -> (r: u32)
    requires
        forall|window: u64, c: u64| #[trigger] call_requires(budget, (window, c)),
    ensures
        ({
            let bounded = bounded_by_route(cap, route_cap);
            match stated_window(context_tokens) {
                None => r == bounded,
                Some(window) => exists|left: u64| #[trigger]
                    call_ensures(budget, (window, bounded as u64), left) && r == output_left(
                        left,
                        bounded,
                    ),
            }
        }),
{
    let bounded = route_capped(cap, route_cap);
    let window: u64 = match context_tokens {
        Some(n) => n,
        None => 0,
    };
    if window == 0 || window > u32::MAX as u64 {
        return bounded;
    }
    let left: u64 = budget(window, bounded as u64);
    let n: u32 = if left <= u32::MAX as u64 {
        left as u32
    } else {
        bounded
    };
    if n == 0 {
        1
    } else {
        n
    }
}

/// How many output tokens are kept free when input is budgeted: the route's own
/// cap up to the turn's, or the turn's cap in a large window, or the model's cap.
pub open spec fn output_reservation(
    model_cap: u32,
    window_tokens: u32,
    route_cap: Option<u32>,
) -> u32 {
    match route_cap {
        Some(c) => if c < 262_144 {
            c
        } else {
            262_144
        },
        None => if window_tokens >= 500_000 {
            262_144
        } else {
            model_cap
        },
    }
}

/// How many output tokens are kept free when input is budgeted.
pub fn route_output_reservation_for_window(
    model_cap: u32,
    window_tokens: u32,
    route_cap: Option<u32>,
) -> (r: u32)
    ensures
        r == output_reservation(model_cap, window_tokens, route_cap),
{
    match route_cap {
        Some(c) => if c < TURN_MAX_OUTPUT_TOKENS {
            c
        } else {
            TURN_MAX_OUTPUT_TOKENS
        },
        None => if window_tokens >= 500_000 {
            TURN_MAX_OUTPUT_TOKENS
        } else {
            model_cap
        },
    }
}

/// A count of tokens, where it fits a machine number.
pub open spec fn fitting(tokens: Option<u64>) -> Option<usize> {
    match tokens {
        Some(n) => if n <= usize::MAX {
            Some(n as usize)
        } else {
            None
        },
        None => None,
    }
}

/// The input tokens that a route's budget leaves, where there is a budget and
/// they fit a machine number. `window_tokens` is the route's window, `model_cap`
/// and `route_cap` are the caps on output of its model and of the route itself.
/// `budget` tells what is left for input while an output is kept free; it is asked
/// with the reservation for that window.
pub fn context_input_budget_for_route<F: Fn(u32) -> Option<u64>>(
    window_tokens: u32,
    model_cap: u32,
    route_cap: Option<u32>,
    budget: &F,
) -> (r: Option<usize>)
    requires
        forall|kept: u32| #[trigger] call_requires(budget, (kept,)),
    ensures
        exists|left: Option<u64>| #[trigger]
            call_ensures(
                budget,
                (output_reservation(model_cap, window_tokens, route_cap),),
                left,
            ) && r == fitting(left),
{
    let kept: u32 = route_output_reservation_for_window(model_cap, window_tokens, route_cap);
    match budget(kept) {
        Some(n) => if n <= usize::MAX as u64 {
            Some(n as usize)
        } else {
            None
        },
        None => None,
    }
}

/// A model is never asked for more output than the request limit, nor for more
/// than half of a window that is known, unless the user's setting says so.
pub proof fn law_output_cap_bounded(setting: Option<Seq<char>>, window: Option<u32>)
    requires
        cap_override(setting) is None,
    ensures
        output_cap(setting, window) <= 65_536,
        window is Some ==> output_cap(setting, window) <= window->0 / 2,
{
}

} // verus!
