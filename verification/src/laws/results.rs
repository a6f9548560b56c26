//! What a model is told of the results of tools.

use crate::context::{
    blocks_estimate, bounded_by_route, cap_override, clean_field, compaction_part, first_some, gate_before,
    gate_lines, gates_in_order, gates_lines, head_tail_of, input_estimate, law_gates_told_in_order,
    metadata_summary, must_compact, number_field, output_cap, output_left, output_reservation,
    plain_result_text, result_limits, result_text, run_tests_lines, run_tests_summary,
    run_verifiers_summary, snapshot_lines, snapshot_text, snapshots_text, stated_window, structured_summary,
    subagent_header, subagent_summary, subagents_summary, summary_blocks, summary_of, system_estimate,
    task_gate_lines, task_gate_summary, text_estimate, truncation_marker, verifiers_heading,
    verifiers_lines,
};
use crate::json::{law_single_members_are_read, JsonView};
use crate::laws::search::holds;
use crate::models::{BlockView, PromptView, ToolResultView};
use crate::text::{decimal, joined, lemma_joined_add, trimmed};
use vstd::prelude::*;

verus! {

pub proof fn lemma_holds_between(a: Seq<char>, x: Seq<char>, b: Seq<char>)
    ensures
        holds(a + x + b, x),
{
    let t = a + x + b;
    assert(t.subrange(a.len() as int, (a.len() + x.len()) as int) =~= x);
}

pub proof fn lemma_holds_within(text: Seq<char>, mid: Seq<char>, x: Seq<char>)
    requires
        holds(text, mid),
        holds(mid, x),
    ensures
        holds(text, x),
{
    let i = choose|i: int|
        0 <= i && i + mid.len() <= text.len() && #[trigger] text.subrange(i, i + mid.len()) == mid;
    let j = choose|j: int|
        0 <= j && j + x.len() <= mid.len() && #[trigger] mid.subrange(j, j + x.len()) == x;
    assert(text.subrange(i + j, i + j + x.len()) =~= x) by {
        assert(text.subrange(i, i + mid.len()).subrange(j, j + x.len()) =~= text.subrange(
            i + j,
            i + j + x.len(),
        ));
    }
}

proof fn lemma_regroup(
    front: Seq<char>,
    a: Seq<char>,
    b: Seq<char>,
    c: Seq<char>,
    d: Seq<char>,
    e: Seq<char>,
    f: Seq<char>,
)
    ensures
        front + (a + b) + c + d + e + f == front + (a + (b + c + d) + (e + f)),
        front + (a + b) + c == (front + a) + (b + c) + Seq::<char>::empty(),
{
    assert(front + (a + b) + c + d + e + f =~= front + (a + (b + c + d) + (e + f)));
    assert(front + (a + b) + c =~= (front + a) + (b + c) + Seq::<char>::empty());
}

pub proof fn lemma_joined_holds(parts: Seq<Seq<char>>, sep: Seq<char>, i: int)
    requires
        0 <= i < parts.len(),
    ensures
        holds(joined(parts, sep), parts[i]),
    decreases parts.len(),
{
    let none = Seq::<char>::empty();
    if parts.len() == 1 {
        assert(none + parts[0] + none =~= parts[0]);
        lemma_holds_between(none, parts[0], none);
    } else if i == parts.len() - 1 {
        let front = joined(parts.drop_last(), sep) + sep;
        lemma_holds_between(front, parts[i], none);
        assert(front + parts[i] + none =~= joined(parts, sep));
    } else {
        lemma_joined_holds(parts.drop_last(), sep, i);
        let front = joined(parts.drop_last(), sep);
        lemma_holds_between(none, front, sep + parts.last());
        assert(none + front + (sep + parts.last()) =~= joined(parts, sep));
        lemma_holds_within(joined(parts, sep), front, parts[i]);
    }
}

proof fn lemma_joined_begins(parts: Seq<Seq<char>>, sep: Seq<char>)
    requires
        parts.len() >= 3,
    ensures
        (parts[0] + sep + parts[1] + sep + parts[2]).is_prefix_of(joined(parts, sep)),
    decreases parts.len(),
{
    let head = parts[0] + sep + parts[1] + sep + parts[2];
    if parts.len() == 3 {
        let two = parts.drop_last();
        let one = two.drop_last();
        assert(joined(one, sep) == parts[0]);
        assert(joined(two, sep) == parts[0] + sep + parts[1]);
        assert(joined(parts, sep) =~= head);
    } else {
        lemma_joined_begins(parts.drop_last(), sep);
        let front = joined(parts.drop_last(), sep);
        assert forall|k: int| 0 <= k < head.len() implies head[k] == #[trigger] joined(
            parts,
            sep,
        )[k] by {
            assert(front[k] == head[k]);
        }
    }
}

// ---------------------------------------------------------------------------
// Tests and gates
// ---------------------------------------------------------------------------

/// The result of a run of tests with a truth value under `success` is told, and
/// its second line says that they passed where that is true, and that they failed
/// where it is false.
#[verifier::rlimit(40)]
pub proof fn law_outcome_of_tests_is_told(members: Seq<(Seq<char>, JsonView)>, i: int, success: bool)
    requires
        0 <= i < members.len(),
        members[i] == ("success"@, JsonView::Bool(success)),
        forall|j: int| 0 <= j < i ==> (#[trigger] members[j]).0 != "success"@,
    ensures
        run_tests_summary(Some(JsonView::Object(members))) is Some,
        ({
            let told = run_tests_summary(Some(JsonView::Object(members)))->0;
            let outcome = if success {
                "status: passed, exit_code: "@
            } else {
                "status: failed, exit_code: "@
            };
            ("[run_tests result summarized for context]"@ + "\n"@ + outcome).is_prefix_of(told)
        }),
{
    let value = JsonView::Object(members);
    law_single_members_are_read(members, i);
    let lines = run_tests_lines(value, success);
    lemma_joined_begins(lines, "\n"@);
    reveal_strlit("status: ");
    reveal_strlit("passed");
    reveal_strlit("failed");
    reveal_strlit(", exit_code: ");
    reveal_strlit("status: passed, exit_code: ");
    reveal_strlit("status: failed, exit_code: ");
    let outcome = if success {
        "status: passed, exit_code: "@
    } else {
        "status: failed, exit_code: "@
    };
    let word = if success {
        "passed"@
    } else {
        "failed"@
    };
    assert("status: "@ + word + ", exit_code: "@ =~= outcome);
    let told = joined(lines, "\n"@);
    let begin = lines[0] + "\n"@ + lines[1] + "\n"@ + lines[2];
    let head = "[run_tests result summarized for context]"@ + "\n"@ + outcome;
    assert forall|k: int| 0 <= k < head.len() implies head[k] == #[trigger] told[k] by {
        assert(begin[k] == told[k]);
        assert(lines[0] == "[run_tests result summarized for context]"@);
        assert(lines[1] == "status: "@ + word + ", exit_code: "@ + crate::context::or_else(
            number_field(value, "exit_code"@),
            "?"@,
        ));
        assert(begin[k] == head[k]);
    }
}

proof fn lemma_tests_number(value: JsonView, success: bool, n: nat)
    requires
        number_field(value, "exit_code"@) == Some(decimal(n)),
    ensures
        holds(run_tests_lines(value, success)[1], "exit_code: "@ + decimal(n)),
{
    let word = if success {
        "passed"@
    } else {
        "failed"@
    };
    let none = Seq::<char>::empty();
    assert(", exit_code: "@ =~= ", "@ + "exit_code: "@) by {
        reveal_strlit(", exit_code: ");
        reveal_strlit(", ");
        reveal_strlit("exit_code: ");
    }
    lemma_regroup("status: "@ + word, ", "@, "exit_code: "@, decimal(n), none, none, none);
    lemma_holds_between("status: "@ + word + ", "@, "exit_code: "@ + decimal(n), none);
}

/// A run of tests is told nothing of where it does not say whether they passed.
/// Else its number, its command and what it wrote are told, in full where that is
/// short.
pub proof fn law_details_of_tests_are_told(value: JsonView)
    ensures
        value.truth_field("success"@) is None ==> run_tests_summary(Some(value)) is None,
        run_tests_summary(None) is None,
        run_tests_summary(Some(value)) matches Some(told) ==> {
            &&& value.field("exit_code"@) matches Some(JsonView::PosInt(n)) ==> holds(
                told,
                "exit_code: "@ + decimal(n as nat),
            )
            &&& clean_field(value, "command"@) matches Some(c) ==> c.len() <= 300 ==> holds(
                told,
                "command: "@ + c,
            )
            &&& clean_field(value, "stderr"@) matches Some(s) ==> s.len() <= 500 ==> holds(
                told,
                "stderr: "@ + s,
            )
            &&& clean_field(value, "stdout"@) matches Some(s) ==> s.len() <= 500 ==> holds(
                told,
                "stdout: "@ + s,
            )
        },
{
    if let Some(success) = value.truth_field("success"@) {
        let lines = run_tests_lines(value, success);
        let told = joined(lines, "\n"@);
        assert(run_tests_summary(Some(value)) == Some(told));
        if let Some(JsonView::PosInt(n)) = value.field("exit_code"@) {
            assert(holds(told, "exit_code: "@ + decimal(n as nat))) by {
                lemma_tests_number(value, success, n as nat);
                lemma_joined_holds(lines, "\n"@, 1);
                lemma_holds_within(told, lines[1], "exit_code: "@ + decimal(n as nat));
            }
        }
        lemma_joined_holds(lines, "\n"@, 2);
        if clean_field(value, "stderr"@) is Some {
            lemma_joined_holds(lines, "\n"@, 3);
        }
        if clean_field(value, "stdout"@) is Some {
            lemma_joined_holds(lines, "\n"@, lines.len() - 1);
        }
    }
}

/// The status of a gate.
pub open spec fn gate_status(gate: JsonView) -> Option<Seq<char>> {
    clean_field(gate, "status"@)
}

/// Failures are told before what was skipped, that before what passed, and that
/// before anything else; so no failure stands behind a gate of another outcome.
pub proof fn law_failures_are_told_first(gates: Seq<JsonView>, i: int, j: int)
    requires
        0 <= i < j < gates.len(),
    ensures
        ({
            let first = gate_status(gates_in_order(gates)[i]);
            let second = gate_status(gates_in_order(gates)[j]);
            let failed = |s: Option<Seq<char>>| s == Some("failed"@) || s == Some("timeout"@);
            &&& failed(second) ==> failed(first)
            &&& second == Some("skipped"@) ==> failed(first) || first == second
            &&& second == Some("passed"@) ==> failed(first) || first == Some("skipped"@) || first
                == second
        }),
{
    law_gates_told_in_order(gates);
    reveal_strlit("failed");
    reveal_strlit("timeout");
    reveal_strlit("skipped");
    reveal_strlit("passed");
    let a = gates_in_order(gates)[i];
    let b = gates_in_order(gates)[j];
    assert(!gate_before(b, a));
    assert("failed"@.len() == 6 && "timeout"@.len() == 7 && "skipped"@.len() == 7 && "passed"@.len()
        == 6);
    assert("failed"@[0] != "passed"@[0]);
    assert("timeout"@[0] != "skipped"@[0]);
}

proof fn lemma_gates_lines_grow(before: Seq<Seq<char>>, gates: Seq<JsonView>, n: nat, m: nat)
    requires
        n <= m <= gates.len(),
    ensures
        gates_lines(before, gates, n).is_prefix_of(gates_lines(before, gates, m)),
    decreases m,
{
    if n < m {
        lemma_gates_lines_grow(before, gates, n, (m - 1) as nat);
    }
}

/// The line that names a gate and its outcome.
pub open spec fn outcome_line(gate: JsonView) -> Seq<char> {
    "- "@ + (match clean_field(gate, "name"@) {
        Some(name) => name,
        None => "gate"@,
    }) + " ("@ + (match clean_field(gate, "ecosystem"@) {
        Some(e) => e,
        None => "unknown"@,
    }) + "): "@ + (match gate_status(gate) {
        Some(s) => s,
        None => "unknown"@,
    })
}

/// Of the gates of a run twelve are named with their outcomes, and how many there are
/// beyond them is told; of one that did not pass the command is told, and why it was
/// skipped or what it wrote. A run without gates is told nothing of.
#[verifier::rlimit(40)]
pub proof fn law_gates_are_told(value: JsonView, gates: Seq<JsonView>, k: int)
    requires
        value.items_field("gates"@) == Some(gates),
        0 <= k < gates.len(),
        k < 12,
    ensures
        run_verifiers_summary(Some(value)) matches Some(told) && {
            &&& gates.len() > 12 ==> holds(
                told,
                "- ... "@ + decimal((gates.len() - 12) as nat)
                    + " more gate(s) omitted from context summary"@,
            )
        },
        run_verifiers_summary(Some(value)) matches Some(told) && {
            let gate = gates_in_order(gates)[k];
            &&& holds(told, outcome_line(gate))
            &&& gate_status(gate) != Some("passed"@) ==> {
                &&& clean_field(gate, "command"@) matches Some(c) ==> c.len() <= 240 ==> holds(
                    told,
                    "  command: "@ + c,
                )
                &&& clean_field(gate, "skipped_reason"@) matches Some(d) ==> d.len() <= 600
                    ==> holds(told, "  detail: "@ + d)
                &&& clean_field(gate, "skipped_reason"@) is None ==> (clean_field(gate, "stderr"@)
                    matches Some(d) ==> d.len() <= 600 ==> holds(told, "  detail: "@ + d))
            }
        },
{
    law_gates_told_in_order(gates);
    let lines = verifiers_lines(value, gates);
    let told = joined(lines, "\n"@);
    let ordered = gates_in_order(gates);
    let gate = ordered[k];
    let head = seq![
        "[run_verifiers result summarized for context]"@,
        "summary: "@ + crate::context::verifiers_heading(value),
    ];
    let profile = clean_field(value, "profile"@);
    let level = clean_field(value, "level"@);
    let start = if profile is Some || level is Some {
        head.push(
            "selection: profile="@ + crate::context::or_else(profile, "?"@) + ", level="@
                + crate::context::or_else(level, "?"@),
        )
    } else {
        head
    };
    let before = gates_lines(start, ordered, k as nat);
    let here = gates_lines(start, ordered, (k + 1) as nat);
    let n: nat = if gates.len() < 12 {
        gates.len()
    } else {
        12
    };
    lemma_gates_lines_grow(start, ordered, (k + 1) as nat, n);
    assert(gates_lines(start, ordered, n).is_prefix_of(lines));
    if gates.len() > 12 {
        lemma_joined_holds(lines, "\n"@, lines.len() - 1);
    }
    assert(here == gate_lines(before, gate));
    assert forall|i: int| 0 <= i < here.len() implies #[trigger] lines[i] == here[i] by {
        assert(gates_lines(start, ordered, n)[i] == here[i]);
    }
    let at = before.len() as int;
    lemma_joined_holds(lines, "\n"@, at);
    let first = outcome_line(gate);
    let rest = match number_field(gate, "exit_code"@) {
        Some(code) => " exit="@ + code,
        None => Seq::empty(),
    };
    assert(here[at] == lines[at]);
    lemma_holds_between(Seq::empty(), first, rest);
    reveal_strlit("unknown");
    reveal_strlit("passed");
    assert("unknown"@.len() == 7 && "passed"@.len() == 6);
    assert(here[at] =~= Seq::<char>::empty() + first + rest);
    lemma_holds_within(told, lines[at], first);
    if gate_status(gate) != Some("passed"@) {
        if clean_field(gate, "command"@) is Some {
            assert(here[at + 1] == lines[at + 1]);
            lemma_joined_holds(lines, "\n"@, at + 1);
        }
        if first_some(
            clean_field(gate, "skipped_reason"@),
            first_some(clean_field(gate, "stderr"@), clean_field(gate, "stdout"@)),
        ) is Some {
            assert(here[here.len() - 1] == lines[here.len() - 1]);
            lemma_joined_holds(lines, "\n"@, here.len() - 1);
        }
    }
}

/// Of a gate of a task its name and its outcome are told, and its command and its
/// summary where they are short. A result that names no gate is told nothing of.
pub proof fn law_gate_of_a_task_is_told(value: JsonView)
    ensures
        value.field("gate"@) is None ==> task_gate_summary(Some(value)) is None,
        value.field("gate"@) matches Some(gate) ==> {
            &&& task_gate_summary(Some(value)) matches Some(told)
            &&& clean_field(gate, "gate"@) matches Some(name) ==> clean_field(gate, "status"@)
                matches Some(status) ==> holds(told, "gate: "@ + name + ", status: "@ + status)
            &&& clean_field(gate, "command"@) matches Some(c) ==> c.len() <= 300 ==> holds(
                told,
                "command: "@ + c,
            )
            &&& clean_field(gate, "summary"@) matches Some(s) ==> s.len() <= 800 ==> holds(
                told,
                "summary: "@ + s,
            )
            &&& clean_field(gate, "summary"@) is None ==> (clean_field(value, "stderr_summary"@)
                matches Some(s) ==> s.len() <= 800 ==> holds(told, "summary: "@ + s))
            &&& clean_field(gate, "summary"@) is None && clean_field(value, "stderr_summary"@)
                is None ==> (clean_field(value, "stdout_summary"@) matches Some(s) ==> s.len()
                <= 800 ==> holds(told, "summary: "@ + s))
            &&& clean_field(gate, "log_path"@) matches Some(p) ==> holds(told, "log_path: "@ + p)
        },
{
    if let Some(gate) = value.field("gate"@) {
        let lines = task_gate_lines(value, gate);
        let told = joined(lines, "\n"@);
        lemma_joined_holds(lines, "\n"@, 1);
        lemma_joined_holds(lines, "\n"@, 2);
        if clean_field(gate, "gate"@) is Some && clean_field(gate, "status"@) is Some {
            let first = "gate: "@ + clean_field(gate, "gate"@)->0 + ", status: "@ + clean_field(
                gate,
                "status"@,
            )->0;
            let rest = match number_field(gate, "exit_code"@) {
                Some(code) => ", exit_code: "@ + code,
                None => Seq::empty(),
            };
            lemma_holds_between(Seq::empty(), first, rest);
            assert(lines[1] =~= Seq::<char>::empty() + first + rest);
            lemma_holds_within(told, lines[1], first);
        }
        if clean_field(gate, "summary"@) is Some || clean_field(value, "stderr_summary"@) is Some
            || clean_field(value, "stdout_summary"@) is Some {
            lemma_joined_holds(lines, "\n"@, 3);
        }
        if clean_field(gate, "log_path"@) is Some {
            lemma_joined_holds(lines, "\n"@, lines.len() - 1);
        }
    }
}

// ---------------------------------------------------------------------------
// Sub-agents
// ---------------------------------------------------------------------------

/// Of a sub-agent its name, its kind and its status are told first, what it was to
/// do and what came of it where that is short, and that nothing came of it yet
/// where nothing did.
pub proof fn law_subagents_are_told(members: Seq<(Seq<char>, JsonView)>, index: nat)
    requires
        JsonView::Object(members).field("snapshot"@) is None,
    ensures
        ({
            let value = JsonView::Object(members);
            let told = snapshot_text(value, index);
            &&& value.text_field("agent_id"@) matches Some(id) ==> value.text_field("agent_type"@)
                matches Some(kind) ==> (value.field("status"@) matches Some(JsonView::Str(status))
                ==> ("- "@ + id + " ("@ + kind + ") status="@ + status).is_prefix_of(told))
            &&& clean_field(value, "result"@) matches Some(s) ==> s.len() <= 1_600 ==> holds(
                told,
                "  result: "@ + s,
            )
            &&& clean_field(value, "result"@) is None ==> holds(told, "  result: not available yet"@)
            &&& value.field("assignment"@) matches Some(a) ==> (clean_field(a, "objective"@)
                matches Some(s) ==> s.len() <= 220 ==> holds(told, "  objective: "@ + s))
        }),
{
    let value = JsonView::Object(members);
    let lines = snapshot_lines(value);
    let told = joined(lines, "\n"@);
    assert(snapshot_text(value, index) == told);
    let one = seq![lines[0]];
    assert(one + lines.skip(1) =~= lines);
    lemma_joined_add(one, lines.skip(1), "\n"@);
    assert(lines[0].is_prefix_of(told));
    let objective = match value.field("assignment"@) {
        Some(a) => clean_field(a, "objective"@),
        None => None,
    };
    let at: int = if objective is Some {
        2
    } else {
        1
    };
    lemma_joined_holds(lines, "\n"@, at);
    lemma_joined_holds(lines, "\n"@, 1);
}

/// Only the answers of the tool for sub-agents are summed up as theirs.
pub proof fn law_other_tools_are_no_subagents(
    tool_name: Seq<char>,
    parsed: Option<JsonView>,
)
    ensures
        tool_name != "agent"@ ==> subagent_summary(tool_name, parsed) is None,
        tool_name == "agent"@ ==> (parsed matches Some(JsonView::Array(items)) ==> subagent_summary(
            tool_name,
            parsed,
        ) == Some(subagents_summary(items))),
        tool_name == "agent"@ ==> (parsed matches Some(JsonView::Object(m)) ==> subagent_summary(
            tool_name,
            parsed,
        ) == Some(subagents_summary(seq![JsonView::Object(m)]))),
        parsed is None ==> subagent_summary(tool_name, parsed) is None,
{
}

// ---------------------------------------------------------------------------
// Other results
// ---------------------------------------------------------------------------

/// A text that is cut keeps its beginning; one whose middle is left out keeps its
/// end too, and more of its beginning than of its end.
pub proof fn law_cut_texts_keep_their_ends(text: Seq<char>, limit: nat)
    requires
        limit >= 3,
        text.len() > limit,
    ensures
        text.take(limit - 3).is_prefix_of(summary_of(text, limit)),
        limit > 62 && limit <= 100_000 ==> {
            let head = (limit - 42) * 2 / 3;
            let tail = limit - 42 - head;
            let cut = head_tail_of(text, limit);
            &&& head >= tail > 0
            &&& text.take(head).is_prefix_of(cut)
            &&& cut.skip(cut.len() - tail) == text.skip(text.len() - tail)
            &&& holds(cut, "[... output truncated for context ...]"@)
        },
{
    if limit > 62 && limit <= 100_000 {
        let room = limit - 42;
        let head = room * 2 / 3;
        let tail = room - head;
        let cut = head_tail_of(text, limit);
        reveal_strlit("\n\n[... output truncated for context ...]\n\n");
        reveal_strlit("[... output truncated for context ...]");
        let marker = truncation_marker();
        assert(cut == text.take(head) + marker + text.skip(text.len() - tail));
        assert(cut.skip(cut.len() - tail) =~= text.skip(text.len() - tail));
        let inner = "[... output truncated for context ...]"@;
        assert(marker.subrange(2, (2 + inner.len()) as int) =~= inner);
        lemma_holds_between(text.take(head), marker, text.skip(text.len() - tail));
        lemma_holds_within(cut, marker, inner);
    }
}

#[verifier::rlimit(40)]
proof fn lemma_cut_results(
    window: Option<u32>,
    tool_name: Seq<char>,
    raw: Seq<char>,
    metadata: Option<JsonView>,
)
    requires
        must_compact(window, tool_name, raw),
    ensures
        ({
            let told = plain_result_text(window, tool_name, raw, metadata);
            &&& ("["@ + tool_name + " output compacted to protect context]\n"@).is_prefix_of(told)
            &&& holds(told, "(Original: "@ + decimal(raw.len()) + " chars, omitted: "@)
            &&& holds(told, raw.take(400))
            &&& metadata_summary(metadata) matches Some(s) ==> holds(told, "Summary: "@ + s)
        }),
{
    let limit = result_limits(window).snippet_chars as nat;
    let snippet = head_tail_of(raw, limit);
    let intro = "["@ + tool_name + " output compacted to protect context]\n"@;
    let with_summary = match metadata_summary(metadata) {
        Some(s) => intro + "Summary: "@ + s + "\n"@,
        None => intro,
    };
    let left = decimal((raw.len() - snippet.len()) as nat);
    let told = plain_result_text(window, tool_name, raw, metadata);
    let size = "(Original: "@ + decimal(raw.len()) + " chars, omitted: "@;
    let front = with_summary + "Snippet: "@ + snippet;
    let back = "\n"@ + size + (left + " chars.)"@);
    assert("\n(Original: "@ =~= "\n"@ + "(Original: "@) by {
        reveal_strlit("\n(Original: ");
        reveal_strlit("\n");
        reveal_strlit("(Original: ");
    }
    crate::context::law_shortened_texts_fit(raw, limit);
    lemma_regroup(
        front,
        "\n"@,
        "(Original: "@,
        decimal(raw.len()),
        " chars, omitted: "@,
        left,
        " chars.)"@,
    );
    assert(told == front + back);
    assert(holds(told, size)) by {
        assert(told =~= (front + "\n"@) + size + (left + " chars.)"@));
        lemma_holds_between(front + "\n"@, size, left + " chars.)"@);
    }
    assert(holds(told, raw.take(400))) by {
        law_cut_texts_keep_their_ends(raw, limit);
        assert(told =~= (with_summary + "Snippet: "@) + snippet + back);
        lemma_holds_between(with_summary + "Snippet: "@, snippet, back);
        let head = (limit - 42) * 2 / 3;
        let short = raw.take(400);
        assert(head >= 400);
        assert forall|k: int| 0 <= k < 400 implies #[trigger] snippet[k] == raw[k] by {
            assert(raw.take(head)[k] == snippet[k]);
        }
        assert(snippet.subrange(0, 0int + short.len()) =~= short);
        lemma_holds_within(told, snippet, short);
    }
    assert(told =~= intro + told.skip(intro.len() as int)) by {
        if let Some(s) = metadata_summary(metadata) {
            assert(told =~= intro + ("Summary: "@ + s + "\n"@ + "Snippet: "@ + snippet + back));
        } else {
            assert(told =~= intro + ("Snippet: "@ + snippet + back));
        }
    }
    if let Some(s) = metadata_summary(metadata) {
        let mid = "Summary: "@ + s;
        let end = "\n"@ + "Snippet: "@ + snippet + back;
        assert(told =~= intro + mid + end);
        lemma_holds_between(intro, mid, end);
    }
}

/// What fits is shown as it is: 12,000 characters of a quiet tool, or 48,000 where
/// the window is large; 2,000 of a noisy one, or 8,000. More is cut, and the model
/// is told of how much there was, from which tool, and how it begins.
#[verifier::rlimit(40)]
pub proof fn law_long_results_are_cut(
    window: Option<u32>,
    tool_name: Seq<char>,
    raw: Seq<char>,
    metadata: Option<JsonView>,
)
    ensures
        raw.len() <= 2_000 ==> plain_result_text(window, tool_name, raw, metadata) == raw,
        raw.len() > 48_000 ==> must_compact(window, tool_name, raw),
        (window is None || window->0 < 500_000) && raw.len() > 12_000 ==> must_compact(
            window,
            tool_name,
            raw,
        ),
        window is Some && window->0 >= 500_000 && raw.len() <= 8_000 ==> plain_result_text(
            window,
            tool_name,
            raw,
            metadata,
        ) == raw,
        tool_name == "exec_shell"@ || tool_name == "run_tests"@ || tool_name == "web_search"@ ==> {
            &&& raw.len() > 8_000 ==> must_compact(window, tool_name, raw)
            &&& (window is None || window->0 < 500_000) && raw.len() > 2_000 ==> must_compact(
                window,
                tool_name,
                raw,
            )
        },
        tool_name == "read_file"@ && raw.len() <= 12_000 ==> plain_result_text(
            window,
            tool_name,
            raw,
            metadata,
        ) == raw,
        must_compact(window, tool_name, raw) ==> {
            let told = plain_result_text(window, tool_name, raw, metadata);
            &&& ("["@ + tool_name + " output compacted to protect context]\n"@).is_prefix_of(told)
            &&& holds(told, "(Original: "@ + decimal(raw.len()) + " chars, omitted: "@)
            &&& holds(told, raw.take(400))
            &&& metadata_summary(metadata) matches Some(s) ==> holds(told, "Summary: "@ + s)
        },
{
    reveal_strlit("read_file");
    reveal_strlit("exec_shell");
    reveal_strlit("exec_shell_wait");
    reveal_strlit("exec_shell_interact");
    reveal_strlit("exec_shell_cancel");
    reveal_strlit("task_shell_start");
    reveal_strlit("task_shell_wait");
    reveal_strlit("run_tests");
    reveal_strlit("run_verifiers");
    reveal_strlit("task_gate_run");
    reveal_strlit("multi_tool_use.parallel");
    reveal_strlit("web_search");
    assert("read_file"@.len() == 9 && "run_tests"@.len() == 9);
    assert("read_file"@[1] != "run_tests"@[1]);
    assert(!crate::context::is_noisy_tool("read_file"@));
    if must_compact(window, tool_name, raw) {
        lemma_cut_results(window, tool_name, raw, metadata);
    }
}

/// An empty result is told as nothing, and a result with a form of its own in that
/// form; any other as it is or cut.
pub proof fn law_results_are_told_in_their_form(
    window: Option<u32>,
    tool_name: Seq<char>,
    output: ToolResultView,
    parsed: Option<JsonView>,
)
    ensures
        trimmed(output.content).len() == 0 ==> result_text(window, tool_name, output, parsed).len()
            == 0,
        trimmed(output.content).len() > 0 && tool_name == "run_tests"@ ==> (run_tests_summary(
            parsed,
        ) matches Some(told) ==> result_text(window, tool_name, output, parsed) == told),
        trimmed(output.content).len() > 0 && tool_name == "run_verifiers"@ ==> (
        run_verifiers_summary(parsed) matches Some(told) ==> result_text(
            window,
            tool_name,
            output,
            parsed,
        ) == told),
        trimmed(output.content).len() > 0 && tool_name == "task_gate_run"@ ==> (task_gate_summary(
            parsed,
        ) matches Some(told) ==> result_text(window, tool_name, output, parsed) == told),
        trimmed(output.content).len() > 0 && tool_name == "agent"@ ==> (subagent_summary(
            tool_name,
            parsed,
        ) matches Some(told) ==> result_text(window, tool_name, output, parsed) == told),
        tool_name != "run_tests"@ && tool_name != "run_verifiers"@ && tool_name
            != "task_gate_run"@ ==> structured_summary(tool_name, parsed) is None,
{
    reveal_strlit("agent");
    reveal_strlit("run_tests");
    reveal_strlit("run_verifiers");
    reveal_strlit("task_gate_run");
    assert("agent"@.len() == 5 && "run_tests"@.len() == 9 && "run_verifiers"@.len() == 13
        && "task_gate_run"@.len() == 13);
    assert("run_verifiers"@[0] != "task_gate_run"@[0]);
}

// ---------------------------------------------------------------------------
// Prompts, estimates and caps
// ---------------------------------------------------------------------------

/// The part of a prompt that sums up an earlier conversation is the prompt itself,
/// where its text says that it does, or those of its blocks that say so, in their
/// order; there is none exactly where nothing says so.
pub proof fn law_summaries_are_found(text: Seq<char>, blocks: Seq<BlockView>)
    ensures
        compaction_part(None) is None,
        holds(text, "Conversation Summary (Auto-Generated)"@) ==> compaction_part(
            Some(PromptView::Text(text)),
        ) == Some(PromptView::Text(text)),
        !holds(text, "Conversation Summary (Auto-Generated)"@) ==> compaction_part(
            Some(PromptView::Text(text)),
        ) is None,
        match compaction_part(Some(PromptView::Blocks(blocks))) {
            Some(PromptView::Blocks(kept)) => {
                &&& kept.len() > 0
                &&& forall|b: BlockView| #[trigger]
                    kept.contains(b) <==> blocks.contains(b) && holds(
                        b.text,
                        "Conversation Summary (Auto-Generated)"@,
                    )
            },
            Some(PromptView::Text(_)) => false,
            None => forall|i: int|
                0 <= i < blocks.len() ==> !holds(
                    (#[trigger] blocks[i]).text,
                    "Conversation Summary (Auto-Generated)"@,
                ),
        },
{
    let marker = "Conversation Summary (Auto-Generated)"@;
    lemma_holds_is_contained(text, marker);
    let says = |b: BlockView| crate::context::holds_summary(b.text);
    let kept = blocks.filter(says);
    assert(kept == summary_blocks(blocks));
    assert forall|b: BlockView| #[trigger] kept.contains(b) <==> blocks.contains(b) && holds(
        b.text,
        marker,
    ) by {
        lemma_holds_is_contained(b.text, marker);
        assert(says(b) == holds(b.text, marker));
        if blocks.contains(b) && says(b) {
            let i = choose|i: int| 0 <= i < blocks.len() && blocks[i] == b;
            blocks.lemma_filter_contains(says, i);
        }
        if kept.contains(b) {
            let i = choose|i: int| 0 <= i < kept.len() && kept[i] == b;
            blocks.lemma_filter_pred(says, i);
            blocks.lemma_filter_contains_rev(says, b);
        }
    }
    if kept.len() == 0 {
        assert forall|i: int| 0 <= i < blocks.len() implies !holds(
            (#[trigger] blocks[i]).text,
            marker,
        ) by {
            assert(blocks.contains(blocks[i]));
            if holds(blocks[i].text, marker) {
                assert(kept.contains(blocks[i]));
            }
        }
    } else {
        assert(kept.contains(kept[0]));
    }
}

proof fn lemma_holds_is_contained(text: Seq<char>, term: Seq<char>)
    ensures
        holds(text, term) == crate::text::contains_text(text, term),
{
    if crate::text::contains_text(text, term) {
        let i = choose|i: int| crate::text::occurs_at(text, term, i);
        assert(text.subrange(i, i + term.len()) == term);
    }
    if holds(text, term) {
        let i = choose|i: int|
            0 <= i && i + term.len() <= text.len() && #[trigger] text.subrange(i, i + term.len())
                == term;
        assert(crate::text::occurs_at(text, term, i));
    }
}

/// An estimate is never below a token for three characters, and less than one
/// token above it.
pub proof fn law_texts_are_estimated(text: Seq<char>)
    ensures
        3 * text_estimate(text) >= text.len(),
        3 * text_estimate(text) < text.len() + 3,
        system_estimate(Some(PromptView::Text(text))) == text_estimate(text),
        system_estimate(None) == 0,
{
}

proof fn lemma_blocks_estimate_add(a: Seq<BlockView>, b: BlockView)
    ensures
        blocks_estimate(a.push(b)) == blocks_estimate(a) + text_estimate(b.text),
        blocks_estimate(a) >= 0,
    decreases a.len(),
{
    assert(a.push(b).drop_last() =~= a);
    if a.len() > 0 {
        lemma_blocks_estimate_add(a.drop_last(), a.last());
        assert(a.drop_last().push(a.last()) =~= a);
    }
}

/// The estimate of a request grows with its messages, their number and its prompt;
/// below the largest machine number it is at least one and a half times that of
/// the messages, with twelve tokens for each of them, 48 more, and its prompt.
pub proof fn law_requests_are_estimated(
    messages: int,
    count: int,
    system: Option<PromptView>,
    more: int,
    larger: int,
)
    requires
        0 <= messages <= more,
        0 <= count <= larger,
        0 <= system_estimate(system),
    ensures
        input_estimate(messages, count, system) <= input_estimate(more, larger, system),
        input_estimate(messages, count, system) <= usize::MAX,
        input_estimate(messages, count, system) < usize::MAX && 3 * messages <= usize::MAX ==> {
            &&& 2 * input_estimate(messages, count, system) >= 3 * messages + 2 * system_estimate(
                system,
            ) + 24 * count + 96
            &&& 2 * input_estimate(messages, count, system) <= 3 * messages + 1 + 2
                * system_estimate(system) + 24 * count + 96
        },
{
}

/// A positive number that the user set is the cap on output; else it is half the
/// window, up to 65,536, and 64,000 where the window is not known.
pub proof fn law_output_is_capped(setting: Option<Seq<char>>, window: Option<u32>)
    ensures
        cap_override(setting) matches Some(n) ==> n > 0 && output_cap(setting, window) == n,
        cap_override(setting) is None ==> {
            &&& window is None ==> output_cap(setting, window) == 64_000
            &&& window matches Some(w) ==> w >= 131_072 ==> output_cap(setting, window) == 65_536
            &&& window matches Some(w) ==> w < 131_072 ==> output_cap(setting, window) == w / 2
        },
        setting is None ==> cap_override(setting) is None,
{
}

/// The output kept free never exceeds the cap of a turn where the route states a
/// cap or the window is large; a small window keeps what its model may write, so
/// that room for input is left.
pub proof fn law_output_is_kept_free(model_cap: u32, window: u32, route_cap: Option<u32>)
    ensures
        route_cap matches Some(c) ==> {
            &&& output_reservation(model_cap, window, route_cap) <= c
            &&& output_reservation(model_cap, window, route_cap) <= 262_144
            &&& c <= 262_144 ==> output_reservation(model_cap, window, route_cap) == c
            &&& c > 262_144 ==> output_reservation(model_cap, window, route_cap) == 262_144
        },
        route_cap is None && window >= 500_000 ==> output_reservation(model_cap, window, route_cap)
            == 262_144,
        route_cap is None && window < 500_000 ==> output_reservation(model_cap, window, route_cap)
            == model_cap,
{
}

/// Of tests that failed more is told: what they wrote, up to a thousand characters.
pub proof fn law_failed_tests_tell_more(value: JsonView)
    requires
        value.truth_field("success"@) == Some(false),
    ensures
        run_tests_summary(Some(value)) matches Some(told) && {
            &&& clean_field(value, "stderr"@) matches Some(s) ==> s.len() <= 1_000 ==> holds(
                told,
                "stderr: "@ + s,
            )
            &&& clean_field(value, "stdout"@) matches Some(s) ==> s.len() <= 1_000 ==> holds(
                told,
                "stdout: "@ + s,
            )
        },
{
    let lines = run_tests_lines(value, false);
    if clean_field(value, "stderr"@) is Some {
        lemma_joined_holds(lines, "\n"@, 3);
    }
    if clean_field(value, "stdout"@) is Some {
        lemma_joined_holds(lines, "\n"@, lines.len() - 1);
    }
}

/// A run of gates is summed up in its own words, or else by how many passed, failed and
/// were skipped, in this order. Of gates beyond the twelfth only their number is told.
pub proof fn law_gates_are_summed_up(value: JsonView, gates: Seq<JsonView>)
    requires
        value.items_field("gates"@) == Some(gates),
    ensures
        run_verifiers_summary(Some(value)) matches Some(told) && holds(
            told,
            "summary: "@ + verifiers_heading(value),
        ),
        clean_field(value, "summary"@) matches Some(s) ==> verifiers_heading(value) == s,
        clean_field(value, "summary"@) is None ==> (value.field("passed"@) matches Some(
            JsonView::PosInt(p),
        ) ==> (value.field("failed"@) matches Some(JsonView::PosInt(f)) ==> (value.field(
            "skipped"@,
        ) matches Some(JsonView::PosInt(k)) ==> verifiers_heading(value) == decimal(p as nat)
            + " passed, "@ + decimal(f as nat) + " failed, "@ + decimal(k as nat) + " skipped"@))),
        run_verifiers_summary(None) is None,
{
    let lines = verifiers_lines(value, gates);
    lemma_joined_holds_second(value, gates);
    lemma_joined_holds(lines, "\n"@, 1);
}

proof fn lemma_joined_holds_second(value: JsonView, gates: Seq<JsonView>)
    ensures
        verifiers_lines(value, gates).len() >= 2,
        verifiers_lines(value, gates)[1] == "summary: "@ + verifiers_heading(value),
{
    law_gates_told_in_order(gates);
    let ordered = gates_in_order(gates);
    let head = seq![
        "[run_verifiers result summarized for context]"@,
        "summary: "@ + verifiers_heading(value),
    ];
    let profile = clean_field(value, "profile"@);
    let level = clean_field(value, "level"@);
    let start = if profile is Some || level is Some {
        head.push(
            "selection: profile="@ + crate::context::or_else(profile, "?"@) + ", level="@
                + crate::context::or_else(level, "?"@),
        )
    } else {
        head
    };
    let n: nat = if gates.len() < 12 {
        gates.len()
    } else {
        12
    };
    lemma_gates_lines_grow(start, ordered, 0, n);
    assert(start.is_prefix_of(gates_lines(start, ordered, n)));
    assert(gates_lines(start, ordered, n)[1] == start[1]);
}

/// A field is read without blanks around it, and not at all where it is blank. A number
/// is read as it is written.
pub proof fn law_fields_are_read_clean(value: JsonView, key: Seq<char>, text: Seq<char>)
    ensures
        value.text_field(key) == Some(text) && trimmed(text).len() > 0 ==> clean_field(value, key)
            == Some(trimmed(text)),
        value.text_field(key) == Some(text) && trimmed(text).len() == 0 ==> clean_field(value, key)
            is None,
        value.text_field(key) is None ==> clean_field(value, key) is None,
        value.field(key) matches Some(JsonView::PosInt(n)) ==> number_field(value, key) == Some(
            decimal(n as nat),
        ),
        value.field(key) matches Some(JsonView::NegInt(n)) ==> number_field(value, key) == Some(
            crate::text::signed_decimal(n as int),
        ),
        value.field(key) is None ==> number_field(value, key) is None,
{
}

/// The summary of a result is what it calls so; else a summary of what it wrote, of its
/// errors, or its message, in this order.
pub proof fn law_summaries_in_turn(v: JsonView)
    ensures
        clean_field(v, "summary"@) matches Some(s) ==> metadata_summary(Some(v)) == Some(
            summary_of(s, 320),
        ),
        clean_field(v, "summary"@) is None ==> (clean_field(v, "stdout_summary"@) matches Some(s)
            ==> metadata_summary(Some(v)) == Some(summary_of(s, 320))),
        clean_field(v, "summary"@) is None && clean_field(v, "stdout_summary"@) is None ==> (
        clean_field(v, "stderr_summary"@) matches Some(s) ==> metadata_summary(Some(v)) == Some(
            summary_of(s, 320),
        )),
        clean_field(v, "summary"@) is None && clean_field(v, "stdout_summary"@) is None
            && clean_field(v, "stderr_summary"@) is None ==> (clean_field(v, "message"@)
            matches Some(s) ==> metadata_summary(Some(v)) == Some(summary_of(s, 320))),
        metadata_summary(None) is None,
        forall|s: Seq<char>| s.len() <= 320 ==> #[trigger] summary_of(s, 320) == s,
{
}

proof fn lemma_snapshots(items: Seq<JsonView>, n: nat, i: int)
    requires
        0 <= i < n <= items.len(),
    ensures
        holds(snapshots_text(items, n), snapshot_text(items[i], (i + 1) as nat) + "\n"@),
    decreases n,
{
    let before = snapshots_text(items, (n - 1) as nat);
    let text = snapshot_text(items[n - 1], n);
    let all = snapshots_text(items, n);
    let none = Seq::<char>::empty();
    if i == n - 1 {
        assert(all =~= before + (text + "\n"@) + none);
        lemma_holds_between(before, text + "\n"@, none);
    } else {
        lemma_snapshots(items, (n - 1) as nat, i);
        assert(all =~= none + before + (text + "\n"@));
        lemma_holds_between(none, before, text + "\n"@);
        lemma_holds_within(all, before, snapshot_text(items[i], (i + 1) as nat) + "\n"@);
    }
}

proof fn lemma_snapshot_begins(value: JsonView, index: nat)
    ensures
        snapshot_text(value, index).len() > 0,
        snapshot_text(value, index)[0] == '-',
    decreases value,
{
    let text = snapshot_text(value, index);
    assert("- "@.len() == 2 && "- "@[0] == '-') by {
        reveal_strlit("- ");
    }
    assert("- item "@.len() == 7 && "- item "@[0] == '-') by {
        reveal_strlit("- item ");
    }
    match value.field("snapshot"@) {
        Some(inner) => {
            crate::context::lemma_field_decreases(value, "snapshot"@);
            lemma_snapshot_begins(inner, index);
        },
        None => match value {
            JsonView::Object(_) => {
                let lines = snapshot_lines(value);
                let one = seq![lines[0]];
                assert(one + lines.skip(1) =~= lines);
                lemma_joined_add(one, lines.skip(1), "\n"@);
                assert(joined(one, "\n"@) == lines[0]);
                assert(text[0] == lines[0][0]);
            },
            _ => {},
        },
    }
}

proof fn lemma_trim_stops(text: Seq<char>, k: int)
    requires
        0 <= k < text.len(),
        !crate::text::is_space(text[k]),
    ensures
        k < crate::text::trim_back(text).len() <= text.len(),
        crate::text::trim_back(text) == text.take(crate::text::trim_back(text).len() as int),
    decreases text.len(),
{
    crate::text::lemma_trim_back(text);
    if crate::text::is_space(text.last()) {
        assert(text.drop_last()[k] == text[k]);
        lemma_trim_stops(text.drop_last(), k);
    }
}

proof fn lemma_holds_in_front(text: Seq<char>, front: Seq<char>, x: Seq<char>, n: int)
    requires
        front.is_prefix_of(text),
        front.len() <= n <= text.len(),
        holds(front, x),
    ensures
        holds(text.take(n), x),
{
    let none = Seq::<char>::empty();
    let rest = text.subrange(front.len() as int, n);
    assert(text.take(n) =~= none + front + rest);
    lemma_holds_between(none, front, rest);
    lemma_holds_within(text.take(n), front, x);
}

/// Sub-agents are told of one after the other, eight of them; how many there are beyond
/// them is told too.
#[verifier::rlimit(40)]
pub proof fn law_all_subagents_are_told(items: Seq<JsonView>, i: int)
    requires
        0 <= i < 7,
        i < items.len() - 1,
    ensures
        holds(subagents_summary(items), snapshot_text(items[i], (i + 1) as nat) + "\n"@),
        subagent_header().is_prefix_of(subagents_summary(items)),
        items.len() > 8 ==> holds(
            subagents_summary(items),
            "- ... "@ + decimal((items.len() - 8) as nat)
                + " more sub-agent result(s) omitted from context summary"@,
        ),
{
    let n: nat = if items.len() < 8 {
        items.len()
    } else {
        8
    };
    let none = Seq::<char>::empty();
    let front = snapshots_text(items, (n - 1) as nat);
    let last = snapshot_text(items[n - 1], n);
    let told = subagent_header() + snapshots_text(items, n);
    lemma_snapshots(items, (n - 1) as nat, i);
    lemma_snapshot_begins(items[n - 1], n);
    let piece = snapshot_text(items[i], (i + 1) as nat) + "\n"@;
    let body = subagent_header() + front;
    assert(told =~= body + last + "\n"@);
    assert(holds(body, piece)) by {
        assert(body =~= subagent_header() + front + none);
        lemma_holds_between(subagent_header(), front, none);
        lemma_holds_within(body, front, piece);
    }
    let k = body.len() as int;
    assert(told[k] == '-');
    if items.len() > 8 {
        let words = " more sub-agent result(s) omitted from context summary"@;
        let more = "- ... "@ + decimal((items.len() - 8) as nat) + words;
        assert(" more sub-agent result(s) omitted from context summary\n"@ =~= words + "\n"@) by {
            reveal_strlit(" more sub-agent result(s) omitted from context summary\n");
            reveal_strlit(" more sub-agent result(s) omitted from context summary");
            reveal_strlit("\n");
        }
        assert(!crate::text::is_space(words.last()) && words.len() > 0) by {
            reveal_strlit(" more sub-agent result(s) omitted from context summary");
        }
        let text = told + more;
        assert(told + "- ... "@ + decimal((items.len() - 8) as nat) + (words + "\n"@) =~= text
            + "\n"@);
        assert(text.last() == words.last());
        lemma_one_line_feed(text);
        assert(body.is_prefix_of(text));
        lemma_holds_in_front(text, body, piece, text.len() as int);
        assert(text.take(text.len() as int) =~= text);
        assert(text =~= told + more + none);
        lemma_holds_between(told, more, none);
        assert(subagent_header().is_prefix_of(text));
    } else {
        lemma_trim_stops(told, k);
        let cut = crate::text::trim_back(told);
        assert(body.is_prefix_of(told));
        lemma_holds_in_front(told, body, piece, cut.len() as int);
        assert(subagent_header() =~= told.take(subagent_header().len() as int));
        assert(subagent_header().is_prefix_of(cut));
    }
}

proof fn lemma_one_line_feed(text: Seq<char>)
    requires
        text.len() > 0,
        !crate::text::is_space(text.last()),
    ensures
        crate::text::trim_back(text + "\n"@) == text,
{
    reveal_strlit("\n");
    let all = text + "\n"@;
    assert(all.last() == '\n');
    assert(all.drop_last() =~= text);
    assert(crate::text::trim_back(text) == text);
}

/// The cap of a route counts where it is lower; a window is known where it is stated and
/// can be; and something is always left to be written.
pub proof fn law_routes_bound_the_output(cap: u32, route_cap: u32, n: u64, left: u64)
    ensures
        bounded_by_route(cap, None) == cap,
        bounded_by_route(cap, Some(route_cap)) <= cap,
        bounded_by_route(cap, Some(route_cap)) <= route_cap,
        bounded_by_route(cap, Some(route_cap)) == cap || bounded_by_route(cap, Some(route_cap))
            == route_cap,
        stated_window(None) is None,
        0 < n <= u32::MAX ==> stated_window(Some(n)) == Some(n),
        n == 0 || n > u32::MAX ==> stated_window(Some(n)) is None,
        0 < left <= u32::MAX ==> output_left(left, cap) == left,
        left == 0 ==> output_left(left, cap) == 1,
        left > u32::MAX && cap > 0 ==> output_left(left, cap) == cap,
{
}

/// The blocks of a prompt are estimated each by itself.
pub proof fn law_blocks_are_estimated(blocks: Seq<BlockView>, b: BlockView)
    ensures
        system_estimate(Some(PromptView::Blocks(blocks.push(b)))) == system_estimate(
            Some(PromptView::Blocks(blocks)),
        ) + text_estimate(b.text),
        system_estimate(Some(PromptView::Blocks(Seq::empty()))) == 0,
{
    lemma_blocks_estimate_add(blocks, b);
}

/// The status of a sub-agent is told in its own word, with the reason where there is one.
pub proof fn law_statuses_are_told(word: Seq<char>, name: Seq<char>, reason: Seq<char>)
    ensures
        crate::context::subagent_status_text(JsonView::Str(word)) == word,
        trimmed(reason).len() > 0 && trimmed(reason).len() <= 120
            ==> crate::context::subagent_status_text(
            JsonView::Object(seq![(name, JsonView::Str(reason))]),
        ) == name + "("@ + trimmed(reason) + ")"@,
        trimmed(reason).len() == 0 ==> crate::context::subagent_status_text(
            JsonView::Object(seq![(name, JsonView::Str(reason))]),
        ) == name,
{
}

/// Gates of the same outcome come by name.
pub proof fn law_gates_come_by_name(gates: Seq<JsonView>, i: int, j: int)
    requires
        0 <= i < j < gates.len(),
        gate_status(gates_in_order(gates)[i]) == gate_status(gates_in_order(gates)[j]),
    ensures
        clean_field(gates_in_order(gates)[i], "name"@) matches Some(a) ==> (clean_field(
            gates_in_order(gates)[j],
            "name"@,
        ) matches Some(b) ==> !crate::text::text_before(b, a)),
{
    law_gates_told_in_order(gates);
    assert(!gate_before(gates_in_order(gates)[j], gates_in_order(gates)[i]));
}

/// Tools that run commands, tests or searches write much.
pub proof fn law_tools_that_write_much(name: Seq<char>)
    ensures
        crate::context::is_noisy_tool(name) <==> (name == "exec_shell"@ || name
            == "exec_shell_wait"@ || name == "exec_shell_interact"@ || name == "exec_shell_cancel"@
            || name == "task_shell_start"@ || name == "task_shell_wait"@ || name == "run_tests"@
            || name == "run_verifiers"@ || name == "task_gate_run"@ || name
            == "multi_tool_use.parallel"@ || name == "web_search"@),
{
}

/// A record inside a record is told in its place.
pub proof fn law_inner_records_are_told(value: JsonView, inner: JsonView, index: nat)
    requires
        value.field("snapshot"@) == Some(inner),
    ensures
        snapshot_text(value, index) == snapshot_text(inner, index),
{
    crate::context::lemma_field_decreases(value, "snapshot"@);
}

/// How many steps a sub-agent took and how long is told where it is known.
pub proof fn law_work_of_subagents_is_told(
    members: Seq<(Seq<char>, JsonView)>,
    index: nat,
    steps: u64,
    duration: u64,
)
    requires
        JsonView::Object(members).field("snapshot"@) is None,
        JsonView::Object(members).field("steps_taken"@) == Some(JsonView::PosInt(steps)),
        JsonView::Object(members).field("duration_ms"@) == Some(JsonView::PosInt(duration)),
    ensures
        holds(
            snapshot_text(JsonView::Object(members), index),
            "  stats: steps="@ + decimal(steps as nat) + ", duration_ms="@ + decimal(
                duration as nat,
            ),
        ),
{
    let lines = snapshot_lines(JsonView::Object(members));
    lemma_joined_holds(lines, "\n"@, lines.len() - 1);
}

/// The blocks that sum up an earlier conversation stay in their order.
pub proof fn law_summaries_stay_in_order(blocks: Seq<BlockView>, b: BlockView)
    ensures
        summary_blocks(Seq::empty()).len() == 0,
        crate::text::contains_text(b.text, "Conversation Summary (Auto-Generated)"@)
            ==> summary_blocks(blocks.push(b)) == summary_blocks(blocks).push(b),
        !crate::text::contains_text(b.text, "Conversation Summary (Auto-Generated)"@)
            ==> summary_blocks(blocks.push(b)) == summary_blocks(blocks),
{
    reveal(Seq::filter);
    assert(blocks.push(b).drop_last() =~= blocks);
    assert(blocks.push(b).last() == b);
}

} // verus!
