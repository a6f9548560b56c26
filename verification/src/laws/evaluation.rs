//! What a trial run does, and how it is judged.

use crate::eval::{
    action_for, all_matches, capped, cut_output, failures, fixture_name, fixture_request, hits_of,
    is_plain, line_place, matching_lines, one_more, outputs_valid, patch_outcome, patch_run, patch_step, scenario,
    stats_of,
    step_noted, target_of, text_with_lines, with_line, with_stats, ActionView, MatchView,
    PatchErrorView, PatchState, PatchStep, ScenarioStepKind, SearchedFile, StepView, ToolStats,
    MAX_SEARCH_MATCHES,
};
use crate::json::law_single_members_are_read;
use crate::paths::below;
use crate::text::{begins_with, contains_text, finishes_with, lines_of, trimmed};
use vstd::prelude::*;

verus! {

/// A step that is to work is made on what the trial has; one that is to fail is made on
/// what it has not.
pub proof fn law_steps_do_what_they_say(root: Seq<char>, command: Seq<char>)
    ensures
        action_for(ScenarioStepKind::List, false, root, command) == (ActionView::ListDir {
            path: root,
        }),
        action_for(ScenarioStepKind::Read, false, root, command) == (ActionView::ReadFile {
            path: below(root, "notes.txt"@),
        }),
        action_for(ScenarioStepKind::Search, false, root, command)
            matches ActionView::SearchFiles { root: r, pattern } && r == root && pattern
            == "offline"@,
        action_for(ScenarioStepKind::Edit, false, root, command) matches ActionView::AppendLine {
            path,
            line,
        } && path == below(root, "notes.txt"@) && line == "edited = true"@,
        action_for(ScenarioStepKind::ExecShell, false, root, command)
            == (ActionView::ExecShell { root, command }),
        action_for(ScenarioStepKind::ApplyPatch, false, root, command)
            matches ActionView::ApplyPatch { root: r, .. } && r == root,
        action_for(ScenarioStepKind::Read, true, root, command) == (ActionView::ReadFile {
            path: below(root, "missing.txt"@),
        }),
        action_for(ScenarioStepKind::List, true, root, command) == (ActionView::ListDir {
            path: below(root, "missing-dir"@),
        }),
{
}

/// A step is noted as it went: with its output, cut where it is too long, where it
/// worked, and with its error where it did not.
pub proof fn law_steps_are_noted(
    kind: ScenarioStepKind,
    duration: u128,
    value: Seq<char>,
    error: Seq<char>,
    max: nat,
)
    ensures
        ({
            let good = step_noted(kind, duration, Ok(value), max);
            let bad = step_noted(kind, duration, Err(error), max);
            &&& good.success && good.error is None && good.kind == kind && good.duration == duration
            &&& value.len() <= max ==> good.output == Some(value)
            &&& !bad.success && bad.error == Some(error) && bad.output is None && bad.kind == kind
            &&& bad.duration == duration
            &&& good.tool_name == kind.tool() && bad.tool_name == kind.tool()
        }),
        value.len() > max ==> value.take(max as int).is_prefix_of(cut_output(value, max)) && (
        "..."@).is_suffix_of(cut_output(value, max)) && cut_output(value, max).len() == max
            + "..."@.len(),
{
    if value.len() > max {
        let cut = cut_output(value, max);
        assert(cut.skip(cut.len() - "..."@.len()) =~= "..."@);
    }
}

/// One call more is counted, with its time, and as an error where it failed.
pub proof fn law_calls_are_counted(stats: ToolStats, duration: u128, failed: bool)
    requires
        stats.invocations < usize::MAX,
        stats.errors < usize::MAX,
        stats.total_duration + duration <= u128::MAX,
    ensures
        one_more(stats, duration, failed).invocations == stats.invocations + 1,
        one_more(stats, duration, failed).total_duration == stats.total_duration + duration,
        failed ==> one_more(stats, duration, failed).errors == stats.errors + 1,
        !failed ==> one_more(stats, duration, failed).errors == stats.errors,
{
}

/// A list with one entry for each kind at most, in the order of kinds.
pub open spec fn in_kind_order(list: Seq<(ScenarioStepKind, ToolStats)>) -> bool {
    forall|i: int, j: int|
        0 <= i < j < list.len() ==> (#[trigger] list[i]).0.place() < (#[trigger] list[j]).0.place()
}

proof fn lemma_places_apart(a: ScenarioStepKind, b: ScenarioStepKind)
    ensures
        a.place() == b.place() <==> a == b,
{
}

proof fn lemma_stats_at(
    list: Seq<(ScenarioStepKind, ToolStats)>,
    kind: ScenarioStepKind,
    from: int,
    i: int,
)
    requires
        in_kind_order(list),
        0 <= from <= i < list.len(),
        list[i].0 == kind,
    ensures
        stats_of(list, kind, from) == list[i].1,
    decreases i - from,
{
    if from < i {
        lemma_places_apart(list[from].0, kind);
        lemma_stats_at(list, kind, from + 1, i);
    }
}

proof fn lemma_no_stats(list: Seq<(ScenarioStepKind, ToolStats)>, kind: ScenarioStepKind, from: int)
    requires
        0 <= from <= list.len(),
        forall|i: int| from <= i < list.len() ==> (#[trigger] list[i]).0 != kind,
    ensures
        stats_of(list, kind, from) == crate::eval::no_stats(),
    decreases list.len() - from,
{
    if from < list.len() {
        lemma_no_stats(list, kind, from + 1);
    }
}

#[verifier::rlimit(40)]
proof fn lemma_with_stats(
    list: Seq<(ScenarioStepKind, ToolStats)>,
    kind: ScenarioStepKind,
    stats: ToolStats,
    from: int,
)
    requires
        in_kind_order(list),
        0 <= from <= list.len(),
        forall|i: int| 0 <= i < from ==> (#[trigger] list[i]).0.place() < kind.place(),
    ensures
        in_kind_order(with_stats(list, kind, stats, from)),
        exists|i: int|
            0 <= i < with_stats(list, kind, stats, from).len() && #[trigger] with_stats(
                list,
                kind,
                stats,
                from,
            )[i] == (kind, stats),
        forall|e: (ScenarioStepKind, ToolStats)|
            e.0 != kind ==> (#[trigger] with_stats(list, kind, stats, from).contains(e)
                <==> list.contains(e)),
    decreases list.len() - from,
{
    let after = with_stats(list, kind, stats, from);
    if from >= list.len() {
        assert(after[list.len() as int] == (kind, stats));
        assert forall|e: (ScenarioStepKind, ToolStats)| e.0 != kind implies (
        #[trigger] after.contains(e) <==> list.contains(e)) by {
            if list.contains(e) {
                let i = choose|i: int| 0 <= i < list.len() && list[i] == e;
                assert(after[i] == e);
            }
        }
    } else if list[from].0 == kind {
        assert(after[from] == (kind, stats));
        assert forall|e: (ScenarioStepKind, ToolStats)| e.0 != kind implies (
        #[trigger] after.contains(e) <==> list.contains(e)) by {
            if list.contains(e) {
                let i = choose|i: int| 0 <= i < list.len() && list[i] == e;
                assert(after[i] == e);
            }
        }
    } else if kind.place() < list[from].0.place() {
        assert(after[from] == (kind, stats));
        assert forall|i: int, j: int| 0 <= i < j < after.len() implies (
        #[trigger] after[i]).0.place() < (#[trigger] after[j]).0.place() by {
            let a = if i < from {
                list[i].0
            } else if i == from {
                kind
            } else {
                list[i - 1].0
            };
            assert(after[i].0 == a);
            if j > from {
                assert(after[j] == list[j - 1]);
            }
        }
        assert forall|e: (ScenarioStepKind, ToolStats)| e.0 != kind implies (
        #[trigger] after.contains(e) <==> list.contains(e)) by {
            if list.contains(e) {
                let i = choose|i: int| 0 <= i < list.len() && list[i] == e;
                if i < from {
                    assert(after[i] == e);
                } else {
                    assert(after[i + 1] == e);
                }
            }
            if after.contains(e) {
                let i = choose|i: int| 0 <= i < after.len() && after[i] == e;
                if i < from {
                    assert(list[i] == e);
                } else {
                    assert(list[i - 1] == e);
                }
            }
        }
    } else {
        lemma_places_apart(list[from].0, kind);
        lemma_with_stats(list, kind, stats, from + 1);
    }
}

/// The counts of a kind are those that were set for it last; setting them leaves those
/// of every other kind alone, and the order of kinds too.
pub proof fn law_counts_are_kept_apart(
    list: Seq<(ScenarioStepKind, ToolStats)>,
    kind: ScenarioStepKind,
    stats: ToolStats,
    other: ScenarioStepKind,
)
    requires
        in_kind_order(list),
    ensures
        in_kind_order(with_stats(list, kind, stats, 0)),
        stats_of(with_stats(list, kind, stats, 0), kind, 0) == stats,
        other != kind ==> stats_of(with_stats(list, kind, stats, 0), other, 0) == stats_of(
            list,
            other,
            0,
        ),
        stats_of(Seq::empty(), kind, 0) == crate::eval::no_stats(),
{
    let after = with_stats(list, kind, stats, 0);
    lemma_with_stats(list, kind, stats, 0);
    let i = choose|i: int| 0 <= i < after.len() && #[trigger] after[i] == (kind, stats);
    lemma_stats_at(after, kind, 0, i);
    if other != kind {
        if exists|j: int| 0 <= j < list.len() && (#[trigger] list[j]).0 == other {
            let j = choose|j: int| 0 <= j < list.len() && (#[trigger] list[j]).0 == other;
            lemma_stats_at(list, other, 0, j);
            assert(list.contains(list[j]));
            assert(after.contains(list[j]));
            let k = choose|k: int| 0 <= k < after.len() && after[k] == list[j];
            lemma_stats_at(after, other, 0, k);
        } else {
            lemma_no_stats(list, other, 0);
            assert forall|k: int| 0 <= k < after.len() implies (#[trigger] after[k]).0 != other by {
                if after[k].0 == other {
                    assert(after.contains(after[k]));
                    assert(list.contains(after[k]));
                    let j = choose|j: int| 0 <= j < list.len() && list[j] == after[k];
                    assert(list[j].0 == other);
                }
            }
            lemma_no_stats(after, other, 0);
        }
    }
}

/// Failures are the steps that did not work: none where all did, one more for each that
/// did not.
pub proof fn law_failures_are_counted(steps: Seq<StepView>, n: nat)
    requires
        n <= steps.len(),
    ensures
        failures(steps, n) <= n,
        failures(steps, n) == 0 <==> forall|i: int| 0 <= i < n ==> (#[trigger] steps[i]).success,
        n > 0 && steps[n - 1].success ==> failures(steps, n) == failures(steps, (n - 1) as nat),
        n > 0 && !steps[n - 1].success ==> failures(steps, n) == failures(steps, (n - 1) as nat)
            + 1,
    decreases n,
{
    if n > 0 {
        law_failures_are_counted(steps, (n - 1) as nat);
    }
}

/// A trial is good only where the notes hold what was edited and what was patched, the
/// search found something, and the shell gave the word it was asked for.
pub proof fn law_good_trials_did_all(
    notes: Option<Seq<char>>,
    token: Seq<char>,
    search: Option<Seq<char>>,
    edit: Option<Seq<char>>,
    patch: Option<Seq<char>>,
    shell: Option<Seq<char>>,
)
    ensures
        outputs_valid(notes, token, search, edit, patch, shell) ==> {
            &&& notes is Some && search is Some && edit is Some && patch is Some && shell is Some
            &&& contains_text(notes->0, "edited = true"@)
            &&& contains_text(notes->0, "todo: offline metrics (patched)"@)
            &&& contains_text(search->0, "matches="@)
            &&& contains_text(trimmed(shell->0), token)
            &&& edit->0.len() > 0 && patch->0.len() > 0
        },
        notes is Some && search is Some && edit is Some && patch is Some && shell is Some
            && contains_text(notes->0, "edited = true"@) && contains_text(
            notes->0,
            "todo: offline metrics (patched)"@,
        ) && contains_text(search->0, "matches="@) && contains_text(trimmed(shell->0), token)
            && edit->0.len() > 0 && patch->0.len() > 0 ==> outputs_valid(
            notes,
            token,
            search,
            edit,
            patch,
            shell,
        ),
{
}

/// A line is added at the end of a text, on a line of its own.
pub proof fn law_lines_are_appended(content: Seq<char>, line: Seq<char>)
    ensures
        content.is_prefix_of(with_line(content, line)),
        (line + "\n"@).is_suffix_of(with_line(content, line)),
        finishes_with(content, "\n"@) ==> with_line(content, line) == content + line + "\n"@,
        !finishes_with(content, "\n"@) ==> with_line(content, line) == content + "\n"@ + line
            + "\n"@,
{
    let all = with_line(content, line);
    assert(all.skip(all.len() - (line + "\n"@).len()) =~= line + "\n"@);
}

/// The name of a record is that of its scenario, with a mark for each character that a
/// file's name cannot have.
pub proof fn law_records_are_named(name: Seq<char>, i: int)
    requires
        0 <= i < name.len(),
    ensures
        fixture_name(name).len() == name.len() + ".jsonl"@.len(),
        (".jsonl"@).is_suffix_of(fixture_name(name)),
        is_plain(name[i]) ==> fixture_name(name)[i] == name[i],
        !is_plain(name[i]) ==> fixture_name(name)[i] == '_',
{
    let all = fixture_name(name);
    assert(all.skip(all.len() - ".jsonl"@.len()) =~= ".jsonl"@);
}

/// A record's request names its step.
pub proof fn law_requests_name_their_step(kind: ScenarioStepKind)
    ensures
        fixture_request(kind).text_field("kind"@) == Some(kind.word()),
        fixture_request(kind).text_field("step"@) == Some(kind.tool()),
{
    reveal_strlit("kind");
    reveal_strlit("step");
    assert("kind"@[0] != "step"@[0]);
    let m = fixture_request(kind)->Object_0;
    law_single_members_are_read(m, 0);
    law_single_members_are_read(m, 1);
}

// ---------------------------------------------------------------------------
// Searches
// ---------------------------------------------------------------------------

/// The lines that match are told with their file and their number, counted from one,
/// all of them and in order.
#[verifier::rlimit(40)]
pub proof fn law_matching_lines_are_told(
    path: Seq<char>,
    lines: Seq<Seq<char>>,
    hits: Seq<bool>,
    n: nat,
)
    requires
        n <= lines.len(),
        hits.len() == lines.len(),
    ensures
        forall|i: int|
            0 <= i < n && #[trigger] hits[i] ==> matching_lines(path, lines, hits, n).contains(
                MatchView { path, line: (i + 1) as nat, content: lines[i] },
            ),
        forall|k: int|
            0 <= k < matching_lines(path, lines, hits, n).len() ==> {
                let m = #[trigger] matching_lines(path, lines, hits, n)[k];
                &&& m.path == path
                &&& 1 <= m.line <= n
                &&& hits[m.line - 1]
                &&& m.content == lines[m.line - 1]
            },
        forall|j: int, k: int|
            0 <= j < k < matching_lines(path, lines, hits, n).len() ==> (#[trigger] matching_lines(
                path,
                lines,
                hits,
                n,
            )[j]).line < (#[trigger] matching_lines(path, lines, hits, n)[k]).line,
    decreases n,
{
    if n > 0 {
        law_matching_lines_are_told(path, lines, hits, (n - 1) as nat);
        let before = matching_lines(path, lines, hits, (n - 1) as nat);
        let all = matching_lines(path, lines, hits, n);
        assert forall|i: int| 0 <= i < n && #[trigger] hits[i] implies all.contains(
            MatchView { path, line: (i + 1) as nat, content: lines[i] },
        ) by {
            let m = MatchView { path, line: (i + 1) as nat, content: lines[i] };
            if i == n - 1 {
                assert(all[before.len() as int] == m);
            } else {
                assert(before.contains(m));
                let k = choose|k: int| 0 <= k < before.len() && before[k] == m;
                assert(all[k] == m);
            }
        }
        assert forall|k: int| 0 <= k < before.len() implies #[trigger] all[k] == before[k] by {}
    }
}

/// Files are searched in their order, each line by itself; no more is told than fits.
pub proof fn law_files_are_searched_in_order(pattern: Seq<char>, files: Seq<SearchedFile>, n: nat)
    requires
        n < files.len(),
    ensures
        all_matches(pattern, files, 0).len() == 0,
        all_matches(pattern, files, n).is_prefix_of(all_matches(pattern, files, n + 1)),
        all_matches(pattern, files, n + 1).skip(all_matches(pattern, files, n).len() as int)
            == matching_lines(
            files[n as int].path@,
            lines_of(files[n as int].content@),
            hits_of(pattern, lines_of(files[n as int].content@)),
            lines_of(files[n as int].content@).len(),
        ),
        capped(all_matches(pattern, files, n)).is_prefix_of(all_matches(pattern, files, n)),
{
    let a = all_matches(pattern, files, n);
    let lines = lines_of(files[n as int].content@);
    let b = matching_lines(files[n as int].path@, lines, hits_of(pattern, lines), lines.len());
    assert((a + b).skip(a.len() as int) =~= b);
}

// ---------------------------------------------------------------------------
// Patches
// ---------------------------------------------------------------------------

/// A patch is for the file that its second line names, which lies in the workspace; its
/// first line says that it is one.
pub proof fn law_patches_name_their_file(patch: Seq<char>, path: Seq<char>)
    requires
        lines_of(patch).len() >= 2,
        lines_of(patch)[1] == "*** Update File: "@ + path,
    ensures
        lines_of(patch)[0] == "*** Begin Patch"@ && !contains_text(path, ".."@) ==> target_of(patch)
            == Ok::<Seq<char>, PatchErrorView>(path),
        lines_of(patch)[0] == "*** Begin Patch"@ && contains_text(path, ".."@) ==> target_of(patch)
            == Err::<Seq<char>, PatchErrorView>(PatchErrorView::OutsideWorkspace),
        lines_of(patch)[0] != "*** Begin Patch"@ ==> target_of(patch) == Err::<
            Seq<char>,
            PatchErrorView,
        >(PatchErrorView::MissingBegin),
{
    crate::laws::texts::law_prefixes_are_taken("*** Update File: "@, path, path);
}

/// Where a line stands first, at or behind a place.
pub proof fn law_lines_are_found_forward(lines: Seq<Seq<char>>, line: Seq<char>, from: int)
    requires
        0 <= from <= lines.len(),
    ensures
        match line_place(lines, line, from) {
            Some(i) => from <= i < lines.len() && lines[i] == line && forall|j: int|
                from <= j < i ==> #[trigger] lines[j] != line,
            None => forall|j: int| from <= j < lines.len() ==> #[trigger] lines[j] != line,
        },
    decreases lines.len() - from,
{
    if from < lines.len() {
        law_lines_are_found_forward(lines, line, from + 1);
    }
}

/// A line with a minus takes away the line it stands at, and no other; one with a plus
/// puts a line in there; one with a blank changes nothing and goes behind the next line
/// like it. A line that is not there is refused.
#[verifier::rlimit(40)]
pub proof fn law_patch_lines_change_lines(state: PatchState, content: Seq<char>)
    requires
        0 <= state.cursor <= state.lines.len(),
    ensures
        !begins_with(seq!['-'] + content, "*** "@) && !begins_with(seq!['-'] + content, "@@"@)
            ==> match patch_step(state, seq!['-'] + content) {
            PatchStep::Next(next) => {
                &&& state.cursor < state.lines.len()
                &&& state.lines[state.cursor] == content
                &&& next.lines == state.lines.take(state.cursor) + state.lines.skip(
                    state.cursor + 1,
                )
                &&& next.cursor == state.cursor
            },
            PatchStep::Refused(e) => e == PatchErrorView::RemovalMismatch(content) && (state.cursor
                == state.lines.len() || state.lines[state.cursor] != content),
            PatchStep::Unreadable => false,
        },
        !begins_with(seq!['+'] + content, "*** "@) && !begins_with(seq!['+'] + content, "@@"@)
            ==> patch_step(state, seq!['+'] + content) == PatchStep::Next(
            PatchState {
                lines: state.lines.take(state.cursor) + seq![content] + state.lines.skip(
                    state.cursor,
                ),
                cursor: state.cursor + 1,
            },
        ),
        !begins_with(seq![' '] + content, "*** "@) && !begins_with(seq![' '] + content, "@@"@)
            ==> match patch_step(state, seq![' '] + content) {
            PatchStep::Next(next) => {
                &&& next.lines == state.lines
                &&& state.cursor < next.cursor <= state.lines.len()
                &&& state.lines[next.cursor - 1] == content
                &&& forall|j: int|
                    state.cursor <= j < next.cursor - 1 ==> #[trigger] state.lines[j] != content
            },
            PatchStep::Refused(e) => e == PatchErrorView::ContextNotFound(content) && forall|
                j: int,
            |
                state.cursor <= j < state.lines.len() ==> #[trigger] state.lines[j] != content,
            PatchStep::Unreadable => false,
        },
{
    let minus = seq!['-'] + content;
    let plus = seq!['+'] + content;
    let blank = seq![' '] + content;
    assert(minus.skip(1) =~= content);
    assert(plus.skip(1) =~= content);
    assert(blank.skip(1) =~= content);
    law_lines_are_found_forward(state.lines, content, state.cursor);
    if state.cursor < state.lines.len() {
        assert(state.lines.remove(state.cursor) =~= state.lines.take(state.cursor)
            + state.lines.skip(state.cursor + 1));
    }
    assert(state.lines.insert(state.cursor, content) =~= state.lines.take(state.cursor)
        + seq![content] + state.lines.skip(state.cursor));
}

/// The lines of a patch are applied one after the other up to its end; the first that is
/// refused refuses it.
pub proof fn law_patches_run_to_their_end(state: PatchState, patch: Seq<Seq<char>>, from: int)
    requires
        0 <= from < patch.len(),
    ensures
        patch[from] == "*** End Patch"@ ==> patch_run(state, patch, from) == PatchStep::Next(state),
        patch[from] != "*** End Patch"@ ==> (patch_step(state, patch[from]) matches PatchStep::Next(
            next,
        ) ==> patch_run(state, patch, from) == patch_run(next, patch, from + 1)),
        patch[from] != "*** End Patch"@ ==> (patch_step(state, patch[from])
            matches PatchStep::Refused(e) ==> patch_run(state, patch, from) == PatchStep::Refused(
            e,
        )),
        patch_run(state, patch, patch.len() as int) == PatchStep::Next(state),
{
}

/// A text that ends with a line feed does so after a patch too.
pub proof fn law_last_line_feeds_stay(lines: Seq<Seq<char>>, original: Seq<char>)
    ensures
        finishes_with(original, "\n"@) ==> text_with_lines(lines, original) == crate::text::joined(
            lines,
            "\n"@,
        ) + "\n"@,
        !finishes_with(original, "\n"@) ==> text_with_lines(lines, original)
            == crate::text::joined(lines, "\n"@),
{
}

/// A patch is applied from its third line on, to the lines of the file from its start; a
/// patch that ends at once leaves them as they are.
pub proof fn law_patches_start_at_the_top(patch: Seq<char>, original: Seq<char>)
    requires
        lines_of(patch).len() >= 3,
    ensures
        lines_of(patch)[2] == "*** End Patch"@ ==> patch_outcome(patch, original)
            == PatchStep::Next(PatchState { lines: lines_of(original), cursor: 0 }),
        patch_outcome(patch, original) == patch_run(
            PatchState { lines: lines_of(original), cursor: 0 },
            lines_of(patch),
            2,
        ),
{
}

/// A trial lists, reads, searches, edits, patches and runs a command, in this order.
pub proof fn law_trials_have_their_order(i: int)
    requires
        0 <= i < 6,
    ensures
        scenario().len() == 6,
        scenario()[i].place() == i,
        scenario()[0].tool() == "list_dir"@,
        scenario()[1].tool() == "read_file"@,
        scenario()[2].tool() == "search"@,
        scenario()[3].tool() == "edit_file"@,
        scenario()[4].tool() == "apply_patch"@,
        scenario()[5].tool() == "exec_shell"@,
{
}

/// What is found is told whole where there is room for it.
pub proof fn law_findings_are_told_whole(list: Seq<MatchView>)
    ensures
        list.len() <= MAX_SEARCH_MATCHES ==> capped(list) == list,
        list.len() > MAX_SEARCH_MATCHES ==> capped(list).len() == MAX_SEARCH_MATCHES && capped(
            list,
        ) == list.take(MAX_SEARCH_MATCHES as int),
        MAX_SEARCH_MATCHES > 0,
{
}

} // verus!
