//! What a model is told of its turn and its work, and what it is offered.

use crate::engine::metadata::{
    escalation, first_lines, goal_line, metadata_text, mode_text, pressure_line,
    resource_lines, route_lines, usage_line, workspace_lines, ContextPressure, ModeTexts,
    PressureLevel, TurnFacts, TurnRoute,
};
use crate::engine::state_block::{
    agent_lines, field_line, item_lines, list_lines, place_section, running, state_text,
    todo_section, ItemStatus, OpenSubAgent, PlanSnapshot, StructuredState, TodoSnapshot, WorkItem,
};
use crate::engine::turns::told_in_session;
use crate::engine::tool_setup::{
    always_loaded, connect_failures, gate_answer, gate_answers, gated, kept_tools, let_through,
    model_for, own_dir, place_listed, planning_groups,
    plus, with_place, with_plugins_loaded, ToolGroup,
};
use crate::authority::ShellPolicy;
use crate::engine::state::{Engine, Features};
use crate::events::EventView;
use crate::laws::results::{lemma_holds_between, lemma_holds_within, lemma_joined_holds};
use crate::laws::search::holds;
use crate::models::{AppMode, ToolView};
use crate::ops::UserInputProvenance;
use crate::session::{Session, SessionUsage};
use crate::text::{decimal, joined, opt_text, trimmed};
use vstd::prelude::*;

verus! {

/// All lines that a turn's block holds.
spec fn all_lines(
    f: TurnFacts,
    route: TurnRoute,
    provenance: UserInputProvenance,
    usage: SessionUsage,
    texts: ModeTexts,
) -> Seq<Seq<char>> {
    first_lines(f, route.model@, provenance, texts) + route_lines(route) + resource_lines(f, usage)
        + workspace_lines(f)
}

proof fn lemma_line_is_told(
    f: TurnFacts,
    route: TurnRoute,
    provenance: UserInputProvenance,
    usage: SessionUsage,
    texts: ModeTexts,
    i: int,
)
    requires
        0 <= i < all_lines(f, route, provenance, usage, texts).len(),
    ensures
        holds(
            metadata_text(f, route, provenance, usage, texts),
            all_lines(f, route, provenance, usage, texts)[i],
        ),
{
    let lines = all_lines(f, route, provenance, usage, texts);
    lemma_joined_holds(lines, "\n"@, i);
    lemma_holds_between("<turn_meta>\n"@, joined(lines, "\n"@), "\n</turn_meta>"@);
    lemma_holds_within(
        metadata_text(f, route, provenance, usage, texts),
        joined(lines, "\n"@),
        lines[i],
    );
}

/// A model is told the day, the workspace, its name and its mode, where the input comes
/// from, and that only the user's own input has authority.
#[verifier::rlimit(40)]
pub proof fn law_turns_are_described(
    f: TurnFacts,
    route: TurnRoute,
    provenance: UserInputProvenance,
    usage: SessionUsage,
    texts: ModeTexts,
)
    ensures
        ({
            let told = metadata_text(f, route, provenance, usage, texts);
            &&& holds(told, "Current local date: "@ + f.today@)
            &&& holds(told, "Current workspace: "@ + f.workspace@)
            &&& holds(told, "Current model: "@ + route.model@)
            &&& holds(told, "Current mode: "@ + f.mode_setting@)
            &&& holds(told, "Current mode policy:\n"@ + mode_text(f.mode, texts))
            &&& holds(told, "Input provenance: "@ + provenance.word())
            &&& provenance == UserInputProvenance::ExternalUser ==> holds(
                told,
                "Input authority: external_current_turn"@,
            )
            &&& provenance != UserInputProvenance::ExternalUser ==> holds(
                told,
                "Input authority: non_authoritative"@,
            )
        }),
{
    let lines = all_lines(f, route, provenance, usage, texts);
    let first = first_lines(f, route.model@, provenance, texts);
    assert(first.len() == 8);
    assert forall|i: int| 0 <= i < 8 implies #[trigger] lines[i] == first[i] by {}
    lemma_line_is_told(f, route, provenance, usage, texts, 0);
    lemma_line_is_told(f, route, provenance, usage, texts, 1);
    lemma_line_is_told(f, route, provenance, usage, texts, 2);
    lemma_line_is_told(f, route, provenance, usage, texts, 3);
    lemma_line_is_told(f, route, provenance, usage, texts, 5);
    lemma_line_is_told(f, route, provenance, usage, texts, 6);
    lemma_line_is_told(f, route, provenance, usage, texts, 7);
    reveal_strlit("Input authority: ");
    reveal_strlit("external_current_turn");
    reveal_strlit("non_authoritative");
    reveal_strlit("Input authority: external_current_turn");
    reveal_strlit("Input authority: non_authoritative");
    assert("Input authority: "@ + "external_current_turn"@
        =~= "Input authority: external_current_turn"@);
    assert("Input authority: "@ + "non_authoritative"@ =~= "Input authority: non_authoritative"@);
}

/// A model is told the rules of the mode it is in.
pub proof fn law_modes_have_their_rules(texts: ModeTexts, mode: AppMode)
    ensures
        mode_text(AppMode::Plan, texts) == trimmed(texts.plan@),
        mode_text(AppMode::Operate, texts) == trimmed(texts.operate@),
        mode != AppMode::Plan && mode != AppMode::Operate ==> mode_text(mode, texts) == trimmed(
            texts.agent@,
        ),
{
}

proof fn lemma_added_line_is_told(
    f: TurnFacts,
    route: TurnRoute,
    provenance: UserInputProvenance,
    usage: SessionUsage,
    texts: ModeTexts,
    line: Seq<char>,
)
    requires
        route_lines(route).contains(line) || resource_lines(f, usage).contains(line)
            || workspace_lines(f).contains(line),
    ensures
        holds(metadata_text(f, route, provenance, usage, texts), line),
{
    let lines = all_lines(f, route, provenance, usage, texts);
    let a = first_lines(f, route.model@, provenance, texts);
    let b = route_lines(route);
    let c = resource_lines(f, usage);
    let d = workspace_lines(f);
    let at: int = if b.contains(line) {
        let i = choose|i: int| 0 <= i < b.len() && b[i] == line;
        a.len() + i
    } else if c.contains(line) {
        let i = choose|i: int| 0 <= i < c.len() && c[i] == line;
        a.len() + b.len() + i
    } else {
        let i = choose|i: int| 0 <= i < d.len() && d[i] == line;
        a.len() + b.len() + c.len() + i
    };
    lemma_four_lists(a, b, c, d, at);
    lemma_line_is_told(f, route, provenance, usage, texts, at);
}

proof fn lemma_four_lists(
    a: Seq<Seq<char>>,
    b: Seq<Seq<char>>,
    c: Seq<Seq<char>>,
    d: Seq<Seq<char>>,
    at: int,
)
    requires
        a.len() <= at < a.len() + b.len() + c.len() + d.len(),
    ensures
        (a + b + c + d).len() == a.len() + b.len() + c.len() + d.len(),
        at < a.len() + b.len() ==> (a + b + c + d)[at] == b[at - a.len()],
        a.len() + b.len() <= at < a.len() + b.len() + c.len() ==> (a + b + c + d)[at] == c[at
            - a.len() - b.len()],
        a.len() + b.len() + c.len() <= at ==> (a + b + c + d)[at] == d[at - a.len() - b.len()
            - c.len()],
{
}

/// The pressure, the usage, an active goal and the state of the files are told where
/// they are known; a route and an effort where the program chose them.
#[verifier::rlimit(40)]
pub proof fn law_known_facts_are_told(
    f: TurnFacts,
    route: TurnRoute,
    provenance: UserInputProvenance,
    usage: SessionUsage,
    texts: ModeTexts,
)
    ensures
        ({
            let told = metadata_text(f, route, provenance, usage, texts);
            &&& f.pressure matches Some(p) ==> holds(told, pressure_line(p))
            &&& usage_line(usage) matches Some(line) ==> holds(told, line)
            &&& f.git_snapshot matches Some(g) ==> holds(told, "Git workspace: "@ + g@)
            &&& route.auto_model ==> holds(told, "Auto model route: "@ + route.model@)
            &&& route.reasoning_effort_auto ==> (route.reasoning_effort matches Some(e) ==> holds(
                told,
                "Auto reasoning effort: "@ + e@,
            ))
            &&& f.goal matches Some(g) ==> (goal_line(g) matches Some(line) ==> holds(told, line))
        }),
{
    let b = route_lines(route);
    let c = resource_lines(f, usage);
    let d = workspace_lines(f);
    if route.auto_model {
        let line = "Auto model route: "@ + route.model@;
        assert(b[0] == line);
        lemma_added_line_is_told(f, route, provenance, usage, texts, line);
    }
    if route.reasoning_effort_auto && route.reasoning_effort is Some {
        let line = "Auto reasoning effort: "@ + route.reasoning_effort->0@;
        assert(b[b.len() - 1] == line);
        lemma_added_line_is_told(f, route, provenance, usage, texts, line);
    }
    if f.pressure is Some {
        let line = pressure_line(f.pressure->0);
        assert(c[0] == line);
        lemma_added_line_is_told(f, route, provenance, usage, texts, line);
    }
    if usage_line(usage) is Some {
        let line = usage_line(usage)->0;
        assert(c[if f.pressure is Some {
            1
        } else {
            0
        }] == line);
        lemma_added_line_is_told(f, route, provenance, usage, texts, line);
    }
    if f.goal is Some && goal_line(f.goal->0) is Some {
        let line = goal_line(f.goal->0)->0;
        assert(c[c.len() - 1] == line);
        lemma_added_line_is_told(f, route, provenance, usage, texts, line);
    }
    if f.git_snapshot is Some {
        let line = "Git workspace: "@ + f.git_snapshot->0@;
        assert(d[d.len() - 1] == line);
        lemma_added_line_is_told(f, route, provenance, usage, texts, line);
    }
}

/// Tokens are told as what was read and written together, then each; nothing is told
/// of none.
pub proof fn law_tokens_are_told(usage: SessionUsage)
    requires
        usage.input_tokens + usage.output_tokens <= u64::MAX,
    ensures
        usage.input_tokens == 0 && usage.output_tokens == 0 <==> usage_line(usage) is None,
        usage_line(usage) matches Some(line) ==> ("Session token usage: "@ + decimal(
            (usage.input_tokens + usage.output_tokens) as nat,
        ) + " total ("@ + decimal(usage.input_tokens as nat) + " input, "@ + decimal(
            usage.output_tokens as nat,
        ) + " output)"@).is_prefix_of(line),
{
}

/// Pressure is told with how full the window is, and how urgent that is.
pub proof fn law_pressure_is_told(p: ContextPressure)
    ensures
        escalation(p.level).is_suffix_of(pressure_line(p)),
        ("Context pressure: "@ + p.label@ + " ("@ + p.percent@ + "% used, "@ + decimal(
            p.input_tokens as nat,
        ) + " / "@ + decimal(p.window_tokens as nat) + " tokens; "@ + decimal(
            p.available_input_tokens as nat,
        )).is_prefix_of(pressure_line(p)),
        p.level == PressureLevel::Normal ==> escalation(p.level).len() == 0,
        p.level != PressureLevel::Normal ==> escalation(p.level).len() > 0,
        escalation(PressureLevel::Critical) != escalation(PressureLevel::Warning),
{
    let line = pressure_line(p);
    let end = escalation(p.level);
    assert(line.skip(line.len() - end.len()) =~= end);
    reveal_strlit("");
    reveal_strlit(
        " — CRITICAL: stop expanding scope; run /compact immediately or finish the current task",
    );
    reveal_strlit(" — ESCALATED: prefer /compact, narrow scope, or finish the current task");
    assert(escalation(PressureLevel::Critical)[3] == 'C');
    assert(escalation(PressureLevel::Warning)[3] == 'E');
}

// ---------------------------------------------------------------------------
// The state of the work
// ---------------------------------------------------------------------------

proof fn lemma_two(a: Seq<char>, b: Seq<char>)
    ensures
        holds(a + b, a),
        holds(a + b, b),
{
    let none = Seq::<char>::empty();
    lemma_holds_between(none, a, b);
    assert(none + a + b =~= a + b);
    lemma_holds_between(a, b, none);
    assert(a + b + none =~= a + b);
}

/// Each of six parts stands in the text that they make.
proof fn lemma_six(
    a: Seq<char>,
    b: Seq<char>,
    c: Seq<char>,
    d: Seq<char>,
    e: Seq<char>,
    f: Seq<char>,
)
    ensures
        holds(a + b + c + d + e + f, a),
        holds(a + b + c + d + e + f, c),
        holds(a + b + c + d + e + f, d),
        holds(a + b + c + d + e + f, e),
        holds(a + b + c + d + e + f, f),
{
    let ab = a + b;
    let abc = ab + c;
    let abcd = abc + d;
    let abcde = abcd + e;
    let all = abcde + f;
    lemma_two(abcde, f);
    lemma_two(abcd, e);
    lemma_holds_within(all, abcde, e);
    lemma_holds_within(all, abcde, abcd);
    lemma_two(abc, d);
    lemma_holds_within(all, abcd, d);
    lemma_holds_within(all, abcd, abc);
    lemma_two(ab, c);
    lemma_holds_within(all, abc, c);
    lemma_holds_within(all, abc, ab);
    lemma_two(a, b);
    lemma_holds_within(all, ab, a);
}

proof fn lemma_items(items: Seq<WorkItem>, n: nat, i: int)
    requires
        0 <= i < n <= items.len(),
    ensures
        holds(
            item_lines(items, n),
            "- "@ + items[i].status.mark() + " "@ + items[i].text@ + "\n"@,
        ),
    decreases n,
{
    let line = "- "@ + items[i].status.mark() + " "@ + items[i].text@ + "\n"@;
    let before = item_lines(items, (n - 1) as nat);
    let none = Seq::<char>::empty();
    if i == n - 1 {
        lemma_holds_between(before, line, none);
        assert(before + line + none =~= item_lines(items, n));
    } else {
        lemma_items(items, (n - 1) as nat, i);
        let last = "- "@ + items[n - 1].status.mark() + " "@ + items[n - 1].text@ + "\n"@;
        lemma_holds_between(none, before, last);
        assert(none + before + last =~= item_lines(items, n));
        lemma_holds_within(item_lines(items, n), before, line);
    }
}

/// Every item of the list is told with its mark: one for what waits, one for what is
/// under way, one for what is done; and how much of it is done.
#[verifier::rlimit(40)]
pub proof fn law_items_are_told(s: StructuredState, todos: TodoSnapshot, i: int)
    requires
        s.todo_snapshot == Some(todos),
        0 <= i < todos.items@.len(),
    ensures
        holds(
            state_text(s),
            "- "@ + todos.items@[i].status.mark() + " "@ + todos.items@[i].text@ + "\n"@,
        ),
        holds(state_text(s), "Checklist ("@ + decimal(todos.completion_pct as nat) + "% complete)"@),
        ItemStatus::Pending.mark() == "[ ]"@,
        ItemStatus::InProgress.mark() == "[~]"@,
        ItemStatus::Completed.mark() == "[x]"@,
{
    let items = item_lines(todos.items@, todos.items@.len());
    let pct = decimal(todos.completion_pct as nat);
    let section = todo_section(s.todo_snapshot);
    let line = "- "@ + todos.items@[i].status.mark() + " "@ + todos.items@[i].text@ + "\n"@;
    lemma_sections(s);
    lemma_items(todos.items@, todos.items@.len(), i);
    lemma_heading(pct, items);
    lemma_holds_within(section, items, line);
    lemma_holds_within(state_text(s), section, line);
    lemma_holds_within(state_text(s), section, "Checklist ("@ + pct + "% complete)"@);
}

proof fn lemma_heading(pct: Seq<char>, items: Seq<char>)
    ensures
        holds("\nChecklist ("@ + pct + "% complete)\n"@ + items, items),
        holds(
            "\nChecklist ("@ + pct + "% complete)\n"@ + items,
            "Checklist ("@ + pct + "% complete)"@,
        ),
{
    let section = "\nChecklist ("@ + pct + "% complete)\n"@ + items;
    lemma_two("\nChecklist ("@ + pct + "% complete)\n"@, items);
    let told = "Checklist ("@ + pct + "% complete)"@;
    assert("\nChecklist ("@ =~= "\n"@ + "Checklist ("@) by {
        reveal_strlit("\nChecklist (");
        reveal_strlit("\n");
        reveal_strlit("Checklist (");
    }
    assert("% complete)\n"@ =~= "% complete)"@ + "\n"@) by {
        reveal_strlit("\n");
        reveal_strlit("% complete)\n");
        reveal_strlit("% complete)");
    }
    lemma_holds_between("\n"@, told, "\n"@ + items);
    lemma_shift("\n"@, "Checklist ("@, pct, "% complete)"@, items);
}

proof fn lemma_shift(
    a: Seq<char>,
    b: Seq<char>,
    c: Seq<char>,
    d: Seq<char>,
    e: Seq<char>,
)
    ensures
        a + b + c + (d + a) + e == a + (b + c + d) + (a + e),
{
    assert(a + b + c + (d + a) + e =~= a + (b + c + d) + (a + e));
}

proof fn lemma_sections(s: StructuredState)
    ensures
        holds(state_text(s), todo_section(s.todo_snapshot)),
        holds(state_text(s), crate::engine::state_block::plan_section(s.plan_snapshot)),
        holds(state_text(s), place_section(s)),
        s.subagent_snapshots@.len() > 0 ==> holds(
            state_text(s),
            agent_lines(s.subagent_snapshots@, s.subagent_snapshots@.len()),
        ),
        s.working_set_summary matches Some(w) ==> holds(state_text(s), w@),
{
    let none = Seq::<char>::empty();
    let place = place_section(s);
    let work = if s.todo_snapshot is Some || s.plan_snapshot is Some {
        "\n### Work\n"@
    } else {
        none
    };
    let todo = todo_section(s.todo_snapshot);
    let plan = crate::engine::state_block::plan_section(s.plan_snapshot);
    let lines = agent_lines(s.subagent_snapshots@, s.subagent_snapshots@.len());
    let agents = if s.subagent_snapshots@.len() > 0 {
        "\n### Open Sub-Agents\n"@ + lines
    } else {
        none
    };
    let set = match s.working_set_summary {
        Some(w) => "\n"@ + w@ + "\n"@,
        None => none,
    };
    let all = state_text(s);
    lemma_six(place, work, todo, plan, agents, set);
    if s.subagent_snapshots@.len() > 0 {
        lemma_two("\n### Open Sub-Agents\n"@, lines);
        lemma_holds_within(all, agents, lines);
    }
    if let Some(w) = s.working_set_summary {
        lemma_holds_between("\n"@, w@, "\n"@);
        lemma_holds_within(all, set, w@);
    }
}

/// The mode and the workspace are told, and the set of files that are worked on.
pub proof fn law_places_are_told(s: StructuredState)
    ensures
        holds(state_text(s), "- Mode: `"@ + s.mode_label@ + "`\n"@),
        holds(state_text(s), "- Workspace: `"@ + s.workspace@ + "`\n"@),
        s.cwd matches Some(c) ==> holds(state_text(s), "- Cwd: `"@ + c@ + "`\n"@),
        s.working_set_summary matches Some(w) ==> holds(state_text(s), w@),
{
    lemma_sections(s);
    let place = place_section(s);
    let all = state_text(s);
    let head = "## Fork State\n\n"@;
    let mode = "- Mode: `"@ + s.mode_label@ + "`\n"@;
    let workspace = "- Workspace: `"@ + s.workspace@ + "`\n"@;
    let none = Seq::<char>::empty();
    let cwd = match s.cwd {
        Some(c) => "- Cwd: `"@ + c@ + "`\n"@,
        None => none,
    };
    let front = head + mode;
    let both = front + workspace;
    lemma_two(both, cwd);
    lemma_two(front, workspace);
    lemma_two(head, mode);
    lemma_holds_within(place, both, workspace);
    lemma_holds_within(place, both, front);
    lemma_holds_within(place, front, mode);
    lemma_holds_within(all, place, mode);
    lemma_holds_within(all, place, workspace);
    lemma_holds_within(all, place, cwd);
}

proof fn lemma_agents(agents: Seq<OpenSubAgent>, n: nat, i: int)
    requires
        0 <= i < n <= agents.len(),
    ensures
        holds(agent_lines(agents, n), "- `"@ + agents[i].agent_id@ + "` (role: "@),
        agents[i].objective@.len() > 0 ==> holds(agent_lines(agents, n), agents[i].objective@),
    decreases n,
{
    let none = Seq::<char>::empty();
    let all = agent_lines(agents, n);
    let before = agent_lines(agents, (n - 1) as nat);
    let a = agents[n - 1];
    let role = match a.role {
        Some(r) => r@,
        None => "-"@,
    };
    let said = if a.objective@.len() == 0 {
        "(no objective set)"@
    } else {
        a.objective@
    };
    let head = "- `"@ + a.agent_id@ + "` (role: "@;
    let line = head + role + ") - "@ + said + "\n"@;
    assert(all == before + line);
    if i == n - 1 {
        assert(all =~= before + head + (role + ") - "@ + said + "\n"@));
        lemma_holds_between(before, head, role + ") - "@ + said + "\n"@);
        assert(all =~= (before + head + role + ") - "@) + said + "\n"@);
        lemma_holds_between(before + head + role + ") - "@, said, "\n"@);
    } else {
        lemma_agents(agents, (n - 1) as nat, i);
        assert(all =~= none + before + line);
        lemma_holds_between(none, before, line);
        lemma_holds_within(all, before, "- `"@ + agents[i].agent_id@ + "` (role: "@);
        if agents[i].objective@.len() > 0 {
            lemma_holds_within(all, before, agents[i].objective@);
        }
    }
}

/// Every sub-agent that is open is told with what it is to do.
pub proof fn law_open_agents_are_told(s: StructuredState, i: int)
    requires
        0 <= i < s.subagent_snapshots@.len(),
    ensures
        holds(state_text(s), "- `"@ + s.subagent_snapshots@[i].agent_id@ + "` (role: "@),
        s.subagent_snapshots@[i].objective@.len() > 0 ==> holds(
            state_text(s),
            s.subagent_snapshots@[i].objective@,
        ),
{
    let agents = s.subagent_snapshots@;
    lemma_sections(s);
    lemma_agents(agents, agents.len(), i);
    let lines = agent_lines(agents, agents.len());
    lemma_holds_within(state_text(s), lines, "- `"@ + agents[i].agent_id@ + "` (role: "@);
    if agents[i].objective@.len() > 0 {
        lemma_holds_within(state_text(s), lines, agents[i].objective@);
    }
}

/// A field of a plan is told where it says something, without blanks around it.
pub proof fn law_fields_are_told(label: Seq<char>, value: Seq<char>)
    ensures
        trimmed(value).len() > 0 ==> field_line(label, Some(value)) == "- "@ + label + ": "@
            + trimmed(value) + "\n"@,
        trimmed(value).len() == 0 ==> field_line(label, Some(value)).len() == 0,
        field_line(label, None).len() == 0,
        list_lines(label, seq![value], 1) == field_line(label, Some(value)),
{
    reveal_with_fuel(list_lines, 2);
    assert(list_lines(label, seq![value], 0) =~= Seq::<char>::empty());
    assert(Seq::<char>::empty() + field_line(label, Some(value)) =~= field_line(
        label,
        Some(value),
    ));
}

/// Of the sub-agents those that run are open, all of them, in their order.
pub proof fn law_running_agents_are_open(agents: Seq<(OpenSubAgent, bool)>, n: nat)
    requires
        n < agents.len(),
    ensures
        running(agents, 0).len() == 0,
        agents[n as int].1 ==> running(agents, n + 1) == running(agents, n).push(
            agents[n as int].0,
        ),
        !agents[n as int].1 ==> running(agents, n + 1) == running(agents, n),
{
}

// ---------------------------------------------------------------------------
// What is offered
// ---------------------------------------------------------------------------

proof fn lemma_more(list: Seq<ToolGroup>, more: Seq<ToolGroup>, offered: bool, x: ToolGroup)
    ensures
        plus(list, more, offered).contains(x) <==> list.contains(x) || (offered && more.contains(
            x,
        )),
        (list + more).contains(x) <==> list.contains(x) || more.contains(x),
{
    let both = list + more;
    if list.contains(x) {
        let i = choose|i: int| 0 <= i < list.len() && list[i] == x;
        assert(both[i] == x);
    }
    if more.contains(x) {
        let i = choose|i: int| 0 <= i < more.len() && more[i] == x;
        assert(both[list.len() + i] == x);
    }
}

proof fn lemma_one(g: ToolGroup, x: ToolGroup)
    ensures
        seq![g].contains(x) <==> x == g,
{
    assert(seq![g][0] == g);
}

proof fn lemma_offered(
    shell: ShellPolicy,
    features: Features,
    remembers: bool,
    vision_configured: bool,
    has_mcp_pool: bool,
    x: ToolGroup,
)
    ensures
        ({
            let g = planning_groups(shell, features, remembers, vision_configured, has_mcp_pool);
            &&& x == ToolGroup::ReadOnlyFiles || x == ToolGroup::Search || x == ToolGroup::Plan || x
                == ToolGroup::UserInput ==> g.contains(x)
            &&& x == ToolGroup::Web ==> (g.contains(x) <==> features.web_search)
            &&& x == ToolGroup::Remember ==> (g.contains(x) <==> remembers)
            &&& x == ToolGroup::Vision ==> (g.contains(x) <==> features.vision_model
                && vision_configured)
            &&& x == ToolGroup::RuntimeMcp ==> (g.contains(x) <==> has_mcp_pool)
            &&& x == ToolGroup::Shell ==> (g.contains(x) <==> shell != ShellPolicy::Disabled)
        }),
{
    let base = seq![
        ToolGroup::ReadOnlyFiles,
        ToolGroup::Search,
        ToolGroup::Git,
        ToolGroup::GitHistory,
        ToolGroup::Diagnostics,
        ToolGroup::Skills,
        ToolGroup::Validation,
        ToolGroup::Handles,
        ToolGroup::ReadOnlyTasks,
        ToolGroup::Todo,
        ToolGroup::Plan,
        ToolGroup::Goal,
    ];
    let commands = seq![ToolGroup::Shell, ToolGroup::TaskShell];
    let talk = seq![
        ToolGroup::Review,
        ToolGroup::UserInput,
        ToolGroup::Parallel,
        ToolGroup::ReadOnlySlopLedger,
    ];
    let with_shell = plus(base, commands, shell != ShellPolicy::Disabled);
    let with_talk = with_shell + talk;
    let with_web = plus(with_talk, seq![ToolGroup::Web], features.web_search);
    let with_memory = plus(with_web, seq![ToolGroup::Remember], remembers);
    let vision = features.vision_model && vision_configured;
    let with_vision = plus(with_memory, seq![ToolGroup::Vision], vision);
    let with_notice = with_vision + seq![ToolGroup::Notify];
    assert(base.contains(x) ==> x != ToolGroup::Shell && x != ToolGroup::Web && x
        != ToolGroup::Remember && x != ToolGroup::Vision && x != ToolGroup::RuntimeMcp);
    assert(base[0] == ToolGroup::ReadOnlyFiles && base[1] == ToolGroup::Search && base[10]
        == ToolGroup::Plan);
    assert(commands[0] == ToolGroup::Shell);
    assert(talk[1] == ToolGroup::UserInput);
    lemma_more(base, commands, shell != ShellPolicy::Disabled, x);
    lemma_more(with_shell, talk, true, x);
    lemma_more(with_talk, seq![ToolGroup::Web], features.web_search, x);
    lemma_more(with_web, seq![ToolGroup::Remember], remembers, x);
    lemma_more(with_memory, seq![ToolGroup::Vision], vision, x);
    lemma_more(with_vision, seq![ToolGroup::Notify], true, x);
    lemma_more(with_notice, seq![ToolGroup::RuntimeMcp], has_mcp_pool, x);
    lemma_one(ToolGroup::Web, x);
    lemma_one(ToolGroup::Remember, x);
    lemma_one(ToolGroup::Vision, x);
    lemma_one(ToolGroup::Notify, x);
    lemma_one(ToolGroup::RuntimeMcp, x);
}

/// Whoever plans is offered files to read and no tool that writes them; the web, the
/// memory, pictures and remote servers only where they are switched on.
pub proof fn law_planning_reads(
    shell: ShellPolicy,
    features: Features,
    remembers: bool,
    vision_configured: bool,
    has_mcp_pool: bool,
)
    ensures
        ({
            let g = planning_groups(shell, features, remembers, vision_configured, has_mcp_pool);
            &&& g.contains(ToolGroup::ReadOnlyFiles)
            &&& g.contains(ToolGroup::Search)
            &&& g.contains(ToolGroup::Plan)
            &&& g.contains(ToolGroup::UserInput)
            &&& g.contains(ToolGroup::Web) <==> features.web_search
            &&& g.contains(ToolGroup::Remember) <==> remembers
            &&& g.contains(ToolGroup::Vision) <==> features.vision_model && vision_configured
            &&& g.contains(ToolGroup::RuntimeMcp) <==> has_mcp_pool
            &&& g.contains(ToolGroup::Shell) <==> shell != ShellPolicy::Disabled
        }),
{
    lemma_offered(
        shell,
        features,
        remembers,
        vision_configured,
        has_mcp_pool,
        ToolGroup::ReadOnlyFiles,
    );
    lemma_offered(
        shell,
        features,
        remembers,
        vision_configured,
        has_mcp_pool,
        ToolGroup::Search,
    );
    lemma_offered(
        shell,
        features,
        remembers,
        vision_configured,
        has_mcp_pool,
        ToolGroup::Plan,
    );
    lemma_offered(
        shell,
        features,
        remembers,
        vision_configured,
        has_mcp_pool,
        ToolGroup::UserInput,
    );
    lemma_offered(
        shell,
        features,
        remembers,
        vision_configured,
        has_mcp_pool,
        ToolGroup::Web,
    );
    lemma_offered(
        shell,
        features,
        remembers,
        vision_configured,
        has_mcp_pool,
        ToolGroup::Remember,
    );
    lemma_offered(
        shell,
        features,
        remembers,
        vision_configured,
        has_mcp_pool,
        ToolGroup::Vision,
    );
    lemma_offered(
        shell,
        features,
        remembers,
        vision_configured,
        has_mcp_pool,
        ToolGroup::RuntimeMcp,
    );
    lemma_offered(
        shell,
        features,
        remembers,
        vision_configured,
        has_mcp_pool,
        ToolGroup::Shell,
    );
}

/// Of the tools those that may be used are kept, all of them, in their order.
pub proof fn law_kept_tools_stay_in_order(tools: Seq<ToolView>, kept: Seq<bool>, n: nat)
    requires
        n < tools.len(),
        kept.len() == tools.len(),
    ensures
        kept_tools(tools, kept, 0).len() == 0,
        kept[n as int] ==> kept_tools(tools, kept, n + 1) == kept_tools(tools, kept, n).push(
            tools[n as int],
        ),
        !kept[n as int] ==> kept_tools(tools, kept, n + 1) == kept_tools(tools, kept, n),
{
}

/// A place is listed once, and no place that was listed is lost.
pub proof fn law_places_are_listed_once(paths: Seq<Seq<char>>, path: Seq<char>)
    ensures
        paths.is_prefix_of(with_place(paths, path)),
        place_listed(with_place(paths, path), path),
        with_place(with_place(paths, path), path) == with_place(paths, path),
        place_listed(paths, path) ==> with_place(paths, path) == paths,
        !place_listed(paths, path) ==> with_place(paths, path) == paths.push(path),
{
    let after = with_place(paths, path);
    if !place_listed(paths, path) {
        assert(after[paths.len() as int] == path);
        assert(crate::paths::same_place(after[paths.len() as int], path));
    }
}

/// The program's own directory is the one that was set; else it lies in the home.
pub proof fn law_own_directory(dir: Seq<char>, home: Option<Seq<char>>)
    ensures
        own_dir(Some(dir), home) == dir,
        dir.len() > 0 && dir.last() != '/' ==> own_dir(None, Some(dir)) == dir + "/"@
            + ".codewhale"@,
        own_dir(None, None) == ".codewhale"@,
{
    if dir.len() > 0 {
        reveal_strlit("/");
        assert(dir.subrange(dir.len() - 1, dir.len() as int)[0] == dir.last());
        assert("/"@[0] == '/');
    }
}

/// Tools of plugins are loaded at once; all else of them, and all other tools, stay as
/// they are.
pub proof fn law_plugins_are_loaded(tools: Seq<ToolView>, plugins: Set<Seq<char>>, i: int)
    requires
        0 <= i < tools.len(),
    ensures
        with_plugins_loaded(tools, plugins).len() == tools.len(),
        with_plugins_loaded(tools, plugins)[i].name == tools[i].name,
        with_plugins_loaded(tools, plugins)[i].input_schema == tools[i].input_schema,
        plugins.contains(tools[i].name) ==> with_plugins_loaded(tools, plugins)[i].defer_loading
            == Some(false),
        !plugins.contains(tools[i].name) ==> with_plugins_loaded(tools, plugins)[i] == tools[i],
{
}

/// What is always loaded is what was set, and the start of remote servers where those
/// are used.
pub proof fn law_always_loaded(names: Seq<Seq<char>>, mcp: bool, i: int)
    requires
        0 <= i < names.len(),
    ensures
        always_loaded(names, mcp).contains(names[i]),
        mcp ==> always_loaded(names, mcp).contains("start_mcp_server"@),
        forall|n: Seq<char>|
            always_loaded(names, false).contains(n) ==> #[trigger] names.contains(n),
{
    assert(names.contains(names[i]));
}

/// The model of a role is the one that was set last for it.
pub proof fn law_last_model_counts(list: Seq<(String, String)>, role: Seq<char>, n: nat)
    requires
        n <= list.len(),
    ensures
        match model_for(list, role, n) {
            Some(m) => exists|i: int|
                0 <= i < n && (#[trigger] list[i]).0@ == role && list[i].1@ == m && forall|j: int|
                    i < j < n ==> (#[trigger] list[j]).0@ != role,
            None => forall|i: int| 0 <= i < n ==> (#[trigger] list[i]).0@ != role,
        },
    decreases n,
{
    if n > 0 {
        law_last_model_counts(list, role, (n - 1) as nat);
        if list[n - 1].0@ != role && model_for(list, role, (n - 1) as nat) is Some {
            let m = model_for(list, role, (n - 1) as nat)->0;
            let i = choose|i: int|
                0 <= i < n - 1 && (#[trigger] list[i]).0@ == role && list[i].1@ == m && forall|
                    j: int,
                |
                    i < j < n - 1 ==> (#[trigger] list[j]).0@ != role;
            assert(list[i].0@ == role);
        }
    }
}

/// The fields of a plan are told, and its items with their marks.
#[verifier::rlimit(40)]
pub proof fn law_plans_are_told(s: StructuredState, plan: PlanSnapshot, i: int)
    requires
        s.plan_snapshot == Some(plan),
    ensures
        holds(state_text(s), field_line("Title"@, opt_text(plan.title))),
        holds(state_text(s), field_line("Objective"@, opt_text(plan.objective))),
        0 <= i < plan.items@.len() ==> holds(
            state_text(s),
            "- "@ + plan.items@[i].status.mark() + " "@ + plan.items@[i].text@ + "\n"@,
        ),
{
    lemma_sections(s);
    let all = state_text(s);
    let section = crate::engine::state_block::plan_section(s.plan_snapshot);
    let t1 = "\nStrategy metadata\n"@;
    let t2 = field_line("Title"@, opt_text(plan.title));
    let t3 = field_line("Objective"@, opt_text(plan.objective));
    let t4 = field_line("Context"@, opt_text(plan.context_summary));
    let t5 = field_line("Explanation"@, opt_text(plan.explanation));
    let t6 = list_lines(
        "Source"@,
        crate::text::texts(plan.sources_used@),
        plan.sources_used@.len(),
    );
    let t7 = list_lines(
        "Critical file"@,
        crate::text::texts(plan.critical_files@),
        plan.critical_files@.len(),
    );
    let t8 = list_lines(
        "Constraint"@,
        crate::text::texts(plan.constraints@),
        plan.constraints@.len(),
    );
    let t9 = field_line("Recommended approach"@, opt_text(plan.recommended_approach));
    let t10 = field_line("Verification plan"@, opt_text(plan.verification_plan));
    let t11 = field_line("Risks and unknowns"@, opt_text(plan.risks_and_unknowns));
    let t12 = field_line("Handoff packet"@, opt_text(plan.handoff_packet));
    let t13 = item_lines(plan.items@, plan.items@.len());
    let a2 = t1 + t2;
    let a3 = a2 + t3;
    let a4 = a3 + t4;
    let a5 = a4 + t5;
    let a6 = a5 + t6;
    let a7 = a6 + t7;
    let a8 = a7 + t8;
    let a9 = a8 + t9;
    let a10 = a9 + t10;
    let a11 = a10 + t11;
    let a12 = a11 + t12;
    assert(section == a12 + t13);
    lemma_two(a12, t13);
    lemma_two(a11, t12);
    lemma_two(a10, t11);
    lemma_two(a9, t10);
    lemma_two(a8, t9);
    lemma_two(a7, t8);
    lemma_two(a6, t7);
    lemma_two(a5, t6);
    lemma_two(a4, t5);
    lemma_two(a3, t4);
    lemma_two(a2, t3);
    lemma_two(t1, t2);
    lemma_holds_within(section, a12, a11);
    lemma_holds_within(section, a11, a10);
    lemma_holds_within(section, a10, a9);
    lemma_holds_within(section, a9, a8);
    lemma_holds_within(section, a8, a7);
    lemma_holds_within(section, a7, a6);
    lemma_holds_within(section, a6, a5);
    lemma_holds_within(section, a5, a4);
    lemma_holds_within(section, a4, a3);
    lemma_holds_within(section, a3, a2);
    lemma_holds_within(section, a3, t3);
    lemma_holds_within(section, a2, t2);
    lemma_holds_within(all, section, t2);
    lemma_holds_within(all, section, t3);
    if 0 <= i < plan.items@.len() {
        let line = "- "@ + plan.items@[i].status.mark() + " "@ + plan.items@[i].text@ + "\n"@;
        lemma_items(plan.items@, plan.items@.len(), i);
        lemma_holds_within(section, t13, line);
        lemma_holds_within(all, section, line);
    }
}

/// Every server that could not be reached is told with the reason, in order.
pub proof fn law_lost_servers_are_told(errors: Seq<(String, String)>, i: int)
    requires
        0 <= i < errors.len(),
    ensures
        connect_failures(errors).len() == errors.len(),
        connect_failures(errors)[i] == EventView::Status(
            "Failed to connect MCP server '"@ + errors[i].0@ + "': "@ + errors[i].1@,
        ),
{
}

/// Remote tools are offered only where they are switched on, behind the program's own.
pub proof fn law_remote_tools_are_offered_where_on(
    e: Engine,
    native: Seq<ToolView>,
    mcp: Seq<ToolView>,
    plugins: Set<Seq<char>>,
    mode: AppMode,
    budget: crate::tool_catalog::ToolSurfaceBudget,
)
    ensures
        !e.config.features.mcp ==> e.offered(native, mcp, plugins, mode, budget).len()
            == native.len(),
        e.config.features.mcp ==> e.offered(native, mcp, plugins, mode, budget).len()
            == native.len() + mcp.len(),
{
    let always = always_loaded(
        crate::text::texts(e.config.tools_always_load@),
        e.config.features.mcp,
    );
    crate::tool_catalog::law_catalog_head_is_stable(native, mcp, mcp, mode, mode, always, budget);
    crate::tool_catalog::law_catalog_head_is_stable(
        native,
        Seq::empty(),
        mcp,
        mode,
        mode,
        always,
        budget,
    );
}

/// A tool that is allowed and not denied is kept.
pub proof fn law_allowed_tools_are_kept<D: Fn(&str) -> bool, A: Fn(&str) -> bool>(
    denies: D,
    allows: A,
    denied: spec_fn(Seq<char>) -> bool,
    allowed: spec_fn(Seq<char>) -> bool,
    tools: Seq<ToolView>,
    result: Seq<ToolView>,
    i: int,
)
    requires
        forall|name: &str, b: bool| #[trigger]
            call_ensures(denies, (name,), b) ==> b == denied(name@),
        forall|name: &str, b: bool| #[trigger]
            call_ensures(allows, (name,), b) ==> b == allowed(name@),
        gated(denies, allows, tools, result),
        0 <= i < tools.len(),
        !denied(tools[i].name),
        allowed(tools[i].name),
    ensures
        result.contains(tools[i]),
{
    let kept = choose|kept: Seq<bool>| #[trigger]
        gate_answers(denies, allows, tools, kept) && result == kept_tools(
            tools,
            kept,
            tools.len(),
        );
    assert(let_through(denies, allows, tools[i].name, kept[i]));
    let name = choose|name: &str|
        name@ == tools[i].name && #[trigger] gate_answer(denies, allows, name, kept[i]);
    assert(gate_answer(denies, allows, name, kept[i]));
    assert(kept[i]);
    lemma_kept(tools, kept, tools.len(), i);
}

proof fn lemma_kept(tools: Seq<ToolView>, kept: Seq<bool>, n: nat, i: int)
    requires
        0 <= i < n <= tools.len(),
        kept.len() == tools.len(),
        kept[i],
    ensures
        kept_tools(tools, kept, n).contains(tools[i]),
    decreases n,
{
    let all = kept_tools(tools, kept, n);
    let before = kept_tools(tools, kept, (n - 1) as nat);
    if i == n - 1 {
        assert(all[before.len() as int] == tools[i]);
    } else {
        lemma_kept(tools, kept, (n - 1) as nat, i);
        let k = choose|k: int| 0 <= k < before.len() && before[k] == tools[i];
        assert(all[k] == tools[i]);
    }
}

/// A turn of a session is described by the session's own model, route and usage.
pub proof fn law_sessions_describe_their_turns(
    f: TurnFacts,
    session: Session,
    provenance: UserInputProvenance,
    texts: ModeTexts,
)
    ensures
        ({
            let told = told_in_session(f, session, provenance, texts);
            &&& holds(told, "Current model: "@ + session.model@)
            &&& session.auto_model ==> holds(told, "Auto model route: "@ + session.model@)
            &&& usage_line(session.total_usage) matches Some(line) ==> holds(told, line)
            &&& session.reasoning_effort_auto ==> (session.reasoning_effort matches Some(e) ==> holds(
                told,
                "Auto reasoning effort: "@ + e@,
            ))
        }),
{
    let route = TurnRoute {
        model: session.model,
        auto_model: session.auto_model,
        reasoning_effort: session.reasoning_effort,
        reasoning_effort_auto: session.reasoning_effort_auto,
    };
    law_turns_are_described(f, route, provenance, session.total_usage, texts);
    law_known_facts_are_told(f, route, provenance, session.total_usage, texts);
}

} // verus!
