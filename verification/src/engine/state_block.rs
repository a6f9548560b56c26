//! What a sub-agent that is forked off is told of the state of the work.

use crate::text::{concat, decimal, opt_str, opt_text, push_decimal, texts, trim, trimmed};
use vstd::prelude::*;

verus! {

/// How far an item of a checklist or of a plan is.
#[derive(Debug, Clone, Copy, PartialEq, Eq, Structural)]
pub enum ItemStatus {
    Pending,
    InProgress,
    Completed,
}

impl ItemStatus {
    /// The box before an item.
    pub open spec fn mark(self) -> Seq<char> {
        match self {
            ItemStatus::Pending => "[ ]"@,
            ItemStatus::InProgress => "[~]"@,
            ItemStatus::Completed => "[x]"@,
        }
    }

    /// The box before an item.
    pub fn marker(self) -> (r: &'static str)
        ensures
            r@ == self.mark(),
    {
        match self {
            ItemStatus::Pending => "[ ]",
            ItemStatus::InProgress => "[~]",
            ItemStatus::Completed => "[x]",
        }
    }
}

/// An item of a checklist or of a plan.
#[derive(Debug)]
pub struct WorkItem {
    pub status: ItemStatus,
    pub text: String,
}

/// The checklist.
#[derive(Debug)]
pub struct TodoSnapshot {
    pub completion_pct: u8,
    pub items: Vec<WorkItem>,
}

/// The plan.
#[derive(Debug)]
pub struct PlanSnapshot {
    pub title: Option<String>,
    pub objective: Option<String>,
    pub context_summary: Option<String>,
    pub explanation: Option<String>,
    pub sources_used: Vec<String>,
    pub critical_files: Vec<String>,
    pub constraints: Vec<String>,
    pub recommended_approach: Option<String>,
    pub verification_plan: Option<String>,
    pub risks_and_unknowns: Option<String>,
    pub handoff_packet: Option<String>,
    pub items: Vec<WorkItem>,
}

/// A sub-agent that runs.
#[derive(Debug)]
pub struct OpenSubAgent {
    pub agent_id: String,
    pub role: Option<String>,
    pub objective: String,
}

/// The state of the work.
#[derive(Debug)]
pub struct StructuredState {
    pub mode_label: String,
    pub workspace: String,
    pub cwd: Option<String>,
    pub working_set_summary: Option<String>,
    pub todo_snapshot: Option<TodoSnapshot>,
    pub plan_snapshot: Option<PlanSnapshot>,
    pub subagent_snapshots: Vec<OpenSubAgent>,
}

/// The line about a field of a plan; none where it says nothing.
pub open spec fn field_line(label: Seq<char>, value: Option<Seq<char>>) -> Seq<char> {
    match value {
        Some(v) => if trimmed(v).len() > 0 {
            "- "@ + label + ": "@ + trimmed(v) + "\n"@
        } else {
            Seq::empty()
        },
        None => Seq::empty(),
    }
}

/// Adds the line about a field of a plan.
pub fn append_plan_field(out: &mut String, label: &str, value: Option<&str>)
    ensures
        final(out)@ == old(out)@ + field_line(label@, opt_str(value)),
{
    let ghost before = out@;
    if let Some(v) = value {
        let bare = trim(v);
        if !bare.as_str().is_empty() {
            let mut line = concat("- ", label);
            line.append(": ");
            line.append(bare.as_str());
            line.append("\n");
            out.append(line.as_str());
            return;
        }
    }
    proof {
        assert(before + Seq::<char>::empty() =~= before);
    }
}

/// The lines about the first `n` entries of a list of a plan.
pub open spec fn list_lines(label: Seq<char>, values: Seq<Seq<char>>, n: nat) -> Seq<char>
    decreases n,
{
    if n == 0 {
        Seq::empty()
    } else {
        list_lines(label, values, (n - 1) as nat) + field_line(label, Some(values[n - 1]))
    }
}

/// Adds the lines about a list of a plan.
pub fn append_plan_list(out: &mut String, label: &str, values: &Vec<String>)
    ensures
        final(out)@ == old(out)@ + list_lines(label@, texts(values@), values@.len()),
{
    let ghost before = out@;
    let ghost all = texts(values@);
    let mut i: usize = 0;
    proof {
        assert(before + Seq::<char>::empty() =~= before);
    }
    while i < values.len()
        invariant
            i <= values@.len(),
            all == texts(values@),
            out@ == before + list_lines(label@, all, i as nat),
        decreases values@.len() - i,
    {
        assert(all[i as int] == values@[i as int]@);
        append_plan_field(out, label, Some(values[i].as_str()));
        proof {
            assert((before + list_lines(label@, all, i as nat)) + field_line(
                label@,
                Some(all[i as int]),
            ) =~= before + list_lines(label@, all, (i + 1) as nat));
        }
        i += 1;
    }
}

/// The lines about the first `n` items.
pub open spec fn item_lines(items: Seq<WorkItem>, n: nat) -> Seq<char>
    decreases n,
{
    if n == 0 {
        Seq::empty()
    } else {
        item_lines(items, (n - 1) as nat) + ("- "@ + items[n - 1].status.mark() + " "@ + items[n
            - 1].text@ + "\n"@)
    }
}

fn append_items(out: &mut String, items: &Vec<WorkItem>)
    ensures
        final(out)@ == old(out)@ + item_lines(items@, items@.len()),
{
    let ghost before = out@;
    let mut i: usize = 0;
    proof {
        assert(before + Seq::<char>::empty() =~= before);
    }
    while i < items.len()
        invariant
            i <= items@.len(),
            out@ == before + item_lines(items@, i as nat),
        decreases items@.len() - i,
    {
        let mut line = concat("- ", items[i].status.marker());
        line.append(" ");
        line.append(items[i].text.as_str());
        line.append("\n");
        out.append(line.as_str());
        proof {
            assert((before + item_lines(items@, i as nat)) + line@ =~= before + item_lines(
                items@,
                (i + 1) as nat,
            ));
        }
        i += 1;
    }
}

/// The lines about the first `n` sub-agents.
pub open spec fn agent_lines(agents: Seq<OpenSubAgent>, n: nat) -> Seq<char>
    decreases n,
{
    if n == 0 {
        Seq::empty()
    } else {
        let a = agents[n - 1];
        agent_lines(agents, (n - 1) as nat) + ("- `"@ + a.agent_id@ + "` (role: "@ + (
        match a.role {
            Some(r) => r@,
            None => "-"@,
        }) + ") - "@ + (if a.objective@.len() == 0 {
            "(no objective set)"@
        } else {
            a.objective@
        }) + "\n"@)
    }
}

fn append_agents(out: &mut String, agents: &Vec<OpenSubAgent>)
    ensures
        final(out)@ == old(out)@ + agent_lines(agents@, agents@.len()),
{
    let ghost before = out@;
    let mut i: usize = 0;
    proof {
        assert(before + Seq::<char>::empty() =~= before);
    }
    while i < agents.len()
        invariant
            i <= agents@.len(),
            out@ == before + agent_lines(agents@, i as nat),
        decreases agents@.len() - i,
    {
        let a = &agents[i];
        let mut line = concat("- `", a.agent_id.as_str());
        line.append("` (role: ");
        match &a.role {
            Some(r) => line.append(r.as_str()),
            None => line.append("-"),
        }
        line.append(") - ");
        if a.objective.as_str().is_empty() {
            line.append("(no objective set)");
        } else {
            line.append(a.objective.as_str());
        }
        line.append("\n");
        out.append(line.as_str());
        proof {
            assert((before + agent_lines(agents@, i as nat)) + line@ =~= before + agent_lines(
                agents@,
                (i + 1) as nat,
            ));
        }
        i += 1;
    }
}

/// The section about where the work goes on.
pub open spec fn place_section(s: StructuredState) -> Seq<char> {
    "## Fork State\n\n"@ + ("- Mode: `"@ + s.mode_label@ + "`\n"@) + ("- Workspace: `"@
        + s.workspace@ + "`\n"@) + (match s.cwd {
        Some(c) => "- Cwd: `"@ + c@ + "`\n"@,
        None => Seq::empty(),
    })
}

/// The section about the checklist.
pub open spec fn todo_section(t: Option<TodoSnapshot>) -> Seq<char> {
    match t {
        Some(todos) => "\nChecklist ("@ + decimal(todos.completion_pct as nat)
            + "% complete)\n"@ + item_lines(todos.items@, todos.items@.len()),
        None => Seq::empty(),
    }
}

/// The section about the plan.
pub open spec fn plan_section(p: Option<PlanSnapshot>) -> Seq<char> {
    match p {
        Some(plan) => "\nStrategy metadata\n"@ + field_line("Title"@, opt_text(plan.title))
            + field_line("Objective"@, opt_text(plan.objective)) + field_line(
            "Context"@,
            opt_text(plan.context_summary),
        ) + field_line("Explanation"@, opt_text(plan.explanation)) + list_lines(
            "Source"@,
            texts(plan.sources_used@),
            plan.sources_used@.len(),
        ) + list_lines(
            "Critical file"@,
            texts(plan.critical_files@),
            plan.critical_files@.len(),
        ) + list_lines("Constraint"@, texts(plan.constraints@), plan.constraints@.len())
            + field_line("Recommended approach"@, opt_text(plan.recommended_approach))
            + field_line("Verification plan"@, opt_text(plan.verification_plan)) + field_line(
            "Risks and unknowns"@,
            opt_text(plan.risks_and_unknowns),
        ) + field_line("Handoff packet"@, opt_text(plan.handoff_packet)) + item_lines(
            plan.items@,
            plan.items@.len(),
        ),
        None => Seq::empty(),
    }
}

/// The state of the work as a text.
pub open spec fn state_text(s: StructuredState) -> Seq<char> {
    place_section(s) + (if s.todo_snapshot is Some || s.plan_snapshot is Some {
        "\n### Work\n"@
    } else {
        Seq::empty()
    }) + todo_section(s.todo_snapshot) + plan_section(s.plan_snapshot) + (
    if s.subagent_snapshots@.len() > 0 {
        "\n### Open Sub-Agents\n"@ + agent_lines(
            s.subagent_snapshots@,
            s.subagent_snapshots@.len(),
        )
    } else {
        Seq::empty()
    }) + (match s.working_set_summary {
        Some(w) => "\n"@ + w@ + "\n"@,
        None => Seq::empty(),
    })
}

fn opt_ref(v: &Option<String>) -> (r: Option<&str>)
    ensures
        opt_str(r) == opt_text(*v),
{
    match v {
        Some(s) => Some(s.as_str()),
        None => None,
    }
}

fn render_place(s: &StructuredState) -> (r: String)
    ensures
        r@ == place_section(*s),
{
    let mut out = "## Fork State\n\n".to_owned();
    let mut mode = concat("- Mode: `", s.mode_label.as_str());
    mode.append("`\n");
    out.append(mode.as_str());
    let mut place = concat("- Workspace: `", s.workspace.as_str());
    place.append("`\n");
    out.append(place.as_str());
    let ghost before = out@;
    if let Some(c) = &s.cwd {
        let mut line = concat("- Cwd: `", c.as_str());
        line.append("`\n");
        out.append(line.as_str());
    }
    proof {
        assert(before + Seq::<char>::empty() =~= before);
    }
    out
}

fn render_todos(t: &Option<TodoSnapshot>) -> (r: String)
    ensures
        r@ == todo_section(*t),
{
    match t {
        Some(todos) => {
            let mut out = "\nChecklist (".to_owned();
            push_decimal(&mut out, todos.completion_pct as u64);
            out.append("% complete)\n");
            append_items(&mut out, &todos.items);
            out
        },
        None => String::new(),
    }
}

fn render_plan(p: &Option<PlanSnapshot>) -> (r: String)
    ensures
        r@ == plan_section(*p),
{
    match p {
        Some(plan) => {
            let mut out = "\nStrategy metadata\n".to_owned();
            append_plan_field(&mut out, "Title", opt_ref(&plan.title));
            append_plan_field(&mut out, "Objective", opt_ref(&plan.objective));
            append_plan_field(&mut out, "Context", opt_ref(&plan.context_summary));
            append_plan_field(&mut out, "Explanation", opt_ref(&plan.explanation));
            append_plan_list(&mut out, "Source", &plan.sources_used);
            append_plan_list(&mut out, "Critical file", &plan.critical_files);
            append_plan_list(&mut out, "Constraint", &plan.constraints);
            append_plan_field(
                &mut out,
                "Recommended approach",
                opt_ref(&plan.recommended_approach),
            );
            append_plan_field(&mut out, "Verification plan", opt_ref(&plan.verification_plan));
            append_plan_field(&mut out, "Risks and unknowns", opt_ref(&plan.risks_and_unknowns));
            append_plan_field(&mut out, "Handoff packet", opt_ref(&plan.handoff_packet));
            append_items(&mut out, &plan.items);
            out
        },
        None => String::new(),
    }
}

impl StructuredState {
    /// The state of the work as a text for the system prompt of a sub-agent.
    pub fn to_system_block(&self) -> (r: Option<String>)
        ensures
            r matches Some(text) && text@ == state_text(*self),
    {
        let mut out = render_place(self);
        let empty = String::new();
        if self.todo_snapshot.is_some() || self.plan_snapshot.is_some() {
            out.append("\n### Work\n");
        } else {
            out.append(empty.as_str());
        }
        let todos = render_todos(&self.todo_snapshot);
        out.append(todos.as_str());
        let plan = render_plan(&self.plan_snapshot);
        out.append(plan.as_str());
        let mut agents = String::new();
        if self.subagent_snapshots.len() > 0 {
            agents = "\n### Open Sub-Agents\n".to_owned();
            append_agents(&mut agents, &self.subagent_snapshots);
        }
        out.append(agents.as_str());
        let mut set = String::new();
        if let Some(w) = &self.working_set_summary {
            set = concat("\n", w.as_str());
            set.append("\n");
        }
        out.append(set.as_str());
        Some(out)
    }
}

/// The parts of the state that are taken over: a checklist without items and an
/// empty plan are left out, and of the sub-agents only those that run are told.
pub fn capture(
    mode_label: String,
    workspace: String,
    cwd: Option<String>,
    working_set_summary: Option<String>,
    todos: TodoSnapshot,
    plan: Option<PlanSnapshot>,
    agents: Vec<(OpenSubAgent, bool)>,
) -> (r: StructuredState)
    ensures
        r.mode_label == mode_label,
        r.workspace == workspace,
        r.cwd == cwd,
        r.working_set_summary == working_set_summary,
        r.todo_snapshot == (if todos.items@.len() == 0 {
            None
        } else {
            Some(todos)
        }),
        r.plan_snapshot == plan,
        r.subagent_snapshots@ == running(agents@, agents@.len()),
{
    let ghost all = agents@;
    let mut rest = agents;
    let mut reversed: Vec<OpenSubAgent> = Vec::new();
    proof {
        assert(all.take(all.len() as int) =~= all);
        assert(running(all, all.len()) + reversed@.reverse() =~= running(all, all.len()));
    }
    while rest.len() > 0
        invariant
            rest@ == all.take(rest@.len() as int),
            rest@.len() <= all.len(),
            running(all, rest@.len()) + reversed@.reverse() == running(all, all.len()),
        decreases rest@.len(),
    {
        let ghost n = rest@.len();
        let ghost before = reversed@;
        assert(rest@[n - 1] == all[n - 1]);
        if let Some((agent, runs)) = rest.pop() {
            if runs {
                reversed.push(agent);
            }
            proof {
                if runs {
                    assert(reversed@.reverse() =~= seq![agent] + before.reverse());
                    assert(running(all, (n - 1) as nat) + (seq![agent] + before.reverse())
                        =~= running(all, n) + before.reverse());
                }
            }
        }
        assert(rest@ =~= all.take(n - 1));
    }
    let mut list: Vec<OpenSubAgent> = Vec::new();
    let ghost goal = reversed@.reverse();
    proof {
        assert(running(all, 0) + goal =~= goal);
        assert(list@ + reversed@.reverse() =~= goal);
    }
    while reversed.len() > 0
        invariant
            list@ + reversed@.reverse() == goal,
        decreases reversed@.len(),
    {
        let ghost r0 = reversed@;
        let ghost l0 = list@;
        if let Some(agent) = reversed.pop() {
            list.push(agent);
            proof {
                assert(r0.reverse() =~= seq![agent] + reversed@.reverse());
                assert(l0 + (seq![agent] + reversed@.reverse()) =~= list@ + reversed@.reverse());
            }
        }
    }
    proof {
        assert(list@ + reversed@.reverse() =~= list@);
    }
    StructuredState {
        mode_label,
        workspace,
        cwd,
        working_set_summary,
        todo_snapshot: if todos.items.len() == 0 {
            None
        } else {
            Some(todos)
        },
        plan_snapshot: plan,
        subagent_snapshots: list,
    }
}

/// The agents among the first `n` that run.
pub open spec fn running(agents: Seq<(OpenSubAgent, bool)>, n: nat) -> Seq<OpenSubAgent>
    decreases n,
{
    if n == 0 {
        Seq::empty()
    } else if agents[n - 1].1 {
        running(agents, (n - 1) as nat).push(agents[n - 1].0)
    } else {
        running(agents, (n - 1) as nat)
    }
}

} // verus!
