//! The tools a model is offered: which are loaded at once, in what order they
//! stand, how others are found, and what is said of one that is missing.

use crate::json::{
    json_text, json_views, lemma_json_views, lemma_member_views, member_views, render_json, Json,
    JsonView,
};
use crate::models::{
    tool_views, AppMode, Tool, ToolError, ToolErrorView, ToolResult, ToolResultView, ToolView,
};
use crate::names::NameSet;
use crate::order::{
    insert_by, is_permutation, lemma_insert_at, sort_by, sort_texts, texts_in_order,
};
use crate::text::{
    ascii_lower, begins_with, chars_of, comes_before, concat, consts, contains, contains_text,
    join, joined, lowercase, among, one_of, push_line, same_text, split_words, starts_with,
    text_before, texts, to_ascii_lowercase, to_lowercase, trim, trimmed, words_of,
};
use vstd::prelude::*;

verus! {

/// The name of the tool that runs several calls at once.
pub const MULTI_TOOL_PARALLEL_NAME: &'static str = "multi_tool_use.parallel";

/// The name of the tool that asks the user.
pub const REQUEST_USER_INPUT_NAME: &'static str = "request_user_input";

/// How much of the catalog a model is given at once.
#[derive(Debug, Clone, Copy, PartialEq, Eq, Structural)]
pub enum ToolSurfaceBudget {
    Compact,
    Standard,
    Full,
}

// ---------------------------------------------------------------------------
// Which tools wait
// ---------------------------------------------------------------------------

/// The names of the tool that searches the catalog.
pub open spec fn is_search_tool(name: Seq<char>) -> bool {
    name == "tool_search"@ || name == "tool_search_tool_regex"@ || name == "tool_search_tool_bm25"@
}

/// Whether a tool searches the catalog.
pub fn is_tool_search_tool(name: &str) -> (r: bool)
    ensures
        r == is_search_tool(name@),
{
    same_text(name, "tool_search") || same_text(name, "tool_search_tool_regex") || same_text(
        name,
        "tool_search_tool_bm25",
    )
}

/// The native tools that a model is given from the start.
pub open spec fn core_tools() -> Seq<Seq<char>> {
    seq![
        "agent"@,
        "apply_patch"@,
        "edit_file"@,
        "exec_interact"@,
        "exec_shell"@,
        "exec_shell_interact"@,
        "exec_shell_wait"@,
        "exec_wait"@,
        "fetch_url"@,
        "file_search"@,
        "git_diff"@,
        "git_log"@,
        "git_show"@,
        "git_status"@,
        "grep_files"@,
        "list_dir"@,
        "read_file"@,
        "run_tests"@,
        "run_verifiers"@,
        "task_create"@,
        "task_list"@,
        "task_read"@,
        "update_plan"@,
        "wait_for_dev_server"@,
        "web_search"@,
        "work_update"@,
        "write_file"@,
    ]
}

/// The native tools that a model is given from the start.
pub fn default_active_native_tool_names() -> (r: Vec<&'static str>)
    ensures
        consts(r@) == core_tools(),
{
    let r: Vec<&'static str> =
        vec![
        "agent",
        "apply_patch",
        "edit_file",
        "exec_interact",
        "exec_shell",
        "exec_shell_interact",
        "exec_shell_wait",
        "exec_wait",
        "fetch_url",
        "file_search",
        "git_diff",
        "git_log",
        "git_show",
        "git_status",
        "grep_files",
        "list_dir",
        "read_file",
        "run_tests",
        "run_verifiers",
        "task_create",
        "task_list",
        "task_read",
        "update_plan",
        "wait_for_dev_server",
        "web_search",
        "work_update",
        "write_file",
    ];
    proof {
        assert(consts(r@) =~= core_tools());
    }
    r
}

/// A native tool waits until it is asked for, unless the user wants it loaded,
/// it searches the catalog or it is one of the core tools.
pub open spec fn waits_by_default(name: Seq<char>, always_load: Set<Seq<char>>) -> bool {
    !always_load.contains(name) && !is_search_tool(name) && !core_tools().contains(name)
}

/// Whether a native tool waits until it is asked for.
pub fn should_default_defer_tool(name: &str, always_load: &NameSet) -> (r: bool)
    ensures
        r == waits_by_default(name@, always_load@),
{
    if always_load.contains(name) {
        return false;
    }
    if is_tool_search_tool(name) {
        return false;
    }
    let core = default_active_native_tool_names();
    !among(&core, name)
}

/// A tool that was told whether to wait.
pub open spec fn with_deferral(tool: ToolView, deferred: bool) -> ToolView {
    ToolView { defer_loading: Some(deferred), ..tool }
}

/// The native tools, each told whether to wait.
pub open spec fn native_deferred(tools: Seq<ToolView>, always_load: Set<Seq<char>>) -> Seq<
    ToolView,
> {
    tools.map_values(|t: ToolView| with_deferral(t, waits_by_default(t.name, always_load)))
}

/// Tells each native tool whether to wait.
pub fn apply_native_tool_deferral(catalog: &mut Vec<Tool>, always_load: &NameSet)
    ensures
        tool_views(final(catalog)@) == native_deferred(tool_views(old(catalog)@), always_load@),
{
    let ghost all = tool_views(catalog@);
    let ghost want = native_deferred(all, always_load@);
    let mut i: usize = 0;
    while i < catalog.len()
        invariant
            i <= catalog@.len(),
            catalog@.len() == all.len(),
            want == native_deferred(all, always_load@),
            forall|j: int| 0 <= j < i ==> #[trigger] catalog@[j]@ == want[j],
            forall|j: int| i <= j < all.len() ==> #[trigger] catalog@[j]@ == all[j],
        decreases catalog@.len() - i,
    {
        let mut tool = catalog[i].clone();
        tool.defer_loading = Some(should_default_defer_tool(tool.name.as_str(), always_load));
        assert(catalog@[i as int]@ == all[i as int]);
        assert(tool@ =~= want[i as int]);
        catalog.set(i, tool);
        i += 1;
    }
    proof {
        assert(tool_views(catalog@) =~= want);
    }
}

/// The tools of remote servers that never wait.
pub open spec fn stays_loaded(name: Seq<char>) -> bool {
    ||| name == "list_mcp_resources"@
    ||| name == "list_mcp_resource_templates"@
    ||| name == "mcp_read_resource"@
    ||| name == "read_mcp_resource"@
    ||| name == "mcp_get_prompt"@
}

/// Whether a tool of a remote server never waits.
pub fn should_keep_mcp_tool_loaded(name: &str) -> (r: bool)
    ensures
        r == stays_loaded(name@),
{
    same_text(name, "list_mcp_resources") || same_text(name, "list_mcp_resource_templates")
        || same_text(name, "mcp_read_resource") || same_text(name, "read_mcp_resource")
        || same_text(name, "mcp_get_prompt")
}

/// A tool of a remote server waits, unless the user wants it loaded, the
/// session has full authority or it is one of those that never wait.
pub open spec fn mcp_waits(name: Seq<char>, mode: AppMode, always_load: Set<Seq<char>>) -> bool {
    !always_load.contains(name) && mode != AppMode::Yolo && !stays_loaded(name)
}

/// The tools of remote servers, each told whether to wait.
pub open spec fn mcp_deferred(
    tools: Seq<ToolView>,
    mode: AppMode,
    always_load: Set<Seq<char>>,
) -> Seq<ToolView> {
    tools.map_values(|t: ToolView| with_deferral(t, mcp_waits(t.name, mode, always_load)))
}

/// Tells each tool of a remote server whether to wait.
pub fn apply_mcp_tool_deferral(catalog: &mut Vec<Tool>, mode: AppMode, always_load: &NameSet)
    ensures
        tool_views(final(catalog)@) == mcp_deferred(
            tool_views(old(catalog)@),
            mode,
            always_load@,
        ),
{
    let ghost all = tool_views(catalog@);
    let ghost want = mcp_deferred(all, mode, always_load@);
    let mut i: usize = 0;
    while i < catalog.len()
        invariant
            i <= catalog@.len(),
            catalog@.len() == all.len(),
            want == mcp_deferred(all, mode, always_load@),
            forall|j: int| 0 <= j < i ==> #[trigger] catalog@[j]@ == want[j],
            forall|j: int| i <= j < all.len() ==> #[trigger] catalog@[j]@ == all[j],
        decreases catalog@.len() - i,
    {
        let mut tool = catalog[i].clone();
        let waits = !always_load.contains(tool.name.as_str()) && mode != AppMode::Yolo
            && !should_keep_mcp_tool_loaded(tool.name.as_str());
        tool.defer_loading = Some(waits);
        assert(catalog@[i as int]@ == all[i as int]);
        assert(tool@ =~= want[i as int]);
        catalog.set(i, tool);
        i += 1;
    }
    proof {
        assert(tool_views(catalog@) =~= want);
    }
}

/// The tools that wait where little room is left for tools.
pub open spec fn is_bulky(name: Seq<char>) -> bool {
    ||| name == "agent"@
    ||| name == "run_tests"@
    ||| name == "run_verifiers"@
    ||| name == "task_create"@
    ||| name == "web_search"@
}

/// The tools after the room for them was taken into account.
pub open spec fn budgeted(
    tools: Seq<ToolView>,
    budget: ToolSurfaceBudget,
    always_load: Set<Seq<char>>,
) -> Seq<ToolView> {
    if budget != ToolSurfaceBudget::Compact {
        tools
    } else {
        tools.map_values(
            |t: ToolView|
                if !always_load.contains(t.name) && is_bulky(t.name) {
                    with_deferral(t, true)
                } else {
                    t
                },
        )
    }
}

/// Makes bulky tools wait where little room is left for tools.
pub fn apply_tool_surface_budget(
    catalog: &mut Vec<Tool>,
    surface_budget: ToolSurfaceBudget,
    always_load: &NameSet,
)
    ensures
        tool_views(final(catalog)@) == budgeted(
            tool_views(old(catalog)@),
            surface_budget,
            always_load@,
        ),
{
    if surface_budget != ToolSurfaceBudget::Compact {
        return ;
    }
    let ghost all = tool_views(catalog@);
    let ghost want = budgeted(all, surface_budget, always_load@);
    let mut i: usize = 0;
    while i < catalog.len()
        invariant
            i <= catalog@.len(),
            catalog@.len() == all.len(),
            surface_budget == ToolSurfaceBudget::Compact,
            want == budgeted(all, surface_budget, always_load@),
            forall|j: int| 0 <= j < i ==> #[trigger] catalog@[j]@ == want[j],
            forall|j: int| i <= j < all.len() ==> #[trigger] catalog@[j]@ == all[j],
        decreases catalog@.len() - i,
    {
        let mut tool = catalog[i].clone();
        assert(catalog@[i as int]@ == all[i as int]);
        let name = tool.name.as_str();
        if !always_load.contains(name) && (same_text(name, "agent") || same_text(name, "run_tests")
            || same_text(name, "run_verifiers") || same_text(name, "task_create") || same_text(
            name,
            "web_search",
        )) {
            tool.defer_loading = Some(true);
        }
        assert(tool@ =~= want[i as int]);
        catalog.set(i, tool);
        i += 1;
    }
    proof {
        assert(tool_views(catalog@) =~= want);
    }
}

// ---------------------------------------------------------------------------
// The catalog
// ---------------------------------------------------------------------------

/// Tools in the order of their names.
pub open spec fn tools_in_order(tools: Seq<ToolView>) -> Seq<ToolView> {
    sort_by(tools, |a: ToolView, b: ToolView| text_before(a.name, b.name))
}

fn sort_tools(tools: &Vec<Tool>) -> (r: Vec<Tool>)
    ensures
        tool_views(r@) == tools_in_order(tool_views(tools@)),
{
    let ghost before = |a: ToolView, b: ToolView| text_before(a.name, b.name);
    let ghost all = tool_views(tools@);
    let mut out: Vec<Tool> = Vec::new();
    let mut i: usize = 0;
    proof {
        assert(all.take(0) =~= Seq::empty());
        assert(tool_views(out@) =~= Seq::empty());
    }
    while i < tools.len()
        invariant
            i <= tools@.len(),
            before == (|a: ToolView, b: ToolView| text_before(a.name, b.name)),
            all == tool_views(tools@),
            tool_views(out@) == sort_by(all.take(i as int), before),
            out@.len() == i,
        decreases tools@.len() - i,
    {
        let item = tools[i].clone();
        let mut p: usize = out.len();
        let ghost sorted = tool_views(out@);
        while p > 0 && comes_before(item.name.as_str(), out[p - 1].name.as_str())
            invariant
                p <= out@.len(),
                before == (|a: ToolView, b: ToolView| text_before(a.name, b.name)),
                sorted == tool_views(out@),
                forall|q: int| p <= q < sorted.len() ==> before(item@, #[trigger] sorted[q]),
            decreases p,
        {
            assert(sorted[p - 1] == out@[p - 1]@);
            p -= 1;
        }
        proof {
            if p > 0 {
                assert(sorted[p - 1] == out@[p - 1]@);
            }
            lemma_insert_at(sorted, item@, p as int, before);
            assert(all.take(i + 1).drop_last() =~= all.take(i as int));
            assert(all.take(i + 1).last() == item@);
        }
        out.insert(p, item);
        proof {
            assert(tool_views(out@) =~= sorted.insert(p as int, item@));
        }
        i += 1;
    }
    proof {
        assert(all.take(all.len() as int) =~= all);
    }
    out
}

/// The catalog: the native tools by name, then those of remote servers by name.
pub open spec fn catalog_of(
    native: Seq<ToolView>,
    mcp: Seq<ToolView>,
    mode: AppMode,
    always_load: Set<Seq<char>>,
    budget: ToolSurfaceBudget,
) -> Seq<ToolView> {
    tools_in_order(budgeted(native_deferred(native, always_load), budget, always_load))
        + tools_in_order(budgeted(mcp_deferred(mcp, mode, always_load), budget, always_load))
}

/// Builds the catalog of tools for a model with so much room for tools.
pub fn build_model_tool_catalog_with_surface(
    native_tools: Vec<Tool>,
    mcp_tools: Vec<Tool>,
    mode: AppMode,
    always_load: &NameSet,
    surface_budget: ToolSurfaceBudget,
) -> (r: Vec<Tool>)
    ensures
        tool_views(r@) == catalog_of(
            tool_views(native_tools@),
            tool_views(mcp_tools@),
            mode,
            always_load@,
            surface_budget,
        ),
{
    let mut native = native_tools;
    let mut mcp = mcp_tools;
    apply_native_tool_deferral(&mut native, always_load);
    apply_mcp_tool_deferral(&mut mcp, mode, always_load);
    apply_tool_surface_budget(&mut native, surface_budget, always_load);
    apply_tool_surface_budget(&mut mcp, surface_budget, always_load);
    let mut out = sort_tools(&native);
    let mut rest = sort_tools(&mcp);
    let ghost a = out@;
    let ghost b = rest@;
    out.append(&mut rest);
    proof {
        assert(tool_views(out@) =~= tool_views(a) + tool_views(b));
    }
    out
}

/// Builds the catalog of tools for a model with ordinary room for tools.
pub fn build_model_tool_catalog(
    native_tools: Vec<Tool>,
    mcp_tools: Vec<Tool>,
    mode: AppMode,
    always_load: &NameSet,
) -> (r: Vec<Tool>)
    ensures
        tool_views(r@) == catalog_of(
            tool_views(native_tools@),
            tool_views(mcp_tools@),
            mode,
            always_load@,
            ToolSurfaceBudget::Standard,
        ),
{
    build_model_tool_catalog_with_surface(
        native_tools,
        mcp_tools,
        mode,
        always_load,
        ToolSurfaceBudget::Standard,
    )
}

proof fn lemma_catalog_lengths(
    native: Seq<ToolView>,
    mcp: Seq<ToolView>,
    mode: AppMode,
    always_load: Set<Seq<char>>,
    budget: ToolSurfaceBudget,
)
    ensures
        tools_in_order(budgeted(native_deferred(native, always_load), budget, always_load)).len()
            == native.len(),
        tools_in_order(budgeted(mcp_deferred(mcp, mode, always_load), budget, always_load)).len()
            == mcp.len(),
{
    let before = |a: ToolView, b: ToolView| text_before(a.name, b.name);
    crate::order::lemma_sort_contents(
        budgeted(native_deferred(native, always_load), budget, always_load),
        before,
    );
    crate::order::lemma_sort_contents(
        budgeted(mcp_deferred(mcp, mode, always_load), budget, always_load),
        before,
    );
}

/// The head of the catalog depends on the native tools alone: whatever remote
/// servers offer, and in whatever mode, the native tools stand first and as
/// they always do, so that what a provider has cached of them stays valid.
pub proof fn law_catalog_head_is_stable(
    native: Seq<ToolView>,
    mcp_a: Seq<ToolView>,
    mcp_b: Seq<ToolView>,
    mode_a: AppMode,
    mode_b: AppMode,
    always_load: Set<Seq<char>>,
    budget: ToolSurfaceBudget,
)
    ensures
        catalog_of(native, mcp_a, mode_a, always_load, budget).take(native.len() as int)
            == catalog_of(native, mcp_b, mode_b, always_load, budget).take(native.len() as int),
        catalog_of(native, mcp_a, mode_a, always_load, budget).len() == native.len()
            + mcp_a.len(),
{
    lemma_catalog_lengths(native, mcp_a, mode_a, always_load, budget);
    lemma_catalog_lengths(native, mcp_b, mode_b, always_load, budget);
    assert(catalog_of(native, mcp_a, mode_a, always_load, budget).take(native.len() as int)
        =~= catalog_of(native, mcp_b, mode_b, always_load, budget).take(native.len() as int));
}

proof fn lemma_part_from(part: Seq<ToolView>, i: int)
    requires
        0 <= i < tools_in_order(part).len(),
    ensures
        exists|k: int| 0 <= k < part.len() && #[trigger] part[k] == tools_in_order(part)[i],
{
    broadcast use vstd::seq_lib::group_to_multiset_ensures;

    let before = |a: ToolView, b: ToolView| text_before(a.name, b.name);
    let sorted = sort_by(part, before);
    crate::order::lemma_sort_contents(part, before);
    assert(sorted.contains(sorted[i]));
    assert(sorted.to_multiset().count(sorted[i]) > 0);
    assert(part.to_multiset().count(sorted[i]) > 0);
    assert(part.contains(sorted[i]));
}

/// A tool that the user wants loaded never waits, whatever room there is for
/// tools.
pub proof fn law_wanted_tools_do_not_wait(
    native: Seq<ToolView>,
    mcp: Seq<ToolView>,
    mode: AppMode,
    always_load: Set<Seq<char>>,
    budget: ToolSurfaceBudget,
)
    ensures
        forall|i: int|
            0 <= i < catalog_of(native, mcp, mode, always_load, budget).len()
                && always_load.contains(
                (#[trigger] catalog_of(native, mcp, mode, always_load, budget)[i]).name,
            ) ==> catalog_of(native, mcp, mode, always_load, budget)[i].defer_loading == Some(
                false,
            ),
{
    let all = catalog_of(native, mcp, mode, always_load, budget);
    let head = budgeted(native_deferred(native, always_load), budget, always_load);
    let tail = budgeted(mcp_deferred(mcp, mode, always_load), budget, always_load);
    let first = tools_in_order(head);
    assert forall|i: int|
        0 <= i < all.len() && always_load.contains((#[trigger] all[i]).name) implies
        all[i].defer_loading == Some(false) by {
        if i < first.len() {
            lemma_part_from(head, i);
            let k = choose|k: int| 0 <= k < head.len() && #[trigger] head[k] == first[i];
            assert(head[k].name == native[k].name);
        } else {
            lemma_part_from(tail, i - first.len());
            let k = choose|k: int|
                0 <= k < tail.len() && #[trigger] tail[k] == tools_in_order(tail)[i
                    - first.len()];
            assert(tail[k].name == mcp[k].name);
        }
    }
}

/// `part` holds the tools of `tools`, each once and changed in nothing but whether it
/// waits, in the order of their names; of two with one name the first stays first.
pub open spec fn rearranged(tools: Seq<ToolView>, part: Seq<ToolView>, p: Seq<int>) -> bool {
    &&& is_permutation(p, tools.len())
    &&& part.len() == tools.len()
    &&& forall|i: int|
        0 <= i < part.len() ==> {
            &&& (#[trigger] part[i]).defer_loading is Some
            &&& part[i] == (ToolView { defer_loading: part[i].defer_loading, ..tools[p[i]] })
        }
    &&& forall|i: int, j: int|
        0 <= i < j < part.len() ==> text_before(
            (#[trigger] part[i]).name,
            (#[trigger] part[j]).name,
        ) || (!text_before(part[j].name, part[i].name) && p[i] < p[j])
}

proof fn lemma_part_rearranged(tools: Seq<ToolView>, told: Seq<ToolView>) -> (p: Seq<int>)
    requires
        told.len() == tools.len(),
        forall|k: int|
            0 <= k < tools.len() ==> {
                &&& (#[trigger] told[k]).defer_loading is Some
                &&& told[k] == (ToolView { defer_loading: told[k].defer_loading, ..tools[k] })
            },
    ensures
        rearranged(tools, tools_in_order(told), p),
{
    let before = |a: ToolView, b: ToolView| text_before(a.name, b.name);
    let p = crate::order::places(told, before);
    let part = sort_by(told, before);
    crate::order::lemma_sort_places(told, before);
    crate::order::lemma_text_order_strict();
    let plain = |a: Seq<char>, b: Seq<char>| text_before(a, b);
    assert forall|a: ToolView, b: ToolView| #[trigger] before(a, b) implies !before(b, a) by {
        assert(plain(a.name, b.name) ==> !plain(b.name, a.name));
    }
    assert forall|a: ToolView, b: ToolView, c: ToolView|
        !(#[trigger] before(a, b)) && !(#[trigger] before(b, c)) implies !before(a, c) by {
        assert(!plain(a.name, b.name) && !plain(b.name, c.name) ==> !plain(a.name, c.name));
    }
    crate::order::lemma_sort_in_order(told, before);
    assert forall|i: int| 0 <= i < part.len() implies {
        &&& (#[trigger] part[i]).defer_loading is Some
        &&& part[i] == (ToolView { defer_loading: part[i].defer_loading, ..tools[p[i]] })
    } by {
        assert(part[i] == told[p[i]]);
        assert(0 <= p[i] < told.len());
    }
    assert forall|i: int, j: int| 0 <= i < j < part.len() implies text_before(
        (#[trigger] part[i]).name,
        (#[trigger] part[j]).name,
    ) || (!text_before(part[j].name, part[i].name) && p[i] < p[j]) by {
        assert(before(part[i], part[j]) || p[i] < p[j]);
        assert(!before(part[j], part[i]));
    }
    p
}

/// The catalog is the native tools and behind them those of remote servers, each
/// part in the order of the names: no tool is lost, added, or changed in anything
/// but whether it waits, and tools with one name keep their order.
pub proof fn law_catalog_keeps_the_tools(
    native: Seq<ToolView>,
    mcp: Seq<ToolView>,
    mode: AppMode,
    always_load: Set<Seq<char>>,
    budget: ToolSurfaceBudget,
)
    ensures
        ({
            let all = catalog_of(native, mcp, mode, always_load, budget);
            let n = native.len() as int;
            &&& all.len() == n + mcp.len()
            &&& exists|p: Seq<int>| rearranged(native, all.take(n), p)
            &&& exists|p: Seq<int>| rearranged(mcp, all.skip(n), p)
        }),
{
    let all = catalog_of(native, mcp, mode, always_load, budget);
    let n = native.len() as int;
    let head = budgeted(native_deferred(native, always_load), budget, always_load);
    let tail = budgeted(mcp_deferred(mcp, mode, always_load), budget, always_load);
    lemma_catalog_lengths(native, mcp, mode, always_load, budget);
    let p = lemma_part_rearranged(native, head);
    let q = lemma_part_rearranged(mcp, tail);
    assert(all.take(n) =~= tools_in_order(head));
    assert(all.skip(n) =~= tools_in_order(tail));
    assert(rearranged(native, all.take(n), p));
    assert(rearranged(mcp, all.skip(n), q));
}

/// Within each part of the catalog no tool stands behind one whose name comes
/// after its own.
pub proof fn law_catalog_parts_sorted(
    native: Seq<ToolView>,
    mcp: Seq<ToolView>,
    mode: AppMode,
    always_load: Set<Seq<char>>,
    budget: ToolSurfaceBudget,
)
    ensures
        forall|i: int, j: int|
            0 <= i < j < native.len() ==> !text_before(
                (#[trigger] catalog_of(native, mcp, mode, always_load, budget)[j]).name,
                (#[trigger] catalog_of(native, mcp, mode, always_load, budget)[i]).name,
            ),
        forall|i: int, j: int|
            native.len() <= i < j < native.len() + mcp.len() ==> !text_before(
                (#[trigger] catalog_of(native, mcp, mode, always_load, budget)[j]).name,
                (#[trigger] catalog_of(native, mcp, mode, always_load, budget)[i]).name,
            ),
{
    lemma_catalog_lengths(native, mcp, mode, always_load, budget);
    let before = |a: ToolView, b: ToolView| text_before(a.name, b.name);
    crate::order::lemma_text_order_strict();
    let plain = |a: Seq<char>, b: Seq<char>| text_before(a, b);
    assert forall|a: ToolView, b: ToolView| #[trigger] before(a, b) implies !before(b, a) by {
        assert(plain(a.name, b.name) ==> !plain(b.name, a.name));
    }
    assert forall|a: ToolView, b: ToolView, c: ToolView|
        !(#[trigger] before(a, b)) && !(#[trigger] before(b, c)) implies !before(a, c) by {
        assert(!plain(a.name, b.name) && !plain(b.name, c.name) ==> !plain(a.name, c.name));
    }
    let head = budgeted(native_deferred(native, always_load), budget, always_load);
    let tail = budgeted(mcp_deferred(mcp, mode, always_load), budget, always_load);
    crate::order::lemma_sort_in_order(head, before);
    crate::order::lemma_sort_in_order(tail, before);
    let all = catalog_of(native, mcp, mode, always_load, budget);
    assert forall|i: int, j: int| 0 <= i < j < native.len() implies !text_before(
        (#[trigger] all[j]).name,
        (#[trigger] all[i]).name,
    ) by {
        let s = sort_by(head, before);
        assert(all[i] == s[i] && all[j] == s[j]);
        assert(!before(s[j], s[i]));
    }
    assert forall|i: int, j: int|
        native.len() <= i < j < native.len() + mcp.len() implies !text_before(
        (#[trigger] all[j]).name,
        (#[trigger] all[i]).name,
    ) by {
        let s = sort_by(tail, before);
        assert(all[i] == s[i - native.len()] && all[j] == s[j - native.len()]);
        assert(!before(s[j - native.len()], s[i - native.len()]));
    }
}

// ---------------------------------------------------------------------------
// Tools that the engine itself brings
// ---------------------------------------------------------------------------

/// A tool of that name is in the catalog.
pub open spec fn has_tool(catalog: Seq<ToolView>, name: Seq<char>) -> bool {
    exists|i: int| 0 <= i < catalog.len() && (#[trigger] catalog[i]).name == name
}

/// Whether a tool of that name is in the catalog.
pub fn catalog_contains_tool(catalog: &Vec<Tool>, name: &str) -> (r: bool)
    ensures
        r == has_tool(tool_views(catalog@), name@),
{
    find_tool(catalog, name).is_some()
}

/// The first place from `from` on where a tool of that name stands.
pub open spec fn tool_place(catalog: Seq<ToolView>, name: Seq<char>, from: int) -> Option<int>
    decreases catalog.len() - from,
{
    if from < 0 || from >= catalog.len() {
        None
    } else if catalog[from].name == name {
        Some(from)
    } else {
        tool_place(catalog, name, from + 1)
    }
}

/// A place that was found holds the tool.
pub proof fn lemma_tool_place(catalog: Seq<ToolView>, name: Seq<char>, from: int)
    requires
        0 <= from,
    ensures
        match tool_place(catalog, name, from) {
            Some(i) => from <= i < catalog.len() && catalog[i].name == name,
            None => forall|j: int|
                from <= j < catalog.len() ==> (#[trigger] catalog[j]).name != name,
        },
    decreases catalog.len() - from,
{
    if from < catalog.len() && catalog[from].name != name {
        lemma_tool_place(catalog, name, from + 1);
    }
}

fn find_tool(catalog: &Vec<Tool>, name: &str) -> (r: Option<usize>)
    ensures
        match r {
            Some(i) => tool_place(tool_views(catalog@), name@, 0) == Some(i as int) && i
                < catalog@.len(),
            None => tool_place(tool_views(catalog@), name@, 0) is None,
        },
        r is Some == has_tool(tool_views(catalog@), name@),
{
    let ghost all = tool_views(catalog@);
    let mut i: usize = 0;
    proof {
        lemma_tool_place(all, name@, 0);
    }
    while i < catalog.len()
        invariant
            i <= catalog@.len(),
            all == tool_views(catalog@),
            tool_place(all, name@, 0) == tool_place(all, name@, i as int),
        decreases catalog@.len() - i,
    {
        assert(all[i as int] == catalog@[i as int]@);
        if same_text(catalog[i].name.as_str(), name) {
            return Some(i);
        }
        i += 1;
    }
    None
}

/// The tool that runs Python code.
pub open spec fn code_tool(always_load: Set<Seq<char>>) -> ToolView {
    ToolView {
        tool_type: Some("code_execution_20250825"@),
        name: "code_execution"@,
        description:
            "Execute Python code in a local sandboxed runtime and return stdout/stderr/return_code as JSON."@,
        input_schema: JsonView::Object(
            seq![
                (
                    "properties"@,
                    JsonView::Object(
                        seq![
                            (
                                "code"@,
                                JsonView::Object(
                                    seq![
                                        (
                                            "description"@,
                                            JsonView::Str("Python source code to execute."@),
                                        ),
                                        ("type"@, JsonView::Str("string"@)),
                                    ],
                                ),
                            ),
                        ],
                    ),
                ),
                ("required"@, JsonView::Array(seq![JsonView::Str("code"@)])),
                ("type"@, JsonView::Str("object"@)),
            ],
        ),
        allowed_callers: Some(seq!["direct"@]),
        defer_loading: Some(waits_by_default("code_execution"@, always_load)),
        input_examples: None,
        strict: None,
        cache_type: None,
    }
}

fn code_execution_tool(always_load: &NameSet) -> (r: Tool)
    ensures
        r@ == code_tool(always_load@),
{
    let code = crate::json::object2(
        "description",
        crate::json::text_value("Python source code to execute."),
        "type",
        crate::json::text_value("string"),
    );
    let schema = crate::json::object3(
        "properties",
        crate::json::object1("code", code),
        "required",
        crate::json::text_array1("code"),
        "type",
        crate::json::text_value("object"),
    );
    let callers = vec!["direct".to_owned()];
    proof {
        assert(texts(callers@) =~= seq!["direct"@]);
    }
    Tool {
        tool_type: Some("code_execution_20250825".to_owned()),
        name: "code_execution".to_owned(),
        description:
            "Execute Python code in a local sandboxed runtime and return stdout/stderr/return_code as JSON.".to_owned(),
        input_schema: schema,
        allowed_callers: Some(callers),
        defer_loading: Some(should_default_defer_tool("code_execution", always_load)),
        input_examples: None,
        strict: None,
        cache_control: None,
    }
}

/// The parameters of the tool that searches the catalog.
pub open spec fn search_schema() -> JsonView {
    JsonView::Object(
        seq![
            (
                "properties"@,
                JsonView::Object(
                    seq![
                        (
                            "match"@,
                            JsonView::Object(
                                Seq::empty().push(("default"@, JsonView::Str("bm25"@))).push(
                                    (
                                        "description"@,
                                        JsonView::Str(
                                            "Matching algorithm: bm25 for natural-language matching, regex for a regular expression over tool names/descriptions/schema."@,
                                        ),
                                    ),
                                ).push(
                                    (
                                        "enum"@,
                                        JsonView::Array(
                                            seq![JsonView::Str("bm25"@), JsonView::Str("regex"@)],
                                        ),
                                    ),
                                ).push(("type"@, JsonView::Str("string"@))),
                            ),
                        ),
                        (
                            "max_results"@,
                            JsonView::Object(
                                Seq::empty().push(("default"@, JsonView::PosInt(20))).push(
                                    (
                                        "description"@,
                                        JsonView::Str(
                                            "Maximum number of matching tool references to return."@,
                                        ),
                                    ),
                                ).push(("maximum"@, JsonView::PosInt(100))).push(
                                    ("minimum"@, JsonView::PosInt(1)),
                                ).push(("type"@, JsonView::Str("integer"@))),
                            ),
                        ),
                        (
                            "query"@,
                            JsonView::Object(
                                seq![
                                    (
                                        "description"@,
                                        JsonView::Str("Search query for tool discovery."@),
                                    ),
                                    ("type"@, JsonView::Str("string"@)),
                                ],
                            ),
                        ),
                    ],
                ),
            ),
            ("required"@, JsonView::Array(seq![JsonView::Str("query"@)])),
            ("type"@, JsonView::Str("object"@)),
        ],
    )
}

/// The tool that searches the catalog.
pub open spec fn search_tool() -> ToolView {
    ToolView {
        tool_type: Some("tool_search_20251119"@),
        name: "tool_search"@,
        description: "Search deferred tool definitions and return matching tool references."@,
        input_schema: search_schema(),
        allowed_callers: Some(seq!["direct"@]),
        defer_loading: Some(false),
        input_examples: None,
        strict: None,
        cache_type: None,
    }
}

fn tool_search_tool() -> (r: Tool)
    ensures
        r@ == search_tool(),
{
    let m0: Vec<(String, Json)> = Vec::new();
    let m1 = crate::json::with_pair(m0, "default", crate::json::text_value("bm25"));
    let m2 = crate::json::with_pair(
        m1,
        "description",
        crate::json::text_value(
            "Matching algorithm: bm25 for natural-language matching, regex for a regular expression over tool names/descriptions/schema.",
        ),
    );
    let m3 = crate::json::with_pair(m2, "enum", crate::json::text_array2("bm25", "regex"));
    let m4 = crate::json::with_pair(m3, "type", crate::json::text_value("string"));
    let x0: Vec<(String, Json)> = Vec::new();
    let x1 = crate::json::with_pair(x0, "default", Json::PosInt(20));
    let x2 = crate::json::with_pair(
        x1,
        "description",
        crate::json::text_value("Maximum number of matching tool references to return."),
    );
    let x3 = crate::json::with_pair(x2, "maximum", Json::PosInt(100));
    let x4 = crate::json::with_pair(x3, "minimum", Json::PosInt(1));
    let x5 = crate::json::with_pair(x4, "type", crate::json::text_value("integer"));
    let query = crate::json::object2(
        "description",
        crate::json::text_value("Search query for tool discovery."),
        "type",
        crate::json::text_value("string"),
    );
    let properties = crate::json::object3(
        "match",
        Json::Object(m4),
        "max_results",
        Json::Object(x5),
        "query",
        query,
    );
    let schema = crate::json::object3(
        "properties",
        properties,
        "required",
        crate::json::text_array1("query"),
        "type",
        crate::json::text_value("object"),
    );
    let callers = vec!["direct".to_owned()];
    proof {
        assert(texts(callers@) =~= seq!["direct"@]);
    }
    Tool {
        tool_type: Some("tool_search_20251119".to_owned()),
        name: "tool_search".to_owned(),
        description: "Search deferred tool definitions and return matching tool references.".to_owned(),
        input_schema: schema,
        allowed_callers: Some(callers),
        defer_loading: Some(false),
        input_examples: None,
        strict: None,
        cache_control: None,
    }
}

/// The catalog with the Python tool, where Python is there and the mode lets
/// code run.
pub open spec fn with_code_tool(
    catalog: Seq<ToolView>,
    mode: AppMode,
    always_load: Set<Seq<char>>,
    python: bool,
) -> Seq<ToolView> {
    if mode != AppMode::Plan && !has_tool(catalog, "code_execution"@) && python {
        catalog.push(code_tool(always_load))
    } else {
        catalog
    }
}

/// The JavaScript tool: its definition under its own name, told whether to wait.
pub open spec fn script_tool(definition: ToolView, always_load: Set<Seq<char>>) -> ToolView {
    ToolView {
        name: "js_execution"@,
        defer_loading: Some(waits_by_default("js_execution"@, always_load)),
        ..definition
    }
}

/// The catalog with the JavaScript tool, where its runtime is there and the
/// mode lets code run.
pub open spec fn with_js_tool(
    catalog: Seq<ToolView>,
    mode: AppMode,
    always_load: Set<Seq<char>>,
    js_tool: Option<ToolView>,
) -> Seq<ToolView> {
    match js_tool {
        Some(tool) => if mode != AppMode::Plan && !has_tool(catalog, "js_execution"@) {
            catalog.push(script_tool(tool, always_load))
        } else {
            catalog
        },
        None => catalog,
    }
}

/// The catalog with the tools that the engine itself brings.
pub open spec fn with_engine_tools(
    catalog: Seq<ToolView>,
    mode: AppMode,
    always_load: Set<Seq<char>>,
    python: bool,
    js_tool: Option<ToolView>,
) -> Seq<ToolView> {
    let both = with_js_tool(
        with_code_tool(catalog, mode, always_load, python),
        mode,
        always_load,
        js_tool,
    );
    if has_tool(both, "tool_search"@) {
        both
    } else {
        both.push(search_tool())
    }
}

fn push_tool(catalog: &mut Vec<Tool>, tool: Tool)
    ensures
        tool_views(final(catalog)@) == tool_views(old(catalog)@).push(tool@),
{
    catalog.push(tool);
    proof {
        assert(tool_views(catalog@) =~= tool_views(old(catalog)@).push(tool@));
    }
}

/// Adds the tools that the engine itself brings. `python_available` tells
/// whether Python can be run; `js_tool` is the definition of the JavaScript
/// tool but for its name, where its runtime is there.
pub fn ensure_advanced_tooling(
    catalog: &mut Vec<Tool>,
    mode: AppMode,
    always_load: &NameSet,
    python_available: bool,
    js_tool: Option<Tool>,
)
    ensures
        tool_views(final(catalog)@) == with_engine_tools(
            tool_views(old(catalog)@),
            mode,
            always_load@,
            python_available,
            match js_tool {
                Some(t) => Some(t@),
                None => None,
            },
        ),
{
    if mode != AppMode::Plan && !catalog_contains_tool(catalog, "code_execution")
        && python_available {
        let tool = code_execution_tool(always_load);
        push_tool(catalog, tool);
    }
    if let Some(t) = js_tool {
        if mode != AppMode::Plan && !catalog_contains_tool(catalog, "js_execution") {
            let mut tool = t;
            tool.name = "js_execution".to_owned();
            tool.defer_loading = Some(should_default_defer_tool("js_execution", always_load));
            assert(tool@ =~= script_tool(t@, always_load@));
            push_tool(catalog, tool);
        }
    }
    if !catalog_contains_tool(catalog, "tool_search") {
        let tool = tool_search_tool();
        push_tool(catalog, tool);
    }
}

proof fn lemma_has_pushed(catalog: Seq<ToolView>, tool: ToolView, name: Seq<char>)
    ensures
        has_tool(catalog.push(tool), name) == (has_tool(catalog, name) || tool.name == name),
{
    let more = catalog.push(tool);
    if has_tool(catalog, name) {
        let i = choose|i: int| 0 <= i < catalog.len() && (#[trigger] catalog[i]).name == name;
        assert(more[i].name == name);
    }
    if tool.name == name {
        assert(more[catalog.len() as int].name == name);
    }
    if has_tool(more, name) {
        let i = choose|i: int| 0 <= i < more.len() && (#[trigger] more[i]).name == name;
        if i < catalog.len() {
            assert(catalog[i].name == name);
        }
    }
}

/// A tool, where a condition holds.
pub open spec fn tool_if(condition: bool, tool: ToolView) -> Seq<ToolView> {
    if condition {
        seq![tool]
    } else {
        Seq::empty()
    }
}

/// The engine's own tools are added behind those that were there, each where it
/// can be used and was not there yet: the one that runs Python, the one that runs
/// JavaScript, and the one that searches, which never waits. Adding them once more
/// changes nothing.
pub proof fn law_engine_tools_are_added_once(
    catalog: Seq<ToolView>,
    mode: AppMode,
    always_load: Set<Seq<char>>,
    python: bool,
    js_tool: Option<ToolView>,
)
    ensures
        ({
            let all = with_engine_tools(catalog, mode, always_load, python, js_tool);
            let acts = mode != AppMode::Plan;
            let code = acts && python && !has_tool(catalog, "code_execution"@);
            let script = acts && js_tool is Some && !has_tool(catalog, "js_execution"@);
            &&& all == catalog + tool_if(code, code_tool(always_load)) + tool_if(
                script,
                script_tool(js_tool->Some_0, always_load),
            ) + tool_if(!has_tool(catalog, "tool_search"@), search_tool())
            &&& search_tool().defer_loading == Some(false)
            &&& with_engine_tools(all, mode, always_load, python, js_tool) == all
        }),
{
    reveal_strlit("code_execution");
    reveal_strlit("js_execution");
    reveal_strlit("tool_search");
    assert("code_execution"@.len() == 14);
    assert("js_execution"@.len() == 12);
    assert("tool_search"@.len() == 11);
    let first = with_code_tool(catalog, mode, always_load, python);
    let both = with_js_tool(first, mode, always_load, js_tool);
    let all = with_engine_tools(catalog, mode, always_load, python, js_tool);
    lemma_has_pushed(catalog, code_tool(always_load), "code_execution"@);
    lemma_has_pushed(catalog, code_tool(always_load), "js_execution"@);
    lemma_has_pushed(catalog, code_tool(always_load), "tool_search"@);
    if let Some(definition) = js_tool {
        lemma_has_pushed(first, script_tool(definition, always_load), "code_execution"@);
        lemma_has_pushed(first, script_tool(definition, always_load), "js_execution"@);
        lemma_has_pushed(first, script_tool(definition, always_load), "tool_search"@);
    }
    lemma_has_pushed(both, search_tool(), "code_execution"@);
    lemma_has_pushed(both, search_tool(), "js_execution"@);
    lemma_has_pushed(both, search_tool(), "tool_search"@);
    let code = mode != AppMode::Plan && python && !has_tool(catalog, "code_execution"@);
    let script = mode != AppMode::Plan && js_tool is Some && !has_tool(
        catalog,
        "js_execution"@,
    );
    assert(first =~= catalog + tool_if(code, code_tool(always_load)));
    assert(both =~= first + tool_if(script, script_tool(js_tool->Some_0, always_load)));
    assert(all =~= both + tool_if(!has_tool(catalog, "tool_search"@), search_tool()));
}

/// Whatever the mode, a model can search the catalog; and in plan mode no tool
/// that runs code is added.
pub proof fn law_engine_tools(
    catalog: Seq<ToolView>,
    mode: AppMode,
    always_load: Set<Seq<char>>,
    python: bool,
    js_tool: Option<ToolView>,
)
    ensures
        has_tool(with_engine_tools(catalog, mode, always_load, python, js_tool), "tool_search"@),
        mode == AppMode::Plan && !has_tool(catalog, "code_execution"@) ==> !has_tool(
            with_engine_tools(catalog, mode, always_load, python, js_tool),
            "code_execution"@,
        ),
{
    reveal_strlit("code_execution");
    reveal_strlit("tool_search");
    let all = with_engine_tools(catalog, mode, always_load, python, js_tool);
    let both = with_js_tool(
        with_code_tool(catalog, mode, always_load, python),
        mode,
        always_load,
        js_tool,
    );
    if !has_tool(both, "tool_search"@) {
        assert(all[all.len() - 1].name == "tool_search"@);
    }
    if mode == AppMode::Plan && !has_tool(catalog, "code_execution"@) {
        assert(both == catalog);
        if has_tool(all, "code_execution"@) {
            let i = choose|i: int| 0 <= i < all.len() && (#[trigger] all[i]).name
                == "code_execution"@;
            if i < catalog.len() {
                assert(catalog[i].name == "code_execution"@);
            } else {
                assert("tool_search"@.len() == 11 && "code_execution"@.len() == 14);
            }
        }
    }
}

// ---------------------------------------------------------------------------
// The tools a request shows
// ---------------------------------------------------------------------------

/// A tool that waits until it is asked for.
pub open spec fn waiting(tool: ToolView) -> bool {
    tool.defer_loading == Some(true)
}

/// The names of a list of tools.
pub open spec fn tool_names(tools: Seq<ToolView>) -> Seq<Seq<char>> {
    tools.map_values(|t: ToolView| t.name)
}

/// The tools that are active from the start: those that do not wait, and the
/// one that searches; or the first one, where there is no such tool.
pub open spec fn first_active(catalog: Seq<ToolView>) -> Set<Seq<char>> {
    let ready = catalog.filter(|t: ToolView| !waiting(t) || is_search_tool(t.name));
    if ready.len() == 0 && catalog.len() > 0 {
        Set::empty().insert(catalog[0].name)
    } else {
        tool_names(ready).to_set()
    }
}

/// A model that is offered tools can use one of them from the start.
pub proof fn law_some_tool_is_active(catalog: Seq<ToolView>)
    requires
        catalog.len() > 0,
    ensures
        exists|i: int|
            0 <= i < catalog.len() && first_active(catalog).contains(
                (#[trigger] catalog[i]).name,
            ),
{
    let ready = |t: ToolView| !waiting(t) || is_search_tool(t.name);
    let found = catalog.filter(ready);
    if found.len() == 0 {
        assert(first_active(catalog).contains(catalog[0].name));
    } else {
        catalog.lemma_filter_contains_rev(ready, found[0]);
        let i = choose|i: int| 0 <= i < catalog.len() && catalog[i] == found[0];
        assert(tool_names(found)[0] == catalog[i].name);
        assert(tool_names(found).contains(catalog[i].name));
        assert(first_active(catalog).contains(catalog[i].name));
    }
}

/// The tools that are active from the start.
pub fn initial_active_tools(catalog: &Vec<Tool>) -> (r: NameSet)
    ensures
        r@ == first_active(tool_views(catalog@)),
{
    let ghost all = tool_views(catalog@);
    let ghost keep = |t: ToolView| !waiting(t) || is_search_tool(t.name);
    let mut active = NameSet::new();
    let mut any: bool = false;
    let mut i: usize = 0;
    proof {
        reveal(Seq::filter);
        assert(all.take(0) =~= Seq::empty());
        assert(tool_names(all.take(0).filter(keep)).to_set() =~= Set::empty());
    }
    while i < catalog.len()
        invariant
            i <= catalog@.len(),
            all == tool_views(catalog@),
            keep == (|t: ToolView| !waiting(t) || is_search_tool(t.name)),
            active@ == tool_names(all.take(i as int).filter(keep)).to_set(),
            any == (all.take(i as int).filter(keep).len() > 0),
        decreases catalog@.len() - i,
    {
        let ghost before = all.take(i as int).filter(keep);
        proof {
            reveal(Seq::filter);
            assert(all.take(i + 1).drop_last() =~= all.take(i as int));
            assert(all.take(i + 1).last() == catalog@[i as int]@);
        }
        let waits = match catalog[i].defer_loading {
            Some(b) => b,
            None => false,
        };
        if !waits || is_tool_search_tool(catalog[i].name.as_str()) {
            active.insert(catalog[i].name.as_str());
            any = true;
            proof {
                let t = catalog@[i as int]@;
                assert(tool_names(before.push(t)) =~= tool_names(before).push(t.name));
                crate::names::lemma_set_of_push(tool_names(before), t.name);
            }
        }
        i += 1;
    }
    proof {
        assert(all.take(all.len() as int) =~= all);
    }
    if !any && catalog.len() > 0 {
        proof {
            assert(tool_names(all.filter(keep)).to_set() =~= Set::empty());
        }
        active.insert(catalog[0].name.as_str());
    }
    active
}

/// The tools a request shows: those that are active, the ones that never waited
/// in front of the ones that did, each part in the order of the catalog.
pub open spec fn shown_tools(catalog: Seq<ToolView>, active: Set<Seq<char>>) -> Seq<ToolView> {
    catalog.filter(|t: ToolView| active.contains(t.name) && !waiting(t)) + catalog.filter(
        |t: ToolView| active.contains(t.name) && waiting(t),
    )
}

/// The tools a request shows.
pub fn active_tool_list_from_catalog(catalog: &Vec<Tool>, active: &NameSet) -> (r: Vec<Tool>)
    ensures
        tool_views(r@) == shown_tools(tool_views(catalog@), active@),
{
    let ghost all = tool_views(catalog@);
    let ghost set = active@;
    let ghost ready = |t: ToolView| set.contains(t.name) && !waiting(t);
    let ghost late = |t: ToolView| set.contains(t.name) && waiting(t);
    let mut head: Vec<Tool> = Vec::new();
    let mut tail: Vec<Tool> = Vec::new();
    let mut i: usize = 0;
    proof {
        reveal(Seq::filter);
        assert(all.take(0) =~= Seq::empty());
        assert(tool_views(head@) =~= all.take(0).filter(ready));
        assert(tool_views(tail@) =~= all.take(0).filter(late));
    }
    while i < catalog.len()
        invariant
            i <= catalog@.len(),
            all == tool_views(catalog@),
            set == active@,
            ready == (|t: ToolView| set.contains(t.name) && !waiting(t)),
            late == (|t: ToolView| set.contains(t.name) && waiting(t)),
            tool_views(head@) == all.take(i as int).filter(ready),
            tool_views(tail@) == all.take(i as int).filter(late),
        decreases catalog@.len() - i,
    {
        proof {
            reveal(Seq::filter);
            assert(all.take(i + 1).drop_last() =~= all.take(i as int));
            assert(all.take(i + 1).last() == catalog@[i as int]@);
        }
        if active.contains(catalog[i].name.as_str()) {
            let waits = match catalog[i].defer_loading {
                Some(b) => b,
                None => false,
            };
            let copy = catalog[i].clone();
            if waits {
                push_tool(&mut tail, copy);
            } else {
                push_tool(&mut head, copy);
            }
        }
        i += 1;
    }
    proof {
        assert(all.take(all.len() as int) =~= all);
        assert(all.filter(ready) =~= all.filter(
            |t: ToolView| active@.contains(t.name) && !waiting(t),
        ));
        assert(all.filter(late) =~= all.filter(
            |t: ToolView| active@.contains(t.name) && waiting(t),
        ));
    }
    let ghost a = head@;
    let ghost b = tail@;
    head.append(&mut tail);
    proof {
        assert(tool_views(head@) =~= tool_views(a) + tool_views(b));
    }
    head
}

/// The tools of one step: where the plan must be written first and there is a
/// tool for that, it alone.
pub open spec fn step_tools(
    catalog: Seq<ToolView>,
    active: Set<Seq<char>>,
    force_update_plan: bool,
) -> Seq<ToolView> {
    let forced = catalog.filter(|t: ToolView| t.name == "update_plan"@);
    if force_update_plan && forced.len() > 0 {
        forced
    } else {
        shown_tools(catalog, active)
    }
}

/// The tools of one step.
pub fn active_tools_for_step(catalog: &Vec<Tool>, active: &NameSet, force_update_plan: bool) -> (r:
    Vec<Tool>)
    ensures
        tool_views(r@) == step_tools(tool_views(catalog@), active@, force_update_plan),
{
    if force_update_plan {
        let ghost all = tool_views(catalog@);
        let ghost keep = |t: ToolView| t.name == "update_plan"@;
        let mut forced: Vec<Tool> = Vec::new();
        let mut i: usize = 0;
        proof {
            reveal(Seq::filter);
            assert(all.take(0) =~= Seq::empty());
            assert(tool_views(forced@) =~= all.take(0).filter(keep));
        }
        while i < catalog.len()
            invariant
                i <= catalog@.len(),
                all == tool_views(catalog@),
                keep == (|t: ToolView| t.name == "update_plan"@),
                tool_views(forced@) == all.take(i as int).filter(keep),
            decreases catalog@.len() - i,
        {
            proof {
                reveal(Seq::filter);
                assert(all.take(i + 1).drop_last() =~= all.take(i as int));
                assert(all.take(i + 1).last() == catalog@[i as int]@);
            }
            if same_text(catalog[i].name.as_str(), "update_plan") {
                let copy = catalog[i].clone();
                push_tool(&mut forced, copy);
            }
            i += 1;
        }
        proof {
            assert(all.take(all.len() as int) =~= all);
        }
        if forced.len() > 0 {
            return forced;
        }
    }
    active_tool_list_from_catalog(catalog, active)
}

proof fn lemma_same_filter(
    catalog: Seq<ToolView>,
    p: spec_fn(ToolView) -> bool,
    q: spec_fn(ToolView) -> bool,
)
    requires
        forall|i: int| 0 <= i < catalog.len() ==> p(#[trigger] catalog[i]) == q(catalog[i]),
    ensures
        catalog.filter(p) == catalog.filter(q),
    decreases catalog.len(),
{
    reveal(Seq::filter);
    if catalog.len() > 0 {
        assert forall|i: int| 0 <= i < catalog.drop_last().len() implies p(
            #[trigger] catalog.drop_last()[i],
        ) == q(catalog.drop_last()[i]) by {
            assert(catalog.drop_last()[i] == catalog[i]);
        }
        lemma_same_filter(catalog.drop_last(), p, q);
        assert(p(catalog[catalog.len() - 1]) == q(catalog[catalog.len() - 1]));
    }
}

/// Asking for a tool that waited changes only the tail of what a request shows:
/// the tools that never waited stand in front as before.
pub proof fn law_activation_keeps_head(
    catalog: Seq<ToolView>,
    active: Set<Seq<char>>,
    added: Set<Seq<char>>,
)
    requires
        forall|i: int|
            0 <= i < catalog.len() && added.contains((#[trigger] catalog[i]).name) ==> waiting(
                catalog[i],
            ),
    ensures
        ({
            let head = catalog.filter(|t: ToolView| active.contains(t.name) && !waiting(t));
            &&& shown_tools(catalog, active).take(head.len() as int) == head
            &&& shown_tools(catalog, active.union(added)).take(head.len() as int) == head
        }),
{
    let p = |t: ToolView| active.contains(t.name) && !waiting(t);
    let q = |t: ToolView| active.union(added).contains(t.name) && !waiting(t);
    lemma_same_filter(catalog, p, q);
    let head = catalog.filter(p);
    assert(shown_tools(catalog, active).take(head.len() as int) =~= head);
    assert(shown_tools(catalog, active.union(added)).take(head.len() as int) =~= head);
}

// ---------------------------------------------------------------------------
// Likeness of names
// ---------------------------------------------------------------------------

/// The lesser of two numbers.
pub open spec fn lesser(a: int, b: int) -> int {
    if a < b {
        a
    } else {
        b
    }
}

/// The Levenshtein distance: how many characters must be added, dropped or
/// replaced to turn one text into the other.
pub open spec fn distance(a: Seq<char>, b: Seq<char>) -> int
    decreases a.len() + b.len(),
{
    if a.len() == 0 {
        b.len() as int
    } else if b.len() == 0 {
        a.len() as int
    } else {
        let cost: int = if a.last() == b.last() {
            0
        } else {
            1
        };
        lesser(
            lesser(distance(a.drop_last(), b) + 1, distance(a, b.drop_last()) + 1),
            distance(a.drop_last(), b.drop_last()) + cost,
        )
    }
}

/// The distance is at least the difference of the lengths, and at most the greater
/// of them.
pub proof fn law_distance_bounds(a: Seq<char>, b: Seq<char>)
    ensures
        distance(a, b) >= a.len() - b.len(),
        distance(a, b) >= b.len() - a.len(),
        distance(a, b) <= (if a.len() > b.len() {
            a.len()
        } else {
            b.len()
        }),
    decreases a.len() + b.len(),
{
    if a.len() > 0 && b.len() > 0 {
        law_distance_bounds(a.drop_last(), b);
        law_distance_bounds(a, b.drop_last());
        law_distance_bounds(a.drop_last(), b.drop_last());
    }
}

/// Two texts are at distance zero exactly when they are the same.
pub proof fn law_distance_zero(a: Seq<char>, b: Seq<char>)
    ensures
        distance(a, b) == 0 <==> a == b,
    decreases a.len() + b.len(),
{
    if a.len() == 0 || b.len() == 0 {
        if a.len() == b.len() {
            assert(a =~= b);
        }
    } else {
        law_distance_bounds(a.drop_last(), b);
        law_distance_bounds(a, b.drop_last());
        law_distance_bounds(a.drop_last(), b.drop_last());
        law_distance_zero(a.drop_last(), b.drop_last());
        if distance(a, b) == 0 {
            assert(a =~= a.drop_last().push(a.last()));
            assert(b =~= b.drop_last().push(b.last()));
        }
        if a == b {
            assert(distance(a.drop_last(), b.drop_last()) == 0);
        }
    }
}

/// The distance is the same both ways.
pub proof fn law_distance_symmetric(a: Seq<char>, b: Seq<char>)
    ensures
        distance(a, b) == distance(b, a),
    decreases a.len() + b.len(),
{
    if a.len() > 0 && b.len() > 0 {
        law_distance_symmetric(a.drop_last(), b);
        law_distance_symmetric(a, b.drop_last());
        law_distance_symmetric(a.drop_last(), b.drop_last());
    }
}

/// The distance over a third text is no shorter.
pub proof fn law_distance_triangle(a: Seq<char>, b: Seq<char>, c: Seq<char>)
    ensures
        distance(a, c) <= distance(a, b) + distance(b, c),
    decreases a.len() + b.len() + c.len(),
{
    law_distance_bounds(a, b);
    law_distance_bounds(b, c);
    law_distance_bounds(a, c);
    if a.len() > 0 && b.len() > 0 && c.len() > 0 {
        let (p, q, r) = (a.drop_last(), b.drop_last(), c.drop_last());
        law_distance_triangle(p, b, c);
        law_distance_triangle(a, b, r);
        law_distance_triangle(a, q, c);
        law_distance_triangle(a, q, r);
        law_distance_triangle(p, q, c);
        law_distance_triangle(p, q, r);
    }
}

/// One text comes from another by one character that is added, dropped or
/// replaced.
pub open spec fn one_edit(a: Seq<char>, b: Seq<char>) -> bool {
    ||| exists|i: int, c: char| 0 <= i <= a.len() && b == #[trigger] a.insert(i, c)
    ||| exists|i: int| 0 <= i < a.len() && b == #[trigger] a.remove(i)
    ||| exists|i: int, c: char| 0 <= i < a.len() && b == #[trigger] a.update(i, c)
}

/// Texts of which the first is `a`, the last is `b`, and each comes from the one
/// before it by one edit.
pub open spec fn edits(steps: Seq<Seq<char>>, a: Seq<char>, b: Seq<char>) -> bool {
    &&& steps.len() > 0
    &&& steps[0] == a
    &&& steps.last() == b
    &&& forall|i: int, j: int|
        0 <= i && j == i + 1 && j < steps.len() ==> one_edit(
            #[trigger] steps[i],
            #[trigger] steps[j],
        )
}

/// Characters that two texts end with do not add to their distance.
proof fn lemma_distance_suffix(a: Seq<char>, b: Seq<char>, end: Seq<char>)
    ensures
        distance(a + end, b + end) <= distance(a, b),
    decreases end.len(),
{
    if end.len() == 0 {
        assert(a + end =~= a);
        assert(b + end =~= b);
    } else {
        lemma_distance_suffix(a, b, end.drop_last());
        assert((a + end).drop_last() =~= a + end.drop_last());
        assert((b + end).drop_last() =~= b + end.drop_last());
    }
}

/// A text and the text with one more character are at most one apart.
proof fn lemma_distance_of_insert(a: Seq<char>, i: int, c: char)
    requires
        0 <= i <= a.len(),
    ensures
        distance(a, a.insert(i, c)) <= 1,
{
    let head = a.take(i);
    let tail = a.skip(i);
    assert(a =~= head + tail);
    assert(a.insert(i, c) =~= head.push(c) + tail);
    assert(head.push(c).drop_last() =~= head);
    law_distance_zero(head, head);
    lemma_distance_suffix(head, head.push(c), tail);
}

/// One edit is a distance of at most one.
proof fn lemma_distance_of_edit(a: Seq<char>, b: Seq<char>)
    requires
        one_edit(a, b),
    ensures
        distance(a, b) <= 1,
{
    if exists|i: int, c: char| 0 <= i <= a.len() && b == #[trigger] a.insert(i, c) {
        let (i, c) = choose|i: int, c: char| 0 <= i <= a.len() && b == #[trigger] a.insert(i, c);
        lemma_distance_of_insert(a, i, c);
    } else if exists|i: int| 0 <= i < a.len() && b == #[trigger] a.remove(i) {
        let i = choose|i: int| 0 <= i < a.len() && b == #[trigger] a.remove(i);
        assert(a =~= b.insert(i, a[i]));
        lemma_distance_of_insert(b, i, a[i]);
        law_distance_symmetric(a, b);
    } else {
        let (i, c) = choose|i: int, c: char| 0 <= i < a.len() && b == #[trigger] a.update(i, c);
        let head = a.take(i);
        let tail = a.skip(i + 1);
        assert(a =~= head.push(a[i]) + tail);
        assert(b =~= head.push(c) + tail);
        assert(head.push(a[i]).drop_last() =~= head);
        assert(head.push(c).drop_last() =~= head);
        law_distance_zero(head, head);
        lemma_distance_suffix(head.push(a[i]), head.push(c), tail);
    }
}

/// An edit stays one edit before a character that both texts end with.
proof fn lemma_edit_before(a: Seq<char>, b: Seq<char>, x: char)
    requires
        one_edit(a, b),
    ensures
        one_edit(a.push(x), b.push(x)),
{
    let (p, q) = (a.push(x), b.push(x));
    if exists|i: int, c: char| 0 <= i <= a.len() && b == #[trigger] a.insert(i, c) {
        let (i, c) = choose|i: int, c: char| 0 <= i <= a.len() && b == #[trigger] a.insert(i, c);
        assert(q =~= p.insert(i, c));
    } else if exists|i: int| 0 <= i < a.len() && b == #[trigger] a.remove(i) {
        let i = choose|i: int| 0 <= i < a.len() && b == #[trigger] a.remove(i);
        assert(q =~= p.remove(i));
    } else {
        let (i, c) = choose|i: int, c: char| 0 <= i < a.len() && b == #[trigger] a.update(i, c);
        assert(q =~= p.update(i, c));
    }
}

/// Edits, with one more at their end.
proof fn lemma_edits_push(steps: Seq<Seq<char>>, a: Seq<char>, b: Seq<char>, c: Seq<char>)
    requires
        edits(steps, a, b),
        one_edit(b, c),
    ensures
        edits(steps.push(c), a, c),
{
    let more = steps.push(c);
    assert forall|i: int, j: int| 0 <= i && j == i + 1 && j < more.len() implies one_edit(
        #[trigger] more[i],
        #[trigger] more[j],
    ) by {
        if j < steps.len() {
            assert(one_edit(steps[i], steps[j]));
        }
    }
}

/// As many edits as the distance turn one text into the other.
proof fn lemma_edits_that_turn(a: Seq<char>, b: Seq<char>) -> (steps: Seq<Seq<char>>)
    ensures
        edits(steps, a, b),
        steps.len() == distance(a, b) + 1,
    decreases a.len() + b.len(),
{
    let (p, q) = (a.drop_last(), b.drop_last());
    if a.len() == 0 && b.len() == 0 {
        assert(a =~= b);
        seq![a]
    } else if b.len() > 0 && distance(a, b) == distance(a, q) + 1 {
        let before = lemma_edits_that_turn(a, q);
        assert(b =~= q.insert(q.len() as int, b.last()));
        lemma_edits_push(before, a, q, b);
        before.push(b)
    } else if a.len() > 0 && distance(a, b) == distance(p, b) + 1 {
        let after = lemma_edits_that_turn(p, b);
        let steps = seq![a] + after;
        assert(p =~= a.remove(a.len() - 1));
        assert(steps.last() == after.last());
        assert forall|i: int, j: int| 0 <= i && j == i + 1 && j < steps.len() implies one_edit(
            #[trigger] steps[i],
            #[trigger] steps[j],
        ) by {
            if i > 0 {
                assert(one_edit(after[i - 1], after[j - 1]));
            }
        }
        steps
    } else {
        let x = a.last();
        let before = lemma_edits_that_turn(p, q);
        let steps = before.map_values(|t: Seq<char>| t.push(x));
        assert forall|i: int, j: int| 0 <= i && j == i + 1 && j < steps.len() implies one_edit(
            #[trigger] steps[i],
            #[trigger] steps[j],
        ) by {
            lemma_edit_before(before[i], before[j], x);
        }
        assert(p.push(x) =~= a);
        assert(steps.last() == q.push(x));
        if x == b.last() {
            assert(q.push(x) =~= b);
            steps
        } else {
            assert(b =~= q.push(x).update(q.len() as int, b.last()));
            lemma_edits_push(steps, a, q.push(x), b);
            steps.push(b)
        }
    }
}

/// Edits lead no farther than there are of them.
proof fn lemma_edits_take(steps: Seq<Seq<char>>, a: Seq<char>, b: Seq<char>)
    requires
        edits(steps, a, b),
    ensures
        distance(a, b) + 1 <= steps.len(),
    decreases steps.len(),
{
    if steps.len() == 1 {
        law_distance_zero(a, b);
    } else {
        let before = steps.drop_last();
        let mid = before.last();
        assert forall|i: int, j: int| 0 <= i && j == i + 1 && j < before.len() implies one_edit(
            #[trigger] before[i],
            #[trigger] before[j],
        ) by {
            assert(one_edit(steps[i], steps[j]));
        }
        lemma_edits_take(before, a, mid);
        assert(one_edit(steps[steps.len() - 2], steps[steps.len() - 1]));
        lemma_distance_of_edit(mid, b);
        law_distance_triangle(a, mid, b);
    }
}

/// The distance is the least number of edits that turn one text into the other:
/// so many do, and no fewer.
pub proof fn law_distance_counts_edits(a: Seq<char>, b: Seq<char>)
    ensures
        exists|steps: Seq<Seq<char>>| #[trigger]
            edits(steps, a, b) && steps.len() == distance(a, b) + 1,
        forall|steps: Seq<Seq<char>>| #[trigger]
            edits(steps, a, b) ==> steps.len() >= distance(a, b) + 1,
{
    let least = lemma_edits_that_turn(a, b);
    assert(edits(least, a, b));
    assert forall|steps: Seq<Seq<char>>| #[trigger] edits(steps, a, b) implies steps.len()
        >= distance(a, b) + 1 by {
        lemma_edits_take(steps, a, b);
    }
}

/// The Levenshtein distance of two texts.
pub fn edit_distance(a: &str, b: &str) -> (r: usize)
    ensures
        r == distance(a@, b@),
{
    if same_text(a, b) {
        proof {
            law_distance_zero(a@, b@);
        }
        return 0;
    }
    let ac = chars_of(a);
    let bc = chars_of(b);
    if ac.len() == 0 {
        return bc.len();
    }
    if bc.len() == 0 {
        return ac.len();
    }
    let ghost x = ac@;
    let ghost y = bc@;
    let mut prev: Vec<u128> = Vec::new();
    prev.push(0);
    let mut k: usize = 0;
    while k < bc.len()
        invariant
            y == bc@,
            k <= bc@.len(),
            prev@.len() == k + 1,
            forall|j: int| 0 <= j <= k ==> prev@[j] == j,
        decreases bc@.len() - k,
    {
        k += 1;
        prev.push(k as u128);
    }
    proof {
        assert forall|j: int| 0 <= j <= y.len() implies prev@[j] == distance(
            x.take(0),
            #[trigger] y.take(j),
        ) by {}
    }
    let mut i: usize = 0;
    while i < ac.len()
        invariant
            x == ac@,
            y == bc@,
            i <= ac@.len(),
            prev@.len() == bc@.len() + 1,
            forall|j: int|
                0 <= j <= y.len() ==> prev@[j] == distance(x.take(i as int), #[trigger] y.take(j)),
        decreases ac@.len() - i,
    {
        let mut curr: Vec<u128> = Vec::new();
        curr.push(i as u128 + 1);
        let ghost row = x.take(i + 1);
        let ghost above = x.take(i as int);
        proof {
            assert(row.drop_last() =~= above);
            assert(row.last() == x[i as int]);
            assert(y.take(0).len() == 0);
            assert(distance(row, y.take(0)) == i + 1);
        }
        let mut j: usize = 0;
        while j < bc.len()
            invariant
                x == ac@,
                y == bc@,
                i < ac@.len(),
                j <= bc@.len(),
                row == x.take(i + 1),
                above == x.take(i as int),
                row.drop_last() == above,
                row.last() == x[i as int],
                row.len() == i + 1,
                prev@.len() == bc@.len() + 1,
                curr@.len() == j + 1,
                forall|q: int|
                    0 <= q <= y.len() ==> prev@[q] == distance(above, #[trigger] y.take(q)),
                forall|q: int| 0 <= q <= j ==> curr@[q] == distance(row, #[trigger] y.take(q)),
            decreases bc@.len() - j,
        {
            proof {
                assert(y.take(j + 1).drop_last() =~= y.take(j as int));
                assert(y.take(j + 1).last() == y[j as int]);
                law_distance_bounds(above, y.take(j + 1));
                law_distance_bounds(row, y.take(j as int));
                law_distance_bounds(above, y.take(j as int));
            }
            let cost: u128 = if ac[i] == bc[j] {
                0
            } else {
                1
            };
            let delete: u128 = prev[j + 1] + 1;
            let insert: u128 = curr[j] + 1;
            let substitute: u128 = prev[j] + cost;
            let mut best: u128 = if delete < insert {
                delete
            } else {
                insert
            };
            if substitute < best {
                best = substitute;
            }
            curr.push(best);
            proof {
                assert(best == distance(row, y.take(j + 1)));
            }
            j += 1;
        }
        prev = curr;
        i += 1;
    }
    proof {
        assert(x.take(x.len() as int) =~= x);
        assert(y.take(y.len() as int) =~= y);
        assert(prev@[y.len() as int] == distance(x, y.take(y.len() as int)));
        law_distance_bounds(x, y);
    }
    prev[bc.len()] as usize
}

/// A tool name that resembles what was asked for: how, how nearly, and which.
#[verifier::ext_equal]
pub struct Candidate {
    pub rank: int,
    pub distance: int,
    pub name: Seq<char>,
}

/// How a name resembles what was asked for: one begins with the other, one
/// holds the other, or they differ in three characters at most.
pub open spec fn resemblance(name: Seq<char>, requested: Seq<char>) -> Option<Candidate> {
    let c = ascii_lower(name);
    let d = distance(c, requested);
    if begins_with(c, requested) || begins_with(requested, c) {
        Some(Candidate { rank: 0, distance: d, name })
    } else if contains_text(c, requested) || contains_text(requested, c) {
        Some(Candidate { rank: 1, distance: d, name })
    } else if d <= 3 {
        Some(Candidate { rank: 2, distance: d, name })
    } else {
        None
    }
}

/// The resemblances among the first `n` tools.
pub open spec fn resemblances(catalog: Seq<ToolView>, requested: Seq<char>, n: nat) -> Seq<
    Candidate,
>
    decreases n,
{
    if n == 0 {
        Seq::empty()
    } else {
        let before = resemblances(catalog, requested, (n - 1) as nat);
        match resemblance(catalog[n - 1].name, requested) {
            Some(c) => before.push(c),
            None => before,
        }
    }
}

/// The order of candidates: by kind, by distance, by name.
pub open spec fn candidate_before(a: Candidate, b: Candidate) -> bool {
    a.rank < b.rank || (a.rank == b.rank && (a.distance < b.distance || (a.distance == b.distance
        && text_before(a.name, b.name))))
}

/// The list without those that name the same tool as their neighbour in front.
pub open spec fn without_repeats(s: Seq<Candidate>) -> Seq<Candidate>
    decreases s.len(),
{
    if s.len() == 0 {
        Seq::empty()
    } else {
        let front = without_repeats(s.drop_last());
        if front.len() > 0 && front.last().name == s.last().name {
            front
        } else {
            front.push(s.last())
        }
    }
}

/// The names of candidates.
pub open spec fn candidate_names(s: Seq<Candidate>) -> Seq<Seq<char>> {
    s.map_values(|c: Candidate| c.name)
}

/// The first `limit` elements, or all of them.
pub open spec fn at_most<T>(s: Seq<T>, limit: nat) -> Seq<T> {
    if s.len() <= limit {
        s
    } else {
        s.take(limit as int)
    }
}

/// The names to suggest for one that is not there, best first.
pub open spec fn suggestions(catalog: Seq<ToolView>, requested: Seq<char>, limit: nat) -> Seq<
    Seq<char>,
> {
    let asked = ascii_lower(trimmed(requested));
    if asked.len() == 0 || limit == 0 {
        Seq::empty()
    } else {
        at_most(
            candidate_names(
                without_repeats(
                    sort_by(
                        resemblances(catalog, asked, catalog.len()),
                        |a: Candidate, b: Candidate| candidate_before(a, b),
                    ),
                ),
            ),
            limit,
        )
    }
}

struct Likeness {
    rank: u8,
    distance: usize,
    name: String,
}

impl View for Likeness {
    type V = Candidate;

    closed spec fn view(&self) -> Candidate {
        Candidate { rank: self.rank as int, distance: self.distance as int, name: self.name@ }
    }
}

spec fn likeness_views(s: Seq<Likeness>) -> Seq<Candidate> {
    s.map_values(|c: Likeness| c@)
}

fn likeness(name: &str, requested: &str) -> (r: Option<Likeness>)
    ensures
        match r {
            Some(c) => resemblance(name@, requested@) == Some(c@),
            None => resemblance(name@, requested@) is None,
        },
{
    let lower = to_ascii_lowercase(name);
    let c = lower.as_str();
    let distance = edit_distance(c, requested);
    let rank: u8 = if starts_with(c, requested) || starts_with(requested, c) {
        0
    } else if contains(c, requested) || contains(requested, c) {
        1
    } else if distance <= 3 {
        2
    } else {
        return None;
    };
    Some(Likeness { rank, distance, name: name.to_owned() })
}

fn likeness_before(a: &Likeness, b: &Likeness) -> (r: bool)
    ensures
        r == candidate_before(a@, b@),
{
    if a.rank != b.rank {
        return a.rank < b.rank;
    }
    if a.distance != b.distance {
        return a.distance < b.distance;
    }
    comes_before(a.name.as_str(), b.name.as_str())
}

fn insert_likeness(sorted: &mut Vec<Likeness>, item: Likeness)
    ensures
        likeness_views(final(sorted)@) == insert_by(
            likeness_views(old(sorted)@),
            item@,
            |a: Candidate, b: Candidate| candidate_before(a, b),
        ),
{
    let ghost before = |a: Candidate, b: Candidate| candidate_before(a, b);
    let ghost views = likeness_views(sorted@);
    let mut p: usize = sorted.len();
    while p > 0 && likeness_before(&item, &sorted[p - 1])
        invariant
            p <= sorted@.len(),
            sorted@ == old(sorted)@,
            before == (|a: Candidate, b: Candidate| candidate_before(a, b)),
            views == likeness_views(sorted@),
            forall|q: int| p <= q < views.len() ==> before(item@, #[trigger] views[q]),
        decreases p,
    {
        assert(views[p - 1] == sorted@[p - 1]@);
        p -= 1;
    }
    proof {
        if p > 0 {
            assert(views[p - 1] == sorted@[p - 1]@);
        }
        lemma_insert_at(views, item@, p as int, before);
    }
    sorted.insert(p, item);
    proof {
        assert(likeness_views(sorted@) =~= views.insert(p as int, item@));
    }
}

/// The names to suggest for one that is not there, best first.
pub fn suggest_tool_names(catalog: &Vec<Tool>, requested: &str, limit: usize) -> (r: Vec<String>)
    ensures
        texts(r@) == suggestions(tool_views(catalog@), requested@, limit as nat),
{
    let t = trim(requested);
    let asked = to_ascii_lowercase(t.as_str());
    if asked.as_str().is_empty() || limit == 0 {
        let none: Vec<String> = Vec::new();
        proof {
            assert(texts(none@) =~= Seq::empty());
        }
        return none;
    }
    let ghost all = tool_views(catalog@);
    let ghost before = |a: Candidate, b: Candidate| candidate_before(a, b);
    let mut sorted: Vec<Likeness> = Vec::new();
    let mut i: usize = 0;
    proof {
        assert(likeness_views(sorted@) =~= Seq::empty());
    }
    while i < catalog.len()
        invariant
            i <= catalog@.len(),
            all == tool_views(catalog@),
            before == (|a: Candidate, b: Candidate| candidate_before(a, b)),
            likeness_views(sorted@) == sort_by(resemblances(all, asked@, i as nat), before),
        decreases catalog@.len() - i,
    {
        assert(all[i as int] == catalog@[i as int]@);
        if let Some(c) = likeness(catalog[i].name.as_str(), asked.as_str()) {
            let ghost list = resemblances(all, asked@, i as nat);
            proof {
                assert(list.push(c@).drop_last() =~= list);
            }
            insert_likeness(&mut sorted, c);
        }
        i += 1;
    }
    let ghost ranked = likeness_views(sorted@);
    let mut kept: Vec<String> = Vec::new();
    let mut k: usize = 0;
    proof {
        assert(ranked.take(0) =~= Seq::empty());
        assert(texts(kept@) =~= candidate_names(without_repeats(ranked.take(0))));
    }
    while k < sorted.len()
        invariant
            k <= sorted@.len(),
            ranked == likeness_views(sorted@),
            texts(kept@) == candidate_names(without_repeats(ranked.take(k as int))),
        decreases sorted@.len() - k,
    {
        let ghost front = without_repeats(ranked.take(k as int));
        proof {
            assert(ranked.take(k + 1).drop_last() =~= ranked.take(k as int));
            assert(ranked.take(k + 1).last() == sorted@[k as int]@);
        }
        let n: usize = kept.len();
        assert(texts(kept@).len() == n);
        assert(candidate_names(front).len() == front.len());
        let repeated = if n > 0 {
            assert(texts(kept@)[n - 1] == kept@[n - 1]@);
            assert(candidate_names(front)[n - 1] == front[n - 1].name);
            same_text(kept[n - 1].as_str(), sorted[k].name.as_str())
        } else {
            false
        };
        if !repeated {
            push_line(&mut kept, sorted[k].name.clone());
            proof {
                assert(candidate_names(front.push(sorted@[k as int]@)) =~= candidate_names(
                    front,
                ).push(sorted@[k as int]@.name));
            }
        }
        k += 1;
    }
    proof {
        assert(ranked.take(ranked.len() as int) =~= ranked);
    }
    let ghost names = texts(kept@);
    if kept.len() > limit {
        kept.truncate(limit);
        proof {
            assert(texts(kept@) =~= names.take(limit as int));
        }
    }
    kept
}

/// A tool that is there under the very name asked for is suggested, unless the
/// list of suggestions is cut short before it.
pub proof fn law_exact_name_is_a_candidate(name: Seq<char>)
    ensures
        resemblance(name, ascii_lower(name)) == Some(
            Candidate { rank: 0, distance: 0, name },
        ),
{
    let c = ascii_lower(name);
    law_distance_zero(c, c);
    assert(c.subrange(0, c.len() as int) =~= c);
}

// ---------------------------------------------------------------------------
// Searching the catalog
// ---------------------------------------------------------------------------

/// Why the `regex` crate refuses a pattern, or `None` where it takes it.
pub uninterp spec fn regex_refusal(pattern: Seq<char>) -> Option<Seq<char>>;

/// A regular expression that the `regex` crate takes matches somewhere in a
/// text.
pub uninterp spec fn regex_matches(pattern: Seq<char>, text: Seq<char>) -> bool;

/// `regex::Regex::new` and `Regex::is_match`: whether the pattern matches
/// somewhere in each of the texts, or why the pattern is refused. Both depend on
/// the pattern and the text alone.
#[verifier::external_body]
pub(crate) fn match_each(
    pattern: &str,
    texts_to_search: &Vec<String>,
) -> (r: Result<Vec<bool>, String>)
    ensures
        match r {
            Ok(found) => regex_refusal(pattern@) is None && found@.len() == texts_to_search@.len()
                && forall|i: int|
                0 <= i < found@.len() ==> #[trigger] found@[i] == regex_matches(
                    pattern@,
                    texts_to_search@[i]@,
                ),
            Err(why) => regex_refusal(pattern@) == Some(why@),
        },
{
    match regex::Regex::new(pattern) {
        Ok(compiled) => Ok(texts_to_search.iter().map(|t| compiled.is_match(t)).collect()),
        Err(err) => Err(err.to_string()),
    }
}

/// One of the tools that act, with what is said of it while it is not offered.
#[derive(Debug, Clone, Copy)]
pub struct CoreActionToolFallback {
    pub name: &'static str,
    pub description: &'static str,
    pub unavailable_reason: &'static str,
}

/// One of the tools that act, as contracts see it.
#[verifier::ext_equal]
pub struct FallbackView {
    pub name: Seq<char>,
    pub description: Seq<char>,
    pub reason: Seq<char>,
}

impl View for CoreActionToolFallback {
    type V = FallbackView;

    open spec fn view(&self) -> FallbackView {
        FallbackView {
            name: self.name@,
            description: self.description@,
            reason: self.unavailable_reason@,
        }
    }
}

/// The views of a list of fallbacks.
pub open spec fn fallback_views(s: Seq<CoreActionToolFallback>) -> Seq<FallbackView> {
    s.map_values(|f: CoreActionToolFallback| f@)
}

/// The tools that act.
pub open spec fn action_tools() -> Seq<FallbackView> {
    seq![
        FallbackView {
            name: "exec_shell"@,
            description: "Run shell commands in the workspace."@,
            reason:
                "Not present in the current model-visible catalog. Interactive Agent sessions expose shell by default unless allow_shell = false; noninteractive and durable profiles require allow_shell = true. Plan mode hides shell, and command tool allow/deny gates can also block it."@,
        },
        FallbackView {
            name: "write_file"@,
            description: "Create or overwrite files in the workspace."@,
            reason:
                "Not present in the current model-visible catalog. File writes require Agent or Yolo mode and no command tool allow/deny gate blocking write_file."@,
        },
        FallbackView {
            name: "edit_file"@,
            description: "Edit existing files by replacing text."@,
            reason:
                "Not present in the current model-visible catalog. File edits require Agent or Yolo mode and no command tool allow/deny gate blocking edit_file."@,
        },
        FallbackView {
            name: "apply_patch"@,
            description: "Apply a patch to one or more workspace files."@,
            reason:
                "Not present in the current model-visible catalog. Patches require Agent or Yolo mode, the apply_patch feature, and no command tool allow/deny gate blocking apply_patch."@,
        },
    ]
}

/// The tools that act.
pub fn core_action_tool_fallbacks() -> (r: Vec<CoreActionToolFallback>)
    ensures
        fallback_views(r@) == action_tools(),
{
    let r = vec![
        CoreActionToolFallback {
            name: "exec_shell",
            description: "Run shell commands in the workspace.",
            unavailable_reason:
                "Not present in the current model-visible catalog. Interactive Agent sessions expose shell by default unless allow_shell = false; noninteractive and durable profiles require allow_shell = true. Plan mode hides shell, and command tool allow/deny gates can also block it.",
        },
        CoreActionToolFallback {
            name: "write_file",
            description: "Create or overwrite files in the workspace.",
            unavailable_reason:
                "Not present in the current model-visible catalog. File writes require Agent or Yolo mode and no command tool allow/deny gate blocking write_file.",
        },
        CoreActionToolFallback {
            name: "edit_file",
            description: "Edit existing files by replacing text.",
            unavailable_reason:
                "Not present in the current model-visible catalog. File edits require Agent or Yolo mode and no command tool allow/deny gate blocking edit_file.",
        },
        CoreActionToolFallback {
            name: "apply_patch",
            description: "Apply a patch to one or more workspace files.",
            unavailable_reason:
                "Not present in the current model-visible catalog. Patches require Agent or Yolo mode, the apply_patch feature, and no command tool allow/deny gate blocking apply_patch.",
        },
    ];
    proof {
        assert(fallback_views(r@) =~= action_tools());
    }
    r
}

/// What is searched of something with a name: its name, its description and a
/// third text, in small letters, on lines of their own.
pub open spec fn haystack(name: Seq<char>, description: Seq<char>, more: Seq<char>) -> Seq<char> {
    lowercase(name) + "\n"@ + lowercase(description) + "\n"@ + lowercase(more)
}

/// What is searched of a tool.
pub open spec fn tool_haystack(tool: ToolView) -> Seq<char> {
    haystack(tool.name, tool.description, json_text(tool.input_schema))
}

/// What is searched of a tool that acts while it is not offered.
pub open spec fn fallback_haystack(f: FallbackView) -> Seq<char> {
    haystack(f.name, f.description, f.reason)
}

fn make_haystack(name: &str, description: &str, more: &str) -> (r: String)
    ensures
        r@ == haystack(name@, description@, more@),
{
    let mut out = to_lowercase(name);
    out.append("\n");
    let d = to_lowercase(description);
    out.append(d.as_str());
    out.append("\n");
    let m = to_lowercase(more);
    out.append(m.as_str());
    out
}

/// What is searched of a tool.
pub fn tool_search_haystack(tool: &Tool) -> (r: String)
    ensures
        r@ == tool_haystack(tool@),
{
    let schema = render_json(&tool.input_schema);
    make_haystack(tool.name.as_str(), tool.description.as_str(), schema.as_str())
}

/// The search terms of a query, in small letters.
pub open spec fn search_terms(query: Seq<char>) -> Seq<Seq<char>> {
    words_of(query).map_values(|w: Seq<char>| lowercase(trimmed(w))).filter(
        |t: Seq<char>| t.len() > 0,
    )
}

fn terms_of(query: &str) -> (r: Vec<String>)
    ensures
        texts(r@) == search_terms(query@),
{
    let words = split_words(query);
    let ghost all = words_of(query@).map_values(|w: Seq<char>| lowercase(trimmed(w)));
    let ghost keep = |t: Seq<char>| t.len() > 0;
    let mut out: Vec<String> = Vec::new();
    let mut i: usize = 0;
    proof {
        reveal(Seq::filter);
        assert(all.take(0) =~= Seq::empty());
        assert(texts(out@) =~= all.take(0).filter(keep));
    }
    while i < words.len()
        invariant
            i <= words@.len(),
            texts(words@) == words_of(query@),
            all == words_of(query@).map_values(|w: Seq<char>| lowercase(trimmed(w))),
            keep == (|t: Seq<char>| t.len() > 0),
            texts(out@) == all.take(i as int).filter(keep),
        decreases words@.len() - i,
    {
        let t = trim(words[i].as_str());
        let term = to_lowercase(t.as_str());
        proof {
            reveal(Seq::filter);
            assert(texts(words@)[i as int] == words@[i as int]@);
            assert(all.take(i + 1).drop_last() =~= all.take(i as int));
            assert(all.take(i + 1).last() == term@);
        }
        if !term.as_str().is_empty() {
            push_line(&mut out, term);
        }
        i += 1;
    }
    proof {
        assert(all.take(all.len() as int) =~= all);
    }
    out
}

/// How well the first `n` terms fit: one point for each that stands in the
/// searched text, and two more where it stands in the name.
pub open spec fn score(terms: Seq<Seq<char>>, hay: Seq<char>, name_lower: Seq<char>, n: nat) -> int
    decreases n,
{
    if n == 0 {
        0
    } else {
        score(terms, hay, name_lower, (n - 1) as nat) + (if contains_text(hay, terms[n - 1]) {
            1int
        } else {
            0
        }) + (if contains_text(name_lower, terms[n - 1]) {
            2int
        } else {
            0
        })
    }
}

fn score_of(terms: &Vec<String>, hay: &str, name_lower: &str) -> (r: u128)
    ensures
        r == score(texts(terms@), hay@, name_lower@, terms@.len()),
{
    let mut total: u128 = 0;
    let mut i: usize = 0;
    while i < terms.len()
        invariant
            i <= terms@.len(),
            total == score(texts(terms@), hay@, name_lower@, i as nat),
            total <= 3 * i,
        decreases terms@.len() - i,
    {
        assert(texts(terms@)[i as int] == terms@[i as int]@);
        if contains(hay, terms[i].as_str()) {
            total = total + 1;
        }
        if contains(name_lower, terms[i].as_str()) {
            total = total + 2;
        }
        i += 1;
    }
    total
}

/// Something that was found: how well it fits, its name, and where it stands.
#[verifier::ext_equal]
pub struct Hit {
    pub score: int,
    pub name: Seq<char>,
    pub place: int,
}

/// The order of hits: the best first, and of equals by name.
pub open spec fn hit_before(a: Hit, b: Hit) -> bool {
    a.score > b.score || (a.score == b.score && text_before(a.name, b.name))
}

struct Found {
    score: u128,
    name: String,
    place: usize,
}

impl View for Found {
    type V = Hit;

    closed spec fn view(&self) -> Hit {
        Hit { score: self.score as int, name: self.name@, place: self.place as int }
    }
}

spec fn found_views(s: Seq<Found>) -> Seq<Hit> {
    s.map_values(|f: Found| f@)
}

fn found_before(a: &Found, b: &Found) -> (r: bool)
    ensures
        r == hit_before(a@, b@),
{
    if a.score != b.score {
        return a.score > b.score;
    }
    comes_before(a.name.as_str(), b.name.as_str())
}

fn insert_found(sorted: &mut Vec<Found>, item: Found)
    ensures
        found_views(final(sorted)@) == insert_by(
            found_views(old(sorted)@),
            item@,
            |a: Hit, b: Hit| hit_before(a, b),
        ),
{
    let ghost before = |a: Hit, b: Hit| hit_before(a, b);
    let ghost views = found_views(sorted@);
    let mut p: usize = sorted.len();
    while p > 0 && found_before(&item, &sorted[p - 1])
        invariant
            p <= sorted@.len(),
            sorted@ == old(sorted)@,
            before == (|a: Hit, b: Hit| hit_before(a, b)),
            views == found_views(sorted@),
            forall|q: int| p <= q < views.len() ==> before(item@, #[trigger] views[q]),
        decreases p,
    {
        assert(views[p - 1] == sorted@[p - 1]@);
        p -= 1;
    }
    proof {
        if p > 0 {
            assert(views[p - 1] == sorted@[p - 1]@);
        }
        lemma_insert_at(views, item@, p as int, before);
    }
    sorted.insert(p, item);
    proof {
        assert(found_views(sorted@) =~= views.insert(p as int, item@));
    }
}

/// The hits among the first `n` tools.
pub open spec fn tool_hits(catalog: Seq<ToolView>, terms: Seq<Seq<char>>, n: nat) -> Seq<Hit>
    decreases n,
{
    if n == 0 {
        Seq::empty()
    } else {
        let before = tool_hits(catalog, terms, (n - 1) as nat);
        let tool = catalog[n - 1];
        let s = score(terms, tool_haystack(tool), lowercase(tool.name), terms.len());
        if !is_search_tool(tool.name) && s > 0 {
            before.push(Hit { score: s, name: tool.name, place: n - 1 })
        } else {
            before
        }
    }
}

/// The names of hits.
pub open spec fn hit_names(s: Seq<Hit>) -> Seq<Seq<char>> {
    s.map_values(|h: Hit| h.name)
}

/// The tools that fit a query in plain words, best first.
pub open spec fn tools_by_words(catalog: Seq<ToolView>, query: Seq<char>, max: nat) -> Seq<
    Seq<char>,
> {
    let terms = search_terms(query);
    at_most(
        hit_names(
            sort_by(tool_hits(catalog, terms, catalog.len()), |a: Hit, b: Hit| hit_before(a, b)),
        ),
        max,
    )
}

proof fn lemma_no_terms(catalog: Seq<ToolView>, terms: Seq<Seq<char>>, n: nat)
    requires
        terms.len() == 0,
    ensures
        tool_hits(catalog, terms, n) =~= Seq::empty(),
    decreases n,
{
    if n > 0 {
        lemma_no_terms(catalog, terms, (n - 1) as nat);
    }
}

/// The tools that fit a query in plain words, best first.
pub fn discover_tools_with_bm25_like(catalog: &Vec<Tool>, query: &str, max_results: usize) -> (r:
    Vec<String>)
    ensures
        texts(r@) == tools_by_words(tool_views(catalog@), query@, max_results as nat),
{
    let terms = terms_of(query);
    let ghost all = tool_views(catalog@);
    let ghost words = texts(terms@);
    if terms.len() == 0 {
        let none: Vec<String> = Vec::new();
        proof {
            lemma_no_terms(all, words, all.len());
            assert(hit_names(Seq::<Hit>::empty()) =~= Seq::empty());
            assert(texts(none@) =~= Seq::empty());
        }
        return none;
    }
    let ghost before = |a: Hit, b: Hit| hit_before(a, b);
    let mut sorted: Vec<Found> = Vec::new();
    let mut i: usize = 0;
    proof {
        assert(found_views(sorted@) =~= Seq::empty());
    }
    while i < catalog.len()
        invariant
            i <= catalog@.len(),
            all == tool_views(catalog@),
            words == texts(terms@),
            before == (|a: Hit, b: Hit| hit_before(a, b)),
            found_views(sorted@) == sort_by(tool_hits(all, words, i as nat), before),
        decreases catalog@.len() - i,
    {
        assert(all[i as int] == catalog@[i as int]@);
        if !is_tool_search_tool(catalog[i].name.as_str()) {
            let hay = tool_search_haystack(&catalog[i]);
            let lower = to_lowercase(catalog[i].name.as_str());
            let s = score_of(&terms, hay.as_str(), lower.as_str());
            if s > 0 {
                let f = Found { score: s, name: catalog[i].name.clone(), place: i };
                let ghost list = tool_hits(all, words, i as nat);
                proof {
                    assert(list.push(f@).drop_last() =~= list);
                }
                insert_found(&mut sorted, f);
            }
        }
        i += 1;
    }
    let mut out: Vec<String> = Vec::new();
    let ghost ranked = found_views(sorted@);
    let mut k: usize = 0;
    proof {
        assert(texts(out@) =~= hit_names(ranked).take(0));
    }
    while k < sorted.len() && k < max_results
        invariant
            k <= sorted@.len(),
            k <= max_results,
            ranked == found_views(sorted@),
            texts(out@) == hit_names(ranked).take(k as int),
        decreases sorted@.len() - k,
    {
        proof {
            assert(hit_names(ranked)[k as int] == sorted@[k as int].name@);
            assert(hit_names(ranked).take(k + 1) =~= hit_names(ranked).take(k as int).push(
                sorted@[k as int].name@,
            ));
        }
        push_line(&mut out, sorted[k].name.clone());
        k += 1;
    }
    proof {
        assert(hit_names(ranked).take(ranked.len() as int) =~= hit_names(ranked));
    }
    out
}

/// The tools among the first `n` that a pattern matches.
pub open spec fn pattern_hits(catalog: Seq<ToolView>, pattern: Seq<char>, n: nat) -> Seq<Seq<char>>
    decreases n,
{
    if n == 0 {
        Seq::empty()
    } else {
        let before = pattern_hits(catalog, pattern, (n - 1) as nat);
        let tool = catalog[n - 1];
        if !is_search_tool(tool.name) && regex_matches(pattern, tool_haystack(tool)) {
            before.push(tool.name)
        } else {
            before
        }
    }
}

/// The error for a pattern that is refused.
pub open spec fn pattern_error(why: Seq<char>) -> ToolErrorView {
    ToolErrorView::InvalidInput("Invalid regex query: "@ + why)
}

/// The first tool from `from` on that can be searched for, where a pattern matches
/// it.
pub open spec fn first_tried(catalog: Seq<ToolView>, pattern: Seq<char>, from: int) -> Seq<
    Seq<char>,
>
    decreases catalog.len() - from,
{
    if from < 0 || from >= catalog.len() {
        Seq::empty()
    } else if is_search_tool(catalog[from].name) {
        first_tried(catalog, pattern, from + 1)
    } else if regex_matches(pattern, tool_haystack(catalog[from])) {
        seq![catalog[from].name]
    } else {
        Seq::empty()
    }
}

/// The tools that a pattern matches, in the order of the catalog. The room is
/// looked at behind each tool, so one tool is tried where there is none.
pub open spec fn tools_by_pattern(catalog: Seq<ToolView>, pattern: Seq<char>, max: nat) -> Result<
    Seq<Seq<char>>,
    ToolErrorView,
> {
    match regex_refusal(pattern) {
        Some(why) => Err(pattern_error(why)),
        None => Ok(
            if max == 0 {
                first_tried(catalog, pattern, 0)
            } else {
                at_most(pattern_hits(catalog, pattern, catalog.len()), max)
            },
        ),
    }
}

proof fn lemma_pattern_hits_grow(catalog: Seq<ToolView>, pattern: Seq<char>, i: nat, n: nat)
    requires
        i <= n,
    ensures
        pattern_hits(catalog, pattern, i).len() <= pattern_hits(catalog, pattern, n).len(),
        pattern_hits(catalog, pattern, n).take(pattern_hits(catalog, pattern, i).len() as int)
            == pattern_hits(catalog, pattern, i),
    decreases n - i,
{
    if i < n {
        lemma_pattern_hits_grow(catalog, pattern, i, (n - 1) as nat);
        let small = pattern_hits(catalog, pattern, i);
        assert(pattern_hits(catalog, pattern, n).take(small.len() as int) =~= pattern_hits(
            catalog,
            pattern,
            (n - 1) as nat,
        ).take(small.len() as int));
    } else {
        assert(pattern_hits(catalog, pattern, n).take(
            pattern_hits(catalog, pattern, n).len() as int,
        ) =~= pattern_hits(catalog, pattern, n));
    }
}

/// The view of a list of names or an error.
pub open spec fn names_outcome(r: Result<Vec<String>, ToolError>) -> Result<
    Seq<Seq<char>>,
    ToolErrorView,
> {
    match r {
        Ok(v) => Ok(texts(v@)),
        Err(e) => Err(e@),
    }
}

/// The tools that a pattern matches, in the order of the catalog.
pub fn discover_tools_with_regex(catalog: &Vec<Tool>, query: &str, max_results: usize) -> (r:
    Result<Vec<String>, ToolError>)
    ensures
        names_outcome(r) == tools_by_pattern(tool_views(catalog@), query@, max_results as nat),
{
    let ghost all = tool_views(catalog@);
    let mut hays: Vec<String> = Vec::new();
    let mut h: usize = 0;
    while h < catalog.len()
        invariant
            h <= catalog@.len(),
            hays@.len() == h,
            all == tool_views(catalog@),
            forall|j: int| 0 <= j < h ==> (#[trigger] hays@[j])@ == tool_haystack(all[j]),
        decreases catalog@.len() - h,
    {
        assert(all[h as int] == catalog@[h as int]@);
        hays.push(tool_search_haystack(&catalog[h]));
        h += 1;
    }
    let found = match match_each(query, &hays) {
        Ok(v) => v,
        Err(why) => {
            return Err(
                ToolError::InvalidInput { message: concat("Invalid regex query: ", why.as_str()) },
            );
        },
    };
    let mut out: Vec<String> = Vec::new();
    let mut i: usize = 0;
    proof {
        assert(texts(out@) =~= Seq::empty());
    }
    if max_results == 0 {
        while i < catalog.len() && is_tool_search_tool(catalog[i].name.as_str())
            invariant
                i <= catalog@.len(),
                all == tool_views(catalog@),
                first_tried(all, query@, 0) == first_tried(all, query@, i as int),
            decreases catalog@.len() - i,
        {
            assert(all[i as int] == catalog@[i as int]@);
            i += 1;
        }
        if i < catalog.len() {
            assert(all[i as int] == catalog@[i as int]@);
            assert(hays@[i as int]@ == tool_haystack(all[i as int]));
            if found[i] {
                push_line(&mut out, catalog[i].name.clone());
                assert(texts(out@) =~= seq![all[i as int].name]);
            }
        }
        return Ok(out);
    }
    while i < catalog.len() && out.len() < max_results
        invariant
            i <= catalog@.len(),
            max_results > 0,
            out@.len() <= max_results,
            all == tool_views(catalog@),
            found@.len() == catalog@.len(),
            hays@.len() == catalog@.len(),
            forall|j: int| 0 <= j < hays@.len() ==> (#[trigger] hays@[j])@ == tool_haystack(all[j]),
            forall|j: int|
                0 <= j < found@.len() ==> #[trigger] found@[j] == regex_matches(query@, hays@[j]@),
            texts(out@) == pattern_hits(all, query@, i as nat),
        decreases catalog@.len() - i,
    {
        assert(all[i as int] == catalog@[i as int]@);
        assert(hays@[i as int]@ == tool_haystack(all[i as int]));
        if !is_tool_search_tool(catalog[i].name.as_str()) && found[i] {
            let ghost before = texts(out@);
            push_line(&mut out, catalog[i].name.clone());
            assert(texts(out@).len() == before.len() + 1);
        }
        i += 1;
    }
    proof {
        lemma_pattern_hits_grow(all, query@, i as nat, all.len());
        let full = pattern_hits(all, query@, all.len());
        assert(texts(out@).len() == out@.len());
        if i == all.len() {
            assert(at_most(full, max_results as nat) =~= full);
        } else {
            assert(at_most(full, max_results as nat) =~= full.take(max_results as int));
        }
    }
    Ok(out)
}

/// The tools that act, are not offered and a pattern matches, among the first
/// `n`.
pub open spec fn absent_by_pattern(catalog: Seq<ToolView>, pattern: Seq<char>, n: nat) -> Seq<
    FallbackView,
>
    decreases n,
{
    if n == 0 {
        Seq::empty()
    } else {
        let before = absent_by_pattern(catalog, pattern, (n - 1) as nat);
        let f = action_tools()[n - 1];
        if !has_tool(catalog, f.name) && regex_matches(pattern, fallback_haystack(f)) {
            before.push(f)
        } else {
            before
        }
    }
}

/// The view of a list of fallbacks or an error.
pub open spec fn fallbacks_outcome(r: Result<Vec<CoreActionToolFallback>, ToolError>) -> Result<
    Seq<FallbackView>,
    ToolErrorView,
> {
    match r {
        Ok(v) => Ok(fallback_views(v@)),
        Err(e) => Err(e@),
    }
}

/// The tools that act, are not offered and a pattern matches.
pub open spec fn absent_tools_by_pattern(
    catalog: Seq<ToolView>,
    pattern: Seq<char>,
    max: nat,
) -> Result<Seq<FallbackView>, ToolErrorView> {
    if max == 0 {
        Ok(Seq::empty())
    } else {
        match regex_refusal(pattern) {
            Some(why) => Err(pattern_error(why)),
            None => Ok(at_most(absent_by_pattern(catalog, pattern, 4), max)),
        }
    }
}

fn push_fallback(list: &mut Vec<CoreActionToolFallback>, f: CoreActionToolFallback)
    ensures
        fallback_views(final(list)@) == fallback_views(old(list)@).push(f@),
{
    list.push(f);
    proof {
        assert(fallback_views(list@) =~= fallback_views(old(list)@).push(f@));
    }
}

fn cut_fallbacks(list: Vec<CoreActionToolFallback>, max: usize) -> (r: Vec<CoreActionToolFallback>)
    ensures
        fallback_views(r@) == at_most(fallback_views(list@), max as nat),
{
    let mut out = list;
    let ghost before = fallback_views(out@);
    if out.len() > max {
        out.truncate(max);
        proof {
            assert(fallback_views(out@) =~= before.take(max as int));
        }
    }
    out
}

fn fallback_search_texts(list: &Vec<CoreActionToolFallback>) -> (r: Vec<String>)
    ensures
        r@.len() == list@.len(),
        forall|j: int|
            0 <= j < r@.len() ==> (#[trigger] r@[j])@ == fallback_haystack(
                fallback_views(list@)[j],
            ),
{
    let mut hays: Vec<String> = Vec::new();
    let mut h: usize = 0;
    while h < list.len()
        invariant
            h <= list@.len(),
            hays@.len() == h,
            forall|j: int|
                0 <= j < h ==> (#[trigger] hays@[j])@ == fallback_haystack(
                    fallback_views(list@)[j],
                ),
        decreases list@.len() - h,
    {
        hays.push(
            make_haystack(list[h].name, list[h].description, list[h].unavailable_reason),
        );
        h += 1;
    }
    hays
}

/// The tools that act, are not offered and a pattern matches.
pub fn unavailable_core_action_tools_with_regex(
    catalog: &Vec<Tool>,
    query: &str,
    max_results: usize,
) -> (r: Result<Vec<CoreActionToolFallback>, ToolError>)
    ensures
        fallbacks_outcome(r) == absent_tools_by_pattern(
            tool_views(catalog@),
            query@,
            max_results as nat,
        ),
{
    let ghost cat = tool_views(catalog@);
    if max_results == 0 {
        let none: Vec<CoreActionToolFallback> = Vec::new();
        proof {
            assert(fallback_views(none@) =~= Seq::empty());
        }
        return Ok(none);
    }
    let all = core_action_tool_fallbacks();
    let hays = fallback_search_texts(&all);
    let found = match match_each(query, &hays) {
        Ok(v) => v,
        Err(why) => {
            return Err(
                ToolError::InvalidInput { message: concat("Invalid regex query: ", why.as_str()) },
            );
        },
    };
    let mut out: Vec<CoreActionToolFallback> = Vec::new();
    let mut i: usize = 0;
    proof {
        assert(fallback_views(out@) =~= Seq::empty());
        assert(fallback_views(all@).len() == all@.len());
        assert(action_tools().len() == 4);
    }
    while i < all.len()
        invariant
            i <= all@.len(),
            all@.len() == 4,
            cat == tool_views(catalog@),
            fallback_views(all@) == action_tools(),
            found@.len() == all@.len(),
            hays@.len() == all@.len(),
            forall|j: int|
                0 <= j < hays@.len() ==> (#[trigger] hays@[j])@ == fallback_haystack(
                    fallback_views(all@)[j],
                ),
            forall|j: int|
                0 <= j < found@.len() ==> #[trigger] found@[j] == regex_matches(query@, hays@[j]@),
            fallback_views(out@) == absent_by_pattern(cat, query@, i as nat),
        decreases all@.len() - i,
    {
        assert(fallback_views(all@)[i as int] == all@[i as int]@);
        assert(hays@[i as int]@ == fallback_haystack(fallback_views(all@)[i as int]));
        if !catalog_contains_tool(catalog, all[i].name) && found[i] {
            push_fallback(&mut out, all[i]);
        }
        i += 1;
    }
    Ok(cut_fallbacks(out, max_results))
}

/// The hits among the tools that act and are not offered.
pub open spec fn absent_hits(catalog: Seq<ToolView>, terms: Seq<Seq<char>>, n: nat) -> Seq<Hit>
    decreases n,
{
    if n == 0 {
        Seq::empty()
    } else {
        let before = absent_hits(catalog, terms, (n - 1) as nat);
        let f = action_tools()[n - 1];
        let s = score(terms, fallback_haystack(f), lowercase(f.name), terms.len());
        if !has_tool(catalog, f.name) && s > 0 {
            before.push(Hit { score: s, name: f.name, place: n - 1 })
        } else {
            before
        }
    }
}

/// The tools that act at the places of a list of hits.
pub open spec fn fallbacks_at(s: Seq<Hit>) -> Seq<FallbackView> {
    s.map_values(|h: Hit| action_tools()[h.place])
}

/// The tools that act, are not offered and fit a query in plain words, best
/// first.
pub open spec fn absent_tools_by_words(
    catalog: Seq<ToolView>,
    query: Seq<char>,
    max: nat,
) -> Seq<FallbackView> {
    at_most(
        fallbacks_at(
            sort_by(
                absent_hits(catalog, search_terms(query), 4),
                |a: Hit, b: Hit| hit_before(a, b),
            ),
        ),
        max,
    )
}

proof fn lemma_insert_places(t: Seq<Hit>, x: Hit, before: spec_fn(Hit, Hit) -> bool)
    requires
        forall|i: int| 0 <= i < t.len() ==> 0 <= (#[trigger] t[i]).place < 4,
        0 <= x.place < 4,
    ensures
        forall|i: int|
            0 <= i < insert_by(t, x, before).len() ==> 0 <= (#[trigger] insert_by(
                t,
                x,
                before,
            )[i]).place < 4,
{
    crate::order::lemma_insert_contents(t, x, before);
    let r = insert_by(t, x, before);
    assert forall|i: int| 0 <= i < r.len() implies 0 <= (#[trigger] r[i]).place < 4 by {
        if r[i] != x {
            let k = choose|k: int| 0 <= k < t.len() && t[k] == r[i];
            assert(0 <= t[k].place < 4);
        }
    }
}

proof fn lemma_no_terms_absent(catalog: Seq<ToolView>, terms: Seq<Seq<char>>, n: nat)
    requires
        terms.len() == 0,
    ensures
        absent_hits(catalog, terms, n) =~= Seq::empty(),
    decreases n,
{
    if n > 0 {
        lemma_no_terms_absent(catalog, terms, (n - 1) as nat);
    }
}

/// The tools that act, are not offered and fit a query in plain words, best
/// first.
pub fn unavailable_core_action_tools_with_bm25_like(
    catalog: &Vec<Tool>,
    query: &str,
    max_results: usize,
) -> (r: Vec<CoreActionToolFallback>)
    ensures
        fallback_views(r@) == absent_tools_by_words(
            tool_views(catalog@),
            query@,
            max_results as nat,
        ),
{
    let terms = terms_of(query);
    let ghost cat = tool_views(catalog@);
    let ghost words = texts(terms@);
    let ghost before = |a: Hit, b: Hit| hit_before(a, b);
    let mut out: Vec<CoreActionToolFallback> = Vec::new();
    proof {
        assert(fallback_views(out@) =~= Seq::empty());
    }
    if terms.len() == 0 {
        proof {
            lemma_no_terms_absent(cat, words, 4);
            assert(fallbacks_at(Seq::<Hit>::empty()) =~= Seq::empty());
        }
        return out;
    }
    let all = core_action_tool_fallbacks();
    let hays = fallback_search_texts(&all);
    let mut sorted: Vec<Found> = Vec::new();
    let mut i: usize = 0;
    proof {
        assert(found_views(sorted@) =~= Seq::empty());
        assert(fallback_views(all@).len() == all@.len());
        assert(action_tools().len() == 4);
    }
    while i < all.len()
        invariant
            i <= all@.len(),
            all@.len() == 4,
            cat == tool_views(catalog@),
            words == texts(terms@),
            before == (|a: Hit, b: Hit| hit_before(a, b)),
            fallback_views(all@) == action_tools(),
            hays@.len() == all@.len(),
            forall|j: int|
                0 <= j < hays@.len() ==> (#[trigger] hays@[j])@ == fallback_haystack(
                    fallback_views(all@)[j],
                ),
            found_views(sorted@) == sort_by(absent_hits(cat, words, i as nat), before),
            forall|j: int|
                0 <= j < sorted@.len() ==> 0 <= (#[trigger] found_views(sorted@)[j]).place < 4,
        decreases all@.len() - i,
    {
        assert(fallback_views(all@)[i as int] == all@[i as int]@);
        assert(hays@[i as int]@ == fallback_haystack(fallback_views(all@)[i as int]));
        if !catalog_contains_tool(catalog, all[i].name) {
            let lower = to_lowercase(all[i].name);
            let s = score_of(&terms, hays[i].as_str(), lower.as_str());
            if s > 0 {
                let f = Found { score: s, name: all[i].name.to_owned(), place: i };
                let ghost list = absent_hits(cat, words, i as nat);
                let ghost placed = found_views(sorted@);
                proof {
                    assert(list.push(f@).drop_last() =~= list);
                    assert forall|j: int| 0 <= j < placed.len() implies 0 <= (
                    #[trigger] placed[j]).place < 4 by {
                        assert(found_views(sorted@)[j] == placed[j]);
                    }
                    lemma_insert_places(placed, f@, before);
                }
                insert_found(&mut sorted, f);
                proof {
                    assert forall|j: int| 0 <= j < sorted@.len() implies 0 <= (
                    #[trigger] found_views(sorted@)[j]).place < 4 by {
                        assert(found_views(sorted@)[j] == insert_by(placed, f@, before)[j]);
                    }
                }
            }
        }
        i += 1;
    }
    let ghost ranked = found_views(sorted@);
    let mut k: usize = 0;
    proof {
        assert(fallback_views(out@) =~= fallbacks_at(ranked).take(0));
    }
    while k < sorted.len()
        invariant
            k <= sorted@.len(),
            all@.len() == 4,
            ranked == found_views(sorted@),
            fallback_views(all@) == action_tools(),
            forall|j: int|
                0 <= j < sorted@.len() ==> 0 <= (#[trigger] found_views(sorted@)[j]).place < 4,
            fallback_views(out@) == fallbacks_at(ranked).take(k as int),
        decreases sorted@.len() - k,
    {
        assert(found_views(sorted@)[k as int] == sorted@[k as int]@);
        let place: usize = sorted[k].place;
        proof {
            assert(fallback_views(all@)[place as int] == all@[place as int]@);
            assert(fallbacks_at(ranked)[k as int] == action_tools()[place as int]);
            assert(fallbacks_at(ranked).take(k + 1) =~= fallbacks_at(ranked).take(k as int).push(
                all@[place as int]@,
            ));
        }
        push_fallback(&mut out, all[place]);
        k += 1;
    }
    proof {
        assert(fallbacks_at(ranked).take(ranked.len() as int) =~= fallbacks_at(ranked));
    }
    cut_fallbacks(out, max_results)
}

/// The reference to a tool that was found.
pub open spec fn reference_to(name: Seq<char>) -> JsonView {
    JsonView::Object(
        seq![("tool_name"@, JsonView::Str(name)), ("type"@, JsonView::Str("tool_reference"@))],
    )
}

/// The reference to a tool that is not offered.
pub open spec fn absence_of(f: FallbackView) -> JsonView {
    JsonView::Object(
        seq![
            ("reason"@, JsonView::Str(f.reason)),
            ("tool_name"@, JsonView::Str(f.name)),
            ("type"@, JsonView::Str("unavailable_tool_reference"@)),
        ],
    )
}

/// The references to the tools that were found.
pub open spec fn references(names: Seq<Seq<char>>) -> Seq<JsonView> {
    names.map_values(|n: Seq<char>| reference_to(n))
}

/// The references to the tools that are not offered.
pub open spec fn absences(list: Seq<FallbackView>) -> Seq<JsonView> {
    list.map_values(|f: FallbackView| absence_of(f))
}

/// The answer of a search.
pub open spec fn search_answer(names: Seq<Seq<char>>, absent: Seq<FallbackView>) -> ToolResultView {
    ToolResultView {
        content: json_text(
            JsonView::Object(
                seq![
                    ("tool_references"@, JsonView::Array(references(names))),
                    ("type"@, JsonView::Str("tool_search_tool_search_result"@)),
                    ("unavailable_tool_references"@, JsonView::Array(absences(absent))),
                ],
            ),
        ),
        success: true,
        metadata: Some(
            JsonView::Object(
                seq![
                    (
                        "tool_references"@,
                        JsonView::Array(crate::json::text_values(names)),
                    ),
                    ("unavailable_tool_references"@, JsonView::Array(absences(absent))),
                ],
            ),
        ),
    }
}

fn reference_array(names: &Vec<String>) -> (r: Json)
    ensures
        r@ == JsonView::Array(references(texts(names@))),
{
    let mut out: Vec<Json> = Vec::new();
    let mut i: usize = 0;
    while i < names.len()
        invariant
            i <= names@.len(),
            out@.len() == i,
            forall|j: int| 0 <= j < i ==> (#[trigger] out@[j])@ == reference_to(names@[j]@),
        decreases names@.len() - i,
    {
        out.push(
            crate::json::object2(
                "tool_name",
                Json::Str(names[i].clone()),
                "type",
                crate::json::text_value("tool_reference"),
            ),
        );
        i += 1;
    }
    proof {
        lemma_json_views(out@);
        assert(json_views(out@) =~= references(texts(names@)));
    }
    Json::Array(out)
}

fn absence_array(list: &Vec<CoreActionToolFallback>) -> (r: Json)
    ensures
        r@ == JsonView::Array(absences(fallback_views(list@))),
{
    let mut out: Vec<Json> = Vec::new();
    let mut i: usize = 0;
    while i < list.len()
        invariant
            i <= list@.len(),
            out@.len() == i,
            forall|j: int| 0 <= j < i ==> (#[trigger] out@[j])@ == absence_of(list@[j]@),
        decreases list@.len() - i,
    {
        out.push(
            crate::json::object3(
                "reason",
                crate::json::text_value(list[i].unavailable_reason),
                "tool_name",
                crate::json::text_value(list[i].name),
                "type",
                crate::json::text_value("unavailable_tool_reference"),
            ),
        );
        i += 1;
    }
    proof {
        lemma_json_views(out@);
        assert(json_views(out@) =~= absences(fallback_views(list@)));
    }
    Json::Array(out)
}

/// The answer of a search.
pub fn tool_search_answer(names: &Vec<String>, absent: &Vec<CoreActionToolFallback>) -> (r:
    ToolResult)
    ensures
        r@ == search_answer(texts(names@), fallback_views(absent@)),
{
    let payload = crate::json::object3(
        "tool_references",
        reference_array(names),
        "type",
        crate::json::text_value("tool_search_tool_search_result"),
        "unavailable_tool_references",
        absence_array(absent),
    );
    let metadata = crate::json::object2(
        "tool_references",
        crate::json::text_array(names),
        "unavailable_tool_references",
        absence_array(absent),
    );
    ToolResult { content: render_json(&payload), success: true, metadata: Some(metadata) }
}

/// The way a search compares: the old names of the tool fix it, else the input
/// may choose.
pub open spec fn match_kind(tool_name: Seq<char>, input: JsonView) -> Seq<char> {
    if tool_name == "tool_search_tool_regex"@ {
        "regex"@
    } else if tool_name == "tool_search_tool_bm25"@ {
        "bm25"@
    } else {
        crate::context::or_else(input.text_field("match"@), "bm25"@)
    }
}

/// How many results a search returns at most: between one and a hundred.
pub open spec fn result_cap(input: JsonView) -> nat {
    let asked = crate::context::or_else(
        crate::context::unsigned_field(input, "max_results"@),
        20u64,
    );
    let n = if asked <= usize::MAX {
        asked as nat
    } else {
        20
    };
    if n < 1 {
        1
    } else if n > 100 {
        100
    } else {
        n
    }
}

/// The tools that are not active yet.
pub open spec fn idle_tools(catalog: Seq<ToolView>, active: Set<Seq<char>>) -> Seq<ToolView> {
    catalog.filter(|t: ToolView| !active.contains(t.name))
}

fn idle_of(catalog: &Vec<Tool>, active: &NameSet) -> (r: Vec<Tool>)
    ensures
        tool_views(r@) == idle_tools(tool_views(catalog@), active@),
{
    let ghost all = tool_views(catalog@);
    let ghost set = active@;
    let ghost idle = |t: ToolView| !set.contains(t.name);
    let mut out: Vec<Tool> = Vec::new();
    let mut i: usize = 0;
    proof {
        reveal(Seq::filter);
        assert(all.take(0) =~= Seq::empty());
        assert(tool_views(out@) =~= all.take(0).filter(idle));
    }
    while i < catalog.len()
        invariant
            i <= catalog@.len(),
            all == tool_views(catalog@),
            set == active@,
            idle == (|t: ToolView| !set.contains(t.name)),
            tool_views(out@) == all.take(i as int).filter(idle),
        decreases catalog@.len() - i,
    {
        proof {
            reveal(Seq::filter);
            assert(all.take(i + 1).drop_last() =~= all.take(i as int));
            assert(all.take(i + 1).last() == catalog@[i as int]@);
        }
        if !active.contains(catalog[i].name.as_str()) {
            push_tool(&mut out, catalog[i].clone());
        }
        i += 1;
    }
    proof {
        assert(all.take(all.len() as int) =~= all);
        assert(all.filter(idle) =~= idle_tools(all, active@));
    }
    out
}

/// What a search finds: the tools of the catalog that fit and are not active yet,
/// and of the tools that act those that fit and are not offered, as far as the cap
/// allows.
pub open spec fn search_findings(
    tool_name: Seq<char>,
    input: JsonView,
    catalog: Seq<ToolView>,
    active: Set<Seq<char>>,
) -> Result<(Seq<Seq<char>>, Seq<FallbackView>), ToolErrorView> {
    match input.text_field("query"@) {
        None => Err(ToolErrorView::MissingField("query"@)),
        Some(query) => {
            let kind = match_kind(tool_name, input);
            let cap = result_cap(input);
            if kind == "regex"@ {
                match tools_by_pattern(idle_tools(catalog, active), query, cap) {
                    Err(e) => Err(e),
                    Ok(names) => match absent_tools_by_pattern(
                        catalog,
                        query,
                        if names.len() <= cap {
                            (cap - names.len()) as nat
                        } else {
                            0
                        },
                    ) {
                        Err(e) => Err(e),
                        Ok(absent) => Ok((names, absent)),
                    },
                }
            } else if kind == "bm25"@ {
                let names = tools_by_words(idle_tools(catalog, active), query, cap);
                Ok(
                    (
                        names,
                        absent_tools_by_words(
                            catalog,
                            query,
                            if names.len() <= cap {
                                (cap - names.len()) as nat
                            } else {
                                0
                            },
                        ),
                    ),
                )
            } else {
                Err(
                    ToolErrorView::InvalidInput(
                        "Unsupported match algorithm '"@ + kind
                            + "'. Expected one of: bm25, regex"@,
                    ),
                )
            }
        },
    }
}

fn result_cap_of(input: &Json) -> (r: usize)
    ensures
        r == result_cap(input@),
        1 <= r <= 100,
{
    let asked: u64 = match input.get("max_results") {
        Some(v) => match v.as_u64() {
            Some(n) => n,
            None => 20,
        },
        None => 20,
    };
    let n: usize = if asked <= usize::MAX as u64 {
        asked as usize
    } else {
        20
    };
    if n < 1 {
        1
    } else if n > 100 {
        100
    } else {
        n
    }
}

/// Searches the tools of the catalog that are not active yet, and makes what it
/// finds active. Where the search fails nothing changes.
pub fn execute_tool_search(
    tool_name: &str,
    input: &Json,
    catalog: &Vec<Tool>,
    active_tools: &mut NameSet,
) -> (r: Result<ToolResult, ToolError>)
    ensures
        match search_findings(
            tool_name@,
            input@,
            tool_views(catalog@),
            old(active_tools)@,
        ) {
            Ok((names, absent)) => {
                &&& r is Ok
                &&& r->Ok_0@ == search_answer(names, absent)
                &&& final(active_tools)@ == old(active_tools)@.union(names.to_set())
            },
            Err(e) => {
                &&& r is Err
                &&& r->Err_0@ == e
                &&& final(active_tools)@ == old(active_tools)@
            },
        },
{
    let query = match input.get_str("query") {
        Some(q) => q,
        None => return Err(ToolError::MissingField { field: "query".to_owned() }),
    };
    let kind = if same_text(tool_name, "tool_search_tool_regex") {
        "regex"
    } else if same_text(tool_name, "tool_search_tool_bm25") {
        "bm25"
    } else {
        match input.get_str("match") {
            Some(k) => k,
            None => "bm25",
        }
    };
    assert(kind@ == match_kind(tool_name@, input@));
    let regex = same_text(kind, "regex");
    if !regex && !same_text(kind, "bm25") {
        let mut message = concat("Unsupported match algorithm '", kind);
        message.append("'. Expected one of: bm25, regex");
        return Err(ToolError::InvalidInput { message });
    }
    let cap = result_cap_of(input);
    let idle = idle_of(catalog, active_tools);
    let names = if regex {
        match discover_tools_with_regex(&idle, query, cap) {
            Ok(v) => v,
            Err(e) => return Err(e),
        }
    } else {
        discover_tools_with_bm25_like(&idle, query, cap)
    };
    assert(texts(names@).len() == names@.len());
    let left: usize = cap.saturating_sub(names.len());
    let absent = if regex {
        match unavailable_core_action_tools_with_regex(catalog, query, left) {
            Ok(v) => v,
            Err(e) => return Err(e),
        }
    } else {
        unavailable_core_action_tools_with_bm25_like(catalog, query, left)
    };
    let found = NameSet::from_names(&names);
    active_tools.extend(&found);
    Ok(tool_search_answer(&names, &absent))
}

proof fn lemma_pattern_hits_from(catalog: Seq<ToolView>, pattern: Seq<char>, n: nat, i: int)
    requires
        n <= catalog.len(),
        0 <= i < pattern_hits(catalog, pattern, n).len(),
    ensures
        exists|k: int|
            0 <= k < n && (#[trigger] catalog[k]).name == pattern_hits(catalog, pattern, n)[i]
                && !is_search_tool(catalog[k].name),
    decreases n,
{
    if n > 0 {
        let before = pattern_hits(catalog, pattern, (n - 1) as nat);
        if i < before.len() {
            lemma_pattern_hits_from(catalog, pattern, (n - 1) as nat, i);
            let k = choose|k: int|
                0 <= k < n - 1 && (#[trigger] catalog[k]).name == before[i] && !is_search_tool(
                    catalog[k].name,
                );
            assert(catalog[k].name == pattern_hits(catalog, pattern, n)[i]);
        } else {
            assert(catalog[n - 1].name == pattern_hits(catalog, pattern, n)[i]);
        }
    }
}

proof fn lemma_tool_hits_from(catalog: Seq<ToolView>, terms: Seq<Seq<char>>, n: nat, i: int)
    requires
        n <= catalog.len(),
        0 <= i < tool_hits(catalog, terms, n).len(),
    ensures
        exists|k: int|
            0 <= k < n && (#[trigger] catalog[k]).name == tool_hits(catalog, terms, n)[i].name
                && !is_search_tool(catalog[k].name),
    decreases n,
{
    if n > 0 {
        let before = tool_hits(catalog, terms, (n - 1) as nat);
        if i < before.len() {
            lemma_tool_hits_from(catalog, terms, (n - 1) as nat, i);
            let k = choose|k: int|
                0 <= k < n - 1 && (#[trigger] catalog[k]).name == before[i].name
                    && !is_search_tool(catalog[k].name);
            assert(catalog[k].name == tool_hits(catalog, terms, n)[i].name);
        } else {
            assert(catalog[n - 1].name == tool_hits(catalog, terms, n)[i].name);
        }
    }
}

proof fn lemma_words_find(catalog: Seq<ToolView>, query: Seq<char>, max: nat, i: int)
    requires
        0 <= i < tools_by_words(catalog, query, max).len(),
    ensures
        exists|k: int|
            0 <= k < catalog.len() && (#[trigger] catalog[k]).name == tools_by_words(
                catalog,
                query,
                max,
            )[i] && !is_search_tool(catalog[k].name),
{
    broadcast use vstd::seq_lib::group_to_multiset_ensures;

    let terms = search_terms(query);
    let before = |a: Hit, b: Hit| hit_before(a, b);
    let hits = tool_hits(catalog, terms, catalog.len());
    let sorted = sort_by(hits, before);
    crate::order::lemma_sort_contents(hits, before);
    assert(tools_by_words(catalog, query, max)[i] == sorted[i].name);
    assert(sorted.contains(sorted[i]));
    assert(sorted.to_multiset().count(sorted[i]) > 0);
    assert(hits.to_multiset().count(sorted[i]) > 0);
    assert(hits.contains(sorted[i]));
    let j = choose|j: int| 0 <= j < hits.len() && hits[j] == sorted[i];
    lemma_tool_hits_from(catalog, terms, catalog.len(), j);
}

proof fn lemma_idle_tools(catalog: Seq<ToolView>, active: Set<Seq<char>>, k: int)
    requires
        0 <= k < idle_tools(catalog, active).len(),
    ensures
        !active.contains(idle_tools(catalog, active)[k].name),
        catalog.contains(idle_tools(catalog, active)[k]),
{
    let idle = |t: ToolView| !active.contains(t.name);
    let found = catalog.filter(idle);
    catalog.lemma_filter_pred(idle, k);
    assert(idle(found[k]));
    catalog.lemma_filter_contains_rev(idle, found[k]);
}

/// A search names tools of the catalog alone: none that is active already, and
/// none that searches.
pub proof fn law_searches_find_what_waits(
    tool_name: Seq<char>,
    input: JsonView,
    catalog: Seq<ToolView>,
    active: Set<Seq<char>>,
)
    ensures
        search_findings(tool_name, input, catalog, active) matches Ok(found) ==> forall|i: int|
            0 <= i < found.0.len() ==> {
                &&& !active.contains(#[trigger] found.0[i])
                &&& !is_search_tool(found.0[i])
                &&& has_tool(catalog, found.0[i])
            },
{
    if let Ok(found) = search_findings(tool_name, input, catalog, active) {
        let query = input.text_field("query"@)->Some_0;
        let idle = idle_tools(catalog, active);
        let cap = result_cap(input);
        assert forall|i: int| 0 <= i < found.0.len() implies {
            &&& !active.contains(#[trigger] found.0[i])
            &&& !is_search_tool(found.0[i])
            &&& has_tool(catalog, found.0[i])
        } by {
            if match_kind(tool_name, input) == "regex"@ {
                assert(found.0[i] == pattern_hits(idle, query, idle.len())[i]);
                lemma_pattern_hits_from(idle, query, idle.len(), i);
            } else {
                lemma_words_find(idle, query, cap, i);
            }
            let k = choose|k: int|
                0 <= k < idle.len() && (#[trigger] idle[k]).name == found.0[i] && !is_search_tool(
                    idle[k].name,
                );
            lemma_idle_tools(catalog, active, k);
            let j = choose|j: int| 0 <= j < catalog.len() && catalog[j] == idle[k];
            assert(catalog[j].name == found.0[i]);
        }
    }
}

// ---------------------------------------------------------------------------
// Tools that are missing
// ---------------------------------------------------------------------------

/// A tool without a handler of its own: it searches, runs code, or belongs to a
/// remote server.
pub open spec fn is_synthetic(name: Seq<char>, mcp: Set<Seq<char>>) -> bool {
    is_search_tool(name) || name == "code_execution"@ || name == "js_execution"@ || mcp.contains(
        name,
    )
}

/// Whether a tool has no handler of its own. `mcp_tools` holds the names of the
/// tools of remote servers.
pub fn is_synthetic_catalog_tool(name: &str, mcp_tools: &NameSet) -> (r: bool)
    ensures
        r == is_synthetic(name@, mcp_tools@),
{
    is_tool_search_tool(name) || same_text(name, "code_execution") || same_text(
        name,
        "js_execution",
    ) || mcp_tools.contains(name)
}

/// The complaints about the first `n` tools of the catalog: each that has no
/// handler.
pub open spec fn handler_issues(
    catalog: Seq<ToolView>,
    registered: Set<Seq<char>>,
    mcp: Set<Seq<char>>,
    n: nat,
) -> Seq<Seq<char>>
    decreases n,
{
    if n == 0 {
        Seq::empty()
    } else {
        let before = handler_issues(catalog, registered, mcp, (n - 1) as nat);
        let name = catalog[n - 1].name;
        if !is_synthetic(name, mcp) && !registered.contains(name) {
            before.push(
                "catalog advertises '"@ + name + "' but no registered handler exists"@,
            )
        } else {
            before
        }
    }
}

/// The complaints about the first `n` core tools: each that is registered and
/// not in the catalog.
pub open spec fn core_issues(
    before: Seq<Seq<char>>,
    catalog: Seq<ToolView>,
    visible: Set<Seq<char>>,
    n: nat,
) -> Seq<Seq<char>>
    decreases n,
{
    if n == 0 {
        before
    } else {
        let list = core_issues(before, catalog, visible, (n - 1) as nat);
        let name = core_tools()[n - 1];
        if visible.contains(name) && !has_tool(catalog, name) {
            list.push(
                "registered core tool '"@ + name + "' is missing from the model/search catalog"@,
            )
        } else {
            list
        }
    }
}

/// The complaints about a catalog, in order.
pub open spec fn catalog_issues(
    catalog: Seq<ToolView>,
    registered: Set<Seq<char>>,
    visible: Set<Seq<char>>,
    mcp: Set<Seq<char>>,
) -> Seq<Seq<char>> {
    texts_in_order(
        core_issues(
            handler_issues(catalog, registered, mcp, catalog.len()),
            catalog,
            visible,
            core_tools().len(),
        ),
    )
}

/// The complaints about a catalog: tools that it offers and nobody handles, and
/// core tools that are registered and that it lacks. `registered` holds the
/// names of all handlers, `model_visible` those that are meant for a model,
/// `mcp_tools` those of remote servers.
pub fn tool_catalog_consistency_issues(
    catalog: &Vec<Tool>,
    registered: &NameSet,
    model_visible: &NameSet,
    mcp_tools: &NameSet,
) -> (r: Vec<String>)
    ensures
        texts(r@) == catalog_issues(
            tool_views(catalog@),
            registered@,
            model_visible@,
            mcp_tools@,
        ),
{
    let ghost all = tool_views(catalog@);
    let mut issues: Vec<String> = Vec::new();
    let mut i: usize = 0;
    proof {
        assert(texts(issues@) =~= Seq::empty());
    }
    while i < catalog.len()
        invariant
            i <= catalog@.len(),
            all == tool_views(catalog@),
            texts(issues@) == handler_issues(all, registered@, mcp_tools@, i as nat),
        decreases catalog@.len() - i,
    {
        assert(all[i as int] == catalog@[i as int]@);
        let name = catalog[i].name.as_str();
        if !is_synthetic_catalog_tool(name, mcp_tools) && !registered.contains(name) {
            let mut issue = concat("catalog advertises '", name);
            issue.append("' but no registered handler exists");
            push_line(&mut issues, issue);
        }
        i += 1;
    }
    let core = default_active_native_tool_names();
    let ghost first = texts(issues@);
    let mut k: usize = 0;
    while k < core.len()
        invariant
            k <= core@.len(),
            all == tool_views(catalog@),
            consts(core@) == core_tools(),
            texts(issues@) == core_issues(first, all, model_visible@, k as nat),
        decreases core@.len() - k,
    {
        assert(consts(core@)[k as int] == core@[k as int]@);
        if model_visible.contains(core[k]) && !catalog_contains_tool(catalog, core[k]) {
            let mut issue = concat("registered core tool '", core[k]);
            issue.append("' is missing from the model/search catalog");
            push_line(&mut issues, issue);
        }
        k += 1;
    }
    assert(consts(core@).len() == core@.len());
    sort_texts(&issues)
}

/// Names by which models ask for entries of a checklist.
pub open spec fn is_checklist_name(name: Seq<char>) -> bool {
    ||| name == "item"@
    ||| name == "items"@
    ||| name == "todo"@
    ||| name == "todos"@
    ||| name == "checklist"@
    ||| name == "checklist_item"@
    ||| name == "plan_item"@
}

/// The tools that run shell commands.
pub open spec fn is_shell_tool(name: Seq<char>) -> bool {
    ||| name == "exec_shell"@
    ||| name == "exec_shell_wait"@
    ||| name == "exec_shell_interact"@
    ||| name == "task_shell_start"@
    ||| name == "task_shell_wait"@
}

/// Whether a tool runs shell commands.
pub fn is_shell_tool_name(tool_name: &str) -> (r: bool)
    ensures
        r == is_shell_tool(tool_name@),
{
    same_text(tool_name, "exec_shell") || same_text(tool_name, "exec_shell_wait") || same_text(
        tool_name,
        "exec_shell_interact",
    ) || same_text(tool_name, "task_shell_start") || same_text(tool_name, "task_shell_wait")
}

/// Why shell tools are not there, and how to get them.
pub open spec fn shell_hint() -> Seq<char> {
    "Shell tools are absent because this session or profile disabled shell access, commonly via top-level `allow_shell = false` or Plan mode. Interactive Act mode exposes shell by default with approval gating unless disabled. Run `/config allow_shell true` for this session or add `--save` for future sessions; the next turn will expose shell again"@
}

/// Why shell tools are not there, and how to get them.
pub fn shell_tool_allow_shell_hint() -> (r: &'static str)
    ensures
        r@ == shell_hint(),
{
    "Shell tools are absent because this session or profile disabled shell access, commonly via top-level `allow_shell = false` or Plan mode. Interactive Act mode exposes shell by default with approval gating unless disabled. Run `/config allow_shell true` for this session or add `--save` for future sessions; the next turn will expose shell again"
}

/// What a model is told that calls a tool which is not offered.
pub open spec fn missing_tool_text(tool_name: Seq<char>, catalog: Seq<ToolView>) -> Seq<char> {
    let intro = "Tool '"@ + tool_name + "' is not available in the current tool catalog. "@;
    if is_checklist_name(tool_name) {
        intro
            + "Checklist entries are not separate tool calls — write the whole list in one `work_update` call with a `todos` array of {content, status} objects."@
    } else {
        let names = suggestions(catalog, tool_name, 3);
        let shell = is_shell_tool(tool_name);
        if names.len() == 0 {
            if shell {
                intro + shell_hint() + ", or use tool_search with a short query."@
            } else {
                intro + "Verify mode/feature flags, or use tool_search with a short query."@
            }
        } else {
            let hinted = intro + "Did you mean: "@ + joined(names, ", "@) + "? "@;
            if shell {
                hinted + shell_hint() + ". You can also use tool_search to discover tools."@
            } else {
                hinted + "You can also use tool_search to discover tools."@
            }
        }
    }
}

/// What a model is told that calls a tool which is not offered.
pub fn missing_tool_error_message(tool_name: &str, catalog: &Vec<Tool>) -> (r: String)
    ensures
        r@ == missing_tool_text(tool_name@, tool_views(catalog@)),
{
    let mut out = concat("Tool '", tool_name);
    out.append("' is not available in the current tool catalog. ");
    if same_text(tool_name, "item") || same_text(tool_name, "items") || same_text(tool_name, "todo")
        || same_text(tool_name, "todos") || same_text(tool_name, "checklist") || same_text(
        tool_name,
        "checklist_item",
    ) || same_text(tool_name, "plan_item") {
        out.append(
            "Checklist entries are not separate tool calls — write the whole list in one `work_update` call with a `todos` array of {content, status} objects.",
        );
        return out;
    }
    let names = suggest_tool_names(catalog, tool_name, 3);
    assert(texts(names@).len() == names@.len());
    let shell = is_shell_tool_name(tool_name);
    if names.len() == 0 {
        if shell {
            out.append(shell_tool_allow_shell_hint());
            out.append(", or use tool_search with a short query.");
        } else {
            out.append("Verify mode/feature flags, or use tool_search with a short query.");
        }
        return out;
    }
    out.append("Did you mean: ");
    let list = join(&names, ", ");
    out.append(list.as_str());
    out.append("? ");
    if shell {
        out.append(shell_tool_allow_shell_hint());
        out.append(". You can also use tool_search to discover tools.");
    } else {
        out.append("You can also use tool_search to discover tools.");
    }
    out
}

// ---------------------------------------------------------------------------
// Tools that waited
// ---------------------------------------------------------------------------

/// The strings in a list of values.
pub open spec fn string_items(items: Seq<JsonView>) -> Seq<Seq<char>>
    decreases items.len(),
{
    if items.len() == 0 {
        Seq::empty()
    } else {
        let front = string_items(items.drop_last());
        match items.last() {
            JsonView::Str(s) => front.push(s),
            _ => front,
        }
    }
}

fn strings_in(items: &Vec<Json>) -> (r: Vec<String>)
    ensures
        texts(r@) == string_items(json_views(items@)),
{
    let ghost all = json_views(items@);
    let mut out: Vec<String> = Vec::new();
    let mut i: usize = 0;
    proof {
        lemma_json_views(items@);
        assert(all.take(0) =~= Seq::empty());
        assert(texts(out@) =~= Seq::empty());
    }
    while i < items.len()
        invariant
            i <= items@.len(),
            all == json_views(items@),
            all.len() == items@.len(),
            forall|j: int| 0 <= j < items@.len() ==> #[trigger] all[j] == items@[j].view(),
            texts(out@) == string_items(all.take(i as int)),
        decreases items@.len() - i,
    {
        proof {
            assert(all.take(i + 1).drop_last() =~= all.take(i as int));
            assert(all.take(i + 1).last() == items@[i as int].view());
        }
        if let Some(s) = items[i].as_str() {
            push_line(&mut out, s.to_owned());
        }
        i += 1;
    }
    proof {
        assert(all.take(all.len() as int) =~= all);
    }
    out
}

/// The type of a parameter in words, with its choices where it lists any.
pub open spec fn type_label(spec: JsonView) -> Seq<char> {
    match spec.text_field("type"@) {
        None => "value"@,
        Some(kind) => {
            let labels = match spec.items_field("enum"@) {
                Some(items) => string_items(items),
                None => Seq::empty(),
            };
            if labels.len() > 0 {
                kind + " ("@ + joined(labels, " | "@) + ")"@
            } else {
                kind
            }
        },
    }
}

/// The type of a parameter in words, with its choices where it lists any.
pub fn schema_type_label(spec: &Json) -> (r: String)
    ensures
        r@ == type_label(spec@),
{
    let kind = match spec.get_str("type") {
        Some(k) => k,
        None => return "value".to_owned(),
    };
    if let Some(values) = spec.get_array("enum") {
        let labels = strings_in(values);
        assert(texts(labels@).len() == labels@.len());
        if labels.len() > 0 {
            let mut out = concat(kind, " (");
            let list = join(&labels, " | ");
            out.append(list.as_str());
            out.append(")");
            return out;
        }
    }
    kind.to_owned()
}

/// The parameters of a tool with their types, by name.
pub open spec fn fields_of(schema: JsonView) -> Seq<(Seq<char>, Seq<char>)> {
    match schema.field("properties"@) {
        Some(JsonView::Object(members)) => sort_by(
            members.map_values(|m: (Seq<char>, JsonView)| (m.0, type_label(m.1))),
            |a: (Seq<char>, Seq<char>), b: (Seq<char>, Seq<char>)| text_before(a.0, b.0),
        ),
        _ => Seq::empty(),
    }
}

/// A parameter of a tool with its type in words.
#[derive(Debug)]
pub struct SchemaField {
    pub name: String,
    pub kind: String,
}

/// The views of a list of parameters.
pub open spec fn field_views(s: Seq<SchemaField>) -> Seq<(Seq<char>, Seq<char>)> {
    s.map_values(|f: SchemaField| (f.name@, f.kind@))
}

/// The parameters of a tool with their types, by name.
pub fn schema_fields(schema: &Json) -> (r: Vec<SchemaField>)
    ensures
        field_views(r@) == fields_of(schema@),
{
    let mut out: Vec<SchemaField> = Vec::new();
    proof {
        assert(field_views(out@) =~= Seq::empty());
    }
    let properties = match schema.get("properties") {
        Some(p) => p,
        None => return out,
    };
    let members = match properties.as_object() {
        Some(m) => m,
        None => return out,
    };
    let ghost before = |a: (Seq<char>, Seq<char>), b: (Seq<char>, Seq<char>)|
        text_before(a.0, b.0);
    let ghost all = member_views(members@).map_values(
        |m: (Seq<char>, JsonView)| (m.0, type_label(m.1)),
    );
    let mut i: usize = 0;
    proof {
        lemma_member_views(members@);
        assert(all.take(0) =~= Seq::empty());
    }
    while i < members.len()
        invariant
            i <= members@.len(),
            before == (|a: (Seq<char>, Seq<char>), b: (Seq<char>, Seq<char>)|
                text_before(a.0, b.0)),
            all == member_views(members@).map_values(
                |m: (Seq<char>, JsonView)| (m.0, type_label(m.1)),
            ),
            all.len() == members@.len(),
            member_views(members@).len() == members@.len(),
            forall|j: int|
                0 <= j < members@.len() ==> #[trigger] member_views(members@)[j] == (
                    members@[j].0@,
                    members@[j].1.view(),
                ),
            field_views(out@) == sort_by(all.take(i as int), before),
        decreases members@.len() - i,
    {
        let item = SchemaField {
            name: members[i].0.clone(),
            kind: schema_type_label(&members[i].1),
        };
        let ghost view = (item.name@, item.kind@);
        let mut p: usize = out.len();
        let ghost sorted = field_views(out@);
        while p > 0 && comes_before(item.name.as_str(), out[p - 1].name.as_str())
            invariant
                p <= out@.len(),
                before == (|a: (Seq<char>, Seq<char>), b: (Seq<char>, Seq<char>)|
                    text_before(a.0, b.0)),
                sorted == field_views(out@),
                view == (item.name@, item.kind@),
                forall|q: int| p <= q < sorted.len() ==> before(view, #[trigger] sorted[q]),
            decreases p,
        {
            assert(sorted[p - 1] == (out@[p - 1].name@, out@[p - 1].kind@));
            p -= 1;
        }
        proof {
            if p > 0 {
                assert(sorted[p - 1] == (out@[p - 1].name@, out@[p - 1].kind@));
            }
            lemma_insert_at(sorted, view, p as int, before);
            assert(member_views(members@)[i as int] == (
                members@[i as int].0@,
                members@[i as int].1.view(),
            ));
            assert(all.take(i + 1).drop_last() =~= all.take(i as int));
            assert(all.take(i + 1).last() == view);
        }
        out.insert(p, item);
        proof {
            assert(field_views(out@) =~= sorted.insert(p as int, view));
        }
        i += 1;
    }
    proof {
        assert(all.take(all.len() as int) =~= all);
    }
    out
}

/// The parameters that a tool requires, in order.
pub open spec fn required_of(schema: JsonView) -> Seq<Seq<char>> {
    match schema.items_field("required"@) {
        Some(items) => texts_in_order(string_items(items)),
        None => Seq::empty(),
    }
}

/// The parameters that a tool requires, in order.
pub fn schema_required_fields(schema: &Json) -> (r: Vec<String>)
    ensures
        texts(r@) == required_of(schema@),
{
    match schema.get_array("required") {
        Some(items) => {
            let list = strings_in(items);
            sort_texts(&list)
        },
        None => {
            let none: Vec<String> = Vec::new();
            proof {
                assert(texts(none@) =~= Seq::empty());
            }
            none
        },
    }
}

/// The names of the arguments that came, in order.
pub open spec fn received_of(input: JsonView) -> Seq<Seq<char>> {
    match input {
        JsonView::Object(members) => texts_in_order(
            members.map_values(|m: (Seq<char>, JsonView)| m.0),
        ),
        _ => Seq::empty(),
    }
}

/// The names of the arguments that came, in order.
pub fn received_field_names(input: &Json) -> (r: Vec<String>)
    ensures
        texts(r@) == received_of(input@),
{
    let mut names: Vec<String> = Vec::new();
    proof {
        assert(texts(names@) =~= Seq::empty());
    }
    match input.as_object() {
        None => names,
        Some(members) => {
            let ghost all = member_views(members@).map_values(|m: (Seq<char>, JsonView)| m.0);
            let mut i: usize = 0;
            proof {
                lemma_member_views(members@);
                assert(texts(names@) =~= all.take(0));
            }
            while i < members.len()
                invariant
                    i <= members@.len(),
                    all == member_views(members@).map_values(|m: (Seq<char>, JsonView)| m.0),
                    member_views(members@).len() == members@.len(),
                    forall|j: int|
                        0 <= j < members@.len() ==> #[trigger] member_views(members@)[j] == (
                            members@[j].0@,
                            members@[j].1.view(),
                        ),
                    texts(names@) == all.take(i as int),
                decreases members@.len() - i,
            {
                proof {
                    assert(member_views(members@)[i as int] == (
                        members@[i as int].0@,
                        members@[i as int].1.view(),
                    ));
                    assert(all.take(i + 1) =~= all.take(i as int).push(members@[i as int].0@));
                }
                push_line(&mut names, members[i].0.clone());
                i += 1;
            }
            proof {
                assert(all.take(all.len() as int) =~= all);
            }
            sort_texts(&names)
        },
    }
}

/// The texts of a list that are not in another.
pub open spec fn left_over(list: Seq<Seq<char>>, other: Seq<Seq<char>>) -> Seq<Seq<char>> {
    list.filter(|s: Seq<char>| !other.contains(s))
}

fn not_in(list: &Vec<String>, other: &Vec<String>) -> (r: Vec<String>)
    ensures
        texts(r@) == left_over(texts(list@), texts(other@)),
{
    let ghost all = texts(list@);
    let ghost others = texts(other@);
    let ghost keep = |s: Seq<char>| !others.contains(s);
    let mut out: Vec<String> = Vec::new();
    let mut i: usize = 0;
    proof {
        reveal(Seq::filter);
        assert(all.take(0) =~= Seq::empty());
        assert(texts(out@) =~= all.take(0).filter(keep));
    }
    while i < list.len()
        invariant
            i <= list@.len(),
            all == texts(list@),
            others == texts(other@),
            keep == (|s: Seq<char>| !others.contains(s)),
            texts(out@) == all.take(i as int).filter(keep),
        decreases list@.len() - i,
    {
        proof {
            reveal(Seq::filter);
            assert(all.take(i + 1).drop_last() =~= all.take(i as int));
            assert(all.take(i + 1).last() == list@[i as int]@);
        }
        if !one_of(other, list[i].as_str()) {
            push_line(&mut out, list[i].clone());
        }
        i += 1;
    }
    proof {
        assert(all.take(all.len() as int) =~= all);
        assert(all.filter(keep) =~= left_over(all, texts(other@)));
    }
    out
}

/// The names of parameters.
pub open spec fn field_names(fields: Seq<(Seq<char>, Seq<char>)>) -> Seq<Seq<char>> {
    fields.map_values(|f: (Seq<char>, Seq<char>)| f.0)
}

fn names_of(fields: &Vec<SchemaField>) -> (r: Vec<String>)
    ensures
        texts(r@) == field_names(field_views(fields@)),
{
    let ghost all = field_names(field_views(fields@));
    let mut out: Vec<String> = Vec::new();
    let mut i: usize = 0;
    proof {
        assert(texts(out@) =~= all.take(0));
    }
    while i < fields.len()
        invariant
            i <= fields@.len(),
            all == field_names(field_views(fields@)),
            texts(out@) == all.take(i as int),
        decreases fields@.len() - i,
    {
        proof {
            assert(all.take(i + 1) =~= all.take(i as int).push(fields@[i as int].name@));
        }
        push_line(&mut out, fields[i].name.clone());
        i += 1;
    }
    proof {
        assert(all.take(all.len() as int) =~= all);
    }
    out
}

/// Adds a text to a list where a condition holds.
pub open spec fn pushed_if(
    list: Seq<Seq<char>>,
    condition: bool,
    text: Seq<char>,
) -> Seq<Seq<char>> {
    if condition {
        list.push(text)
    } else {
        list
    }
}

/// An argument of `rlm_open` under a wrong name, where none of the right ones
/// came.
pub open spec fn wrong_source(received: Seq<Seq<char>>, name: Seq<char>) -> bool {
    received.contains(name) && !received.contains("file_path"@) && !received.contains("content"@)
        && !received.contains("url"@) && !received.contains("session_object"@)
}

/// The advice about arguments under wrong names.
pub open spec fn corrections_of(
    received: Seq<Seq<char>>,
    expected: Seq<Seq<char>>,
    tool_name: Seq<char>,
) -> Seq<Seq<char>> {
    let search = expected.contains("search"@);
    let replace = expected.contains("replace"@);
    let c1 = if received.contains("old_string"@) && search {
        seq!["old_string -> search"@]
    } else if received.contains("old_str"@) && search {
        seq!["old_str -> search"@]
    } else {
        Seq::empty()
    };
    let c2 = if received.contains("new_string"@) && replace {
        c1.push("new_string -> replace"@)
    } else if received.contains("new_str"@) && replace {
        c1.push("new_str -> replace"@)
    } else if received.contains("replacement"@) && replace {
        c1.push("replacement -> replace"@)
    } else {
        c1
    };
    let c3 = pushed_if(
        c2,
        (tool_name == "checklist_update"@ || tool_name == "todo_update"@) && received.contains(
            "todos"@,
        ),
        "Use work_update to replace the full list, or retry checklist_update/todo_update with id and status."@,
    );
    if tool_name == "rlm_open"@ {
        source_corrections(c3, received, 7)
    } else {
        c3
    }
}

/// The wrong names under which the source of `rlm_open` comes.
pub open spec fn wrong_source_names() -> Seq<Seq<char>> {
    seq!["prompt"@, "resident_file"@, "text"@, "body"@, "path"@, "file"@, "source"@]
}

/// The advice about the first `n` of the wrong names.
pub open spec fn source_corrections(
    before: Seq<Seq<char>>,
    received: Seq<Seq<char>>,
    n: nat,
) -> Seq<Seq<char>>
    decreases n,
{
    if n == 0 {
        before
    } else {
        let name = wrong_source_names()[n - 1];
        pushed_if(
            source_corrections(before, received, (n - 1) as nat),
            wrong_source(received, name),
            name
                + " -> file_path (local file), content (inline text), url, or session_object"@,
        )
    }
}

/// The advice about arguments under wrong names. `expected` holds the names of
/// the parameters.
pub fn likely_field_corrections(
    received: &Vec<String>,
    expected: &Vec<String>,
    tool_name: &str,
) -> (r: Vec<String>)
    ensures
        texts(r@) == corrections_of(texts(received@), texts(expected@), tool_name@),
{
    let search = one_of(expected, "search");
    let replace = one_of(expected, "replace");
    let mut out: Vec<String> = Vec::new();
    proof {
        assert(texts(out@) =~= Seq::empty());
    }
    if one_of(received, "old_string") && search {
        push_line(&mut out, "old_string -> search".to_owned());
        proof {
            assert(texts(out@) =~= seq!["old_string -> search"@]);
        }
    } else if one_of(received, "old_str") && search {
        push_line(&mut out, "old_str -> search".to_owned());
        proof {
            assert(texts(out@) =~= seq!["old_str -> search"@]);
        }
    }
    if one_of(received, "new_string") && replace {
        push_line(&mut out, "new_string -> replace".to_owned());
    } else if one_of(received, "new_str") && replace {
        push_line(&mut out, "new_str -> replace".to_owned());
    } else if one_of(received, "replacement") && replace {
        push_line(&mut out, "replacement -> replace".to_owned());
    }
    if (same_text(tool_name, "checklist_update") || same_text(tool_name, "todo_update"))
        && one_of(received, "todos") {
        push_line(
            &mut out,
            "Use work_update to replace the full list, or retry checklist_update/todo_update with id and status.".to_owned(),
        );
    }
    if same_text(tool_name, "rlm_open") {
        let wrong: Vec<&'static str> =
            vec!["prompt", "resident_file", "text", "body", "path", "file", "source"];
        proof {
            assert(consts(wrong@) =~= wrong_source_names());
        }
        let none_right = !one_of(received, "file_path") && !one_of(received, "content") && !one_of(
            received,
            "url",
        ) && !one_of(received, "session_object");
        let ghost start = texts(out@);
        let ghost got = texts(received@);
        let mut i: usize = 0;
        while i < wrong.len()
            invariant
                i <= wrong@.len(),
                wrong@.len() == 7,
                got == texts(received@),
                consts(wrong@) == wrong_source_names(),
                none_right == (!got.contains("file_path"@) && !got.contains("content"@)
                    && !got.contains("url"@) && !got.contains("session_object"@)),
                texts(out@) == source_corrections(start, got, i as nat),
            decreases wrong@.len() - i,
        {
            assert(consts(wrong@)[i as int] == wrong@[i as int]@);
            if one_of(received, wrong[i]) && none_right {
                push_line(
                    &mut out,
                    concat(
                        wrong[i],
                        " -> file_path (local file), content (inline text), url, or session_object",
                    ),
                );
            }
            i += 1;
        }
    }
    out
}

/// The lines about the first `n` parameters.
pub open spec fn field_lines(
    before: Seq<Seq<char>>,
    fields: Seq<(Seq<char>, Seq<char>)>,
    required: Seq<Seq<char>>,
    n: nat,
) -> Seq<Seq<char>>
    decreases n,
{
    if n == 0 {
        before
    } else {
        field_lines(before, fields, required, (n - 1) as nat).push(
            "  "@ + fields[n - 1].0 + ": "@ + fields[n - 1].1 + (if required.contains(
                fields[n - 1].0,
            ) {
                " required"@
            } else {
                ""@
            }),
        )
    }
}

/// The lines about the first `n` pieces of advice.
pub open spec fn indented(before: Seq<Seq<char>>, list: Seq<Seq<char>>, n: nat) -> Seq<Seq<char>>
    decreases n,
{
    if n == 0 {
        before
    } else {
        indented(before, list, (n - 1) as nat).push("  "@ + list[n - 1])
    }
}

/// A heading with a list behind it, after an empty line; nothing for an empty
/// list.
pub open spec fn listed(before: Seq<Seq<char>>, heading: Seq<char>, list: Seq<Seq<char>>) -> Seq<
    Seq<char>,
> {
    if list.len() == 0 {
        before
    } else {
        before.push(""@).push(heading).push("  "@ + joined(list, ", "@))
    }
}

/// The lines by which a model learns the parameters of a tool that waited.
pub open spec fn hydration_lines(
    name: Seq<char>,
    fields: Seq<(Seq<char>, Seq<char>)>,
    required: Seq<Seq<char>>,
    received: Seq<Seq<char>>,
    missing: Seq<Seq<char>>,
    unexpected: Seq<Seq<char>>,
    corrections: Seq<Seq<char>>,
) -> Seq<Seq<char>> {
    let head = Seq::empty().push("Tool `"@ + name + "` was deferred and has now been loaded."@).push(
        ""@,
    ).push("The tool was not executed. Retry with the loaded schema."@).push(""@).push(
        "Expected fields:"@,
    );
    let expected = if fields.len() == 0 {
        head.push("  (none)"@)
    } else {
        field_lines(head, fields, required, fields.len())
    };
    let got = expected.push(""@).push("Received fields:"@).push(
        if received.len() == 0 {
            "  (none)"@
        } else {
            "  "@ + joined(received, ", "@)
        },
    );
    let l1 = listed(got, "Missing required fields:"@, missing);
    let l2 = listed(l1, "Unexpected fields:"@, unexpected);
    if corrections.len() == 0 {
        l2
    } else {
        indented(l2.push(""@).push("Likely corrections:"@), corrections, corrections.len())
    }
}

/// The answer to the first call of a tool that waited: the call was not made,
/// and here is how to make it.
pub open spec fn hydration_answer(tool: ToolView, input: JsonView) -> ToolResultView {
    let fields = fields_of(tool.input_schema);
    let expected = field_names(fields);
    let required = required_of(tool.input_schema);
    let received = received_of(input);
    let missing = left_over(required, received);
    let unexpected = left_over(received, expected);
    let corrections = corrections_of(received, expected, tool.name);
    ToolResultView {
        content: joined(
            hydration_lines(
                tool.name,
                fields,
                required,
                received,
                missing,
                unexpected,
                corrections,
            ),
            "\n"@,
        ),
        success: true,
        metadata: Some(
            JsonView::Object(
                Seq::empty().push(("deferred_tool_loaded"@, JsonView::Bool(true))).push(
                    ("event"@, JsonView::Str("tool.schema_hydrated"@)),
                ).push(("executed"@, JsonView::Bool(false))).push(
                    ("expected_fields"@, JsonView::Array(crate::json::text_values(expected))),
                ).push(
                    (
                        "likely_corrections"@,
                        JsonView::Array(crate::json::text_values(corrections)),
                    ),
                ).push(
                    (
                        "missing_required_fields"@,
                        JsonView::Array(crate::json::text_values(missing)),
                    ),
                ).push(("reason"@, JsonView::Str("deferred_tool_first_use"@))).push(
                    ("received_fields"@, JsonView::Array(crate::json::text_values(received))),
                ).push(("retry_required"@, JsonView::Bool(true))).push(
                    ("tool"@, JsonView::Str(tool.name)),
                ).push(("tool_name"@, JsonView::Str(tool.name))).push(
                    ("unexpected_fields"@, JsonView::Array(crate::json::text_values(unexpected))),
                ),
            ),
        ),
    }
}

fn push_listed(lines: &mut Vec<String>, heading: &str, list: &Vec<String>)
    ensures
        texts(final(lines)@) == listed(texts(old(lines)@), heading@, texts(list@)),
{
    assert(texts(list@).len() == list@.len());
    if list.len() > 0 {
        push_line(lines, "".to_owned());
        push_line(lines, heading.to_owned());
        let all = join(list, ", ");
        push_line(lines, concat("  ", all.as_str()));
    }
}

/// The answer to the first call of a tool that waited.
pub fn deferred_tool_schema_hydration_result(tool: &Tool, tool_input: &Json) -> (r: ToolResult)
    ensures
        r@ == hydration_answer(tool@, tool_input@),
{
    let fields = schema_fields(&tool.input_schema);
    let expected = names_of(&fields);
    let required = schema_required_fields(&tool.input_schema);
    let received = received_field_names(tool_input);
    let missing = not_in(&required, &received);
    let unexpected = not_in(&received, &expected);
    let corrections = likely_field_corrections(&received, &expected, tool.name.as_str());
    let ghost fv = field_views(fields@);
    let ghost req = texts(required@);
    let ghost cor = texts(corrections@);
    let mut lines: Vec<String> = Vec::new();
    proof {
        assert(texts(lines@) =~= Seq::empty());
    }
    let mut first = concat("Tool `", tool.name.as_str());
    first.append("` was deferred and has now been loaded.");
    push_line(&mut lines, first);
    push_line(&mut lines, "".to_owned());
    push_line(&mut lines, "The tool was not executed. Retry with the loaded schema.".to_owned());
    push_line(&mut lines, "".to_owned());
    push_line(&mut lines, "Expected fields:".to_owned());
    let ghost head = texts(lines@);
    if fields.len() == 0 {
        push_line(&mut lines, "  (none)".to_owned());
    } else {
        let mut i: usize = 0;
        while i < fields.len()
            invariant
                i <= fields@.len(),
                fv == field_views(fields@),
                req == texts(required@),
                texts(lines@) == field_lines(head, fv, req, i as nat),
            decreases fields@.len() - i,
        {
            assert(fv[i as int] == (fields@[i as int].name@, fields@[i as int].kind@));
            let mut line = concat("  ", fields[i].name.as_str());
            line.append(": ");
            line.append(fields[i].kind.as_str());
            if one_of(&required, fields[i].name.as_str()) {
                line.append(" required");
            } else {
                line.append("");
            }
            push_line(&mut lines, line);
            i += 1;
        }
    }
    push_line(&mut lines, "".to_owned());
    push_line(&mut lines, "Received fields:".to_owned());
    assert(texts(received@).len() == received@.len());
    if received.len() == 0 {
        push_line(&mut lines, "  (none)".to_owned());
    } else {
        let all = join(&received, ", ");
        push_line(&mut lines, concat("  ", all.as_str()));
    }
    push_listed(&mut lines, "Missing required fields:", &missing);
    push_listed(&mut lines, "Unexpected fields:", &unexpected);
    assert(cor.len() == corrections@.len());
    if corrections.len() > 0 {
        push_line(&mut lines, "".to_owned());
        push_line(&mut lines, "Likely corrections:".to_owned());
        let ghost start = texts(lines@);
        let mut k: usize = 0;
        while k < corrections.len()
            invariant
                k <= corrections@.len(),
                cor == texts(corrections@),
                texts(lines@) == indented(start, cor, k as nat),
            decreases corrections@.len() - k,
        {
            assert(cor[k as int] == corrections@[k as int]@);
            push_line(&mut lines, concat("  ", corrections[k].as_str()));
            k += 1;
        }
    }
    proof {
        assert(texts(lines@) == hydration_lines(
            tool@.name,
            fv,
            req,
            texts(received@),
            texts(missing@),
            texts(unexpected@),
            cor,
        ));
    }
    let m0: Vec<(String, Json)> = Vec::new();
    let m1 = crate::json::with_pair(m0, "deferred_tool_loaded", Json::Bool(true));
    let m2 = crate::json::with_pair(
        m1,
        "event",
        crate::json::text_value("tool.schema_hydrated"),
    );
    let m3 = crate::json::with_pair(m2, "executed", Json::Bool(false));
    let m4 = crate::json::with_pair(m3, "expected_fields", crate::json::text_array(&expected));
    let m5 = crate::json::with_pair(
        m4,
        "likely_corrections",
        crate::json::text_array(&corrections),
    );
    let m6 = crate::json::with_pair(
        m5,
        "missing_required_fields",
        crate::json::text_array(&missing),
    );
    let m7 = crate::json::with_pair(
        m6,
        "reason",
        crate::json::text_value("deferred_tool_first_use"),
    );
    let m8 = crate::json::with_pair(m7, "received_fields", crate::json::text_array(&received));
    let m9 = crate::json::with_pair(m8, "retry_required", Json::Bool(true));
    let m10 = crate::json::with_pair(m9, "tool", Json::Str(tool.name.clone()));
    let m11 = crate::json::with_pair(m10, "tool_name", Json::Str(tool.name.clone()));
    let m12 = crate::json::with_pair(
        m11,
        "unexpected_fields",
        crate::json::text_array(&unexpected),
    );
    ToolResult { content: join(&lines, "\n"), success: true, metadata: Some(Json::Object(m12)) }
}

/// A call of a tool that waited and was not active when the batch began.
pub open spec fn first_use(
    tool_name: Seq<char>,
    catalog: Seq<ToolView>,
    active: Set<Seq<char>>,
) -> Option<ToolView> {
    match tool_place(catalog, tool_name, 0) {
        Some(i) => if waiting(catalog[i]) && !active.contains(tool_name) {
            Some(catalog[i])
        } else {
            None
        },
        None => None,
    }
}

/// Answers the first call of a tool that waited with its parameters, and notes
/// that it was loaded; any other call is let through.
pub fn maybe_hydrate_requested_deferred_tool(
    tool_name: &str,
    tool_input: &Json,
    catalog: &Vec<Tool>,
    active_tools_at_batch_start: &NameSet,
    hydrated_tools_this_batch: &mut NameSet,
) -> (r: Option<ToolResult>)
    ensures
        match first_use(tool_name@, tool_views(catalog@), active_tools_at_batch_start@) {
            Some(tool) => {
                &&& r is Some
                &&& r->0@ == hydration_answer(tool, tool_input@)
                &&& final(hydrated_tools_this_batch)@ == old(hydrated_tools_this_batch)@.insert(
                    tool_name@,
                )
            },
            None => r is None && final(hydrated_tools_this_batch)@ == old(
                hydrated_tools_this_batch,
            )@,
        },
{
    let place = match find_tool(catalog, tool_name) {
        Some(i) => i,
        None => return None,
    };
    assert(tool_views(catalog@)[place as int] == catalog@[place as int]@);
    let waits = match catalog[place].defer_loading {
        Some(b) => b,
        None => false,
    };
    if !waits || active_tools_at_batch_start.contains(tool_name) {
        return None;
    }
    hydrated_tools_this_batch.insert(tool_name);
    Some(deferred_tool_schema_hydration_result(&catalog[place], tool_input))
}

/// Makes a tool that waited active; tells whether that changed anything.
pub fn maybe_activate_requested_deferred_tool(
    tool_name: &str,
    catalog: &Vec<Tool>,
    active_tools: &mut NameSet,
) -> (r: bool)
    ensures
        r == (first_use(tool_name@, tool_views(catalog@), old(active_tools)@) is Some),
        final(active_tools)@ == if r {
            old(active_tools)@.insert(tool_name@)
        } else {
            old(active_tools)@
        },
{
    let place = match find_tool(catalog, tool_name) {
        Some(i) => i,
        None => return false,
    };
    assert(tool_views(catalog@)[place as int] == catalog@[place as int]@);
    let waits = match catalog[place].defer_loading {
        Some(b) => b,
        None => false,
    };
    if !waits || active_tools.contains(tool_name) {
        return false;
    }
    active_tools.insert(tool_name)
}

/// Answers the first call of a tool that waited, and makes it active.
pub fn preflight_requested_deferred_tool(
    tool_name: &str,
    tool_input: &Json,
    catalog: &Vec<Tool>,
    active_tools: &mut NameSet,
) -> (r: Option<ToolResult>)
    ensures
        match first_use(tool_name@, tool_views(catalog@), old(active_tools)@) {
            Some(tool) => {
                &&& r is Some
                &&& r->0@ == hydration_answer(tool, tool_input@)
                &&& final(active_tools)@ == old(active_tools)@.insert(tool_name@)
            },
            None => r is None && final(active_tools)@ == old(active_tools)@,
        },
{
    let at_start = active_tools.copy();
    let mut hydrated = NameSet::new();
    let ghost before = active_tools@;
    let result = maybe_hydrate_requested_deferred_tool(
        tool_name,
        tool_input,
        catalog,
        &at_start,
        &mut hydrated,
    );
    active_tools.extend(&hydrated);
    proof {
        if first_use(tool_name@, tool_views(catalog@), before) is Some {
            assert(active_tools@ =~= before.insert(tool_name@));
        } else {
            assert(active_tools@ =~= before);
        }
    }
    result
}

/// A tool that waited is answered with its parameters once: after that it is
/// active, and a second call is let through.
pub proof fn law_hydrated_once(
    tool_name: Seq<char>,
    catalog: Seq<ToolView>,
    active: Set<Seq<char>>,
)
    ensures
        first_use(tool_name, catalog, active.insert(tool_name)) is None,
{
}

} // verus!
