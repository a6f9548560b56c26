//! What tools are in the catalog, which of them are loaded, and what a model is told
//! of those that are not.

use crate::json::{json_text, law_single_members_are_read, JsonView};
use crate::laws::results::{lemma_holds_between, lemma_joined_holds};
use crate::laws::search::{holds, lemma_hit_order_strict};
use crate::models::{AppMode, ToolErrorView, ToolView};
use crate::order::{
    lemma_best_places, lemma_sort_in_order, lemma_sort_places, lemma_text_order_strict,
    places, sort_by, strict_order, texts_in_order,
};
use crate::text::{
    ascii_lower, begins_with, contains_text, is_space, joined, lemma_text_order_total,
    lemma_text_order_transitive, lowercase, text_before, trimmed, words_of,
};
use crate::tool_catalog::{
    absence_of, absent_by_pattern, absent_hits, absent_tools_by_pattern, absent_tools_by_words,
    action_tools, at_most, budgeted, candidate_before, candidate_names, core_issues, core_tools,
    corrections_of, distance, fallback_haystack, fallbacks_at, field_names, first_active,
    first_tried, first_use, handler_issues, has_tool, hit_before, hydration_answer, hydration_lines, is_bulky, is_search_tool,
    is_checklist_name, is_shell_tool, is_synthetic, left_over, match_kind, mcp_deferred, missing_tool_text, native_deferred,
    pattern_hits, received_of, reference_to, regex_matches, regex_refusal, required_of, resemblance, resemblances, result_cap,
    score, search_answer, search_findings, search_terms, shell_hint, shown_tools, stays_loaded, step_tools,
    string_items, suggestions, tool_haystack, tool_place, tools_by_pattern, tools_by_words,
    type_label, waiting, without_repeats, Candidate, FallbackView, Hit, ToolSurfaceBudget,
};
use vstd::prelude::*;

verus! {

// ---------------------------------------------------------------------------
// Which tools wait
// ---------------------------------------------------------------------------

/// Of the program's own tools those at its core, those that search and those that the
/// user wants are loaded at once, and all others wait. Nothing else of them changes.
pub proof fn law_own_tools_at_the_core_are_loaded(
    tools: Seq<ToolView>,
    always_load: Set<Seq<char>>,
    i: int,
)
    requires
        0 <= i < tools.len(),
    ensures
        ({
            let after = native_deferred(tools, always_load);
            let t = tools[i];
            &&& after.len() == tools.len()
            &&& after[i] == (ToolView { defer_loading: after[i].defer_loading, ..t })
            &&& always_load.contains(t.name) || core_tools().contains(t.name) || t.name
                == "tool_search"@ ==> after[i].defer_loading == Some(false)
            &&& !always_load.contains(t.name) && !core_tools().contains(t.name) && !is_search_tool(
                t.name,
            ) ==> after[i].defer_loading == Some(true)
        }),
{
}

/// Of the tools of remote servers all wait, except for those that only read, those that
/// the user wants, and where the session has full authority.
pub proof fn law_remote_tools_wait(
    tools: Seq<ToolView>,
    mode: AppMode,
    always_load: Set<Seq<char>>,
    i: int,
)
    requires
        0 <= i < tools.len(),
    ensures
        ({
            let after = mcp_deferred(tools, mode, always_load);
            let t = tools[i];
            &&& after.len() == tools.len()
            &&& after[i] == (ToolView { defer_loading: after[i].defer_loading, ..t })
            &&& always_load.contains(t.name) || mode == AppMode::Yolo || stays_loaded(t.name)
                ==> after[i].defer_loading == Some(false)
            &&& !always_load.contains(t.name) && mode != AppMode::Yolo && !stays_loaded(t.name)
                ==> after[i].defer_loading == Some(true)
            &&& t.name == "list_mcp_resources"@ || t.name == "mcp_read_resource"@
                ==> after[i].defer_loading == Some(false)
        }),
{
}

/// Where there is little room the bulky tools wait too, unless the user wants them;
/// else nothing changes.
pub proof fn law_bulky_tools_wait_where_room_is_short(
    tools: Seq<ToolView>,
    budget: ToolSurfaceBudget,
    always_load: Set<Seq<char>>,
    i: int,
)
    requires
        0 <= i < tools.len(),
    ensures
        budget != ToolSurfaceBudget::Compact ==> budgeted(tools, budget, always_load) == tools,
        budget == ToolSurfaceBudget::Compact && is_bulky(tools[i].name) && !always_load.contains(
            tools[i].name,
        ) ==> budgeted(tools, budget, always_load)[i].defer_loading == Some(true),
        !is_bulky(tools[i].name) || always_load.contains(tools[i].name) ==> budgeted(
            tools,
            budget,
            always_load,
        )[i] == tools[i],
        budgeted(tools, budget, always_load).len() == tools.len(),
        budgeted(tools, budget, always_load)[i].name == tools[i].name,
{
}

/// The tools that are active first are all that do not wait and those that search, and
/// no other where there is one of them.
pub proof fn law_loaded_tools_are_active(catalog: Seq<ToolView>, i: int)
    requires
        0 <= i < catalog.len(),
    ensures
        catalog[i].defer_loading != Some(true) || is_search_tool(catalog[i].name) ==> first_active(
            catalog,
        ).contains(catalog[i].name),
        forall|name: Seq<char>|
            first_active(catalog).contains(name) && (exists|k: int|
                0 <= k < catalog.len() && (!waiting(#[trigger] catalog[k]) || is_search_tool(
                    catalog[k].name,
                ))) ==> exists|k: int|
                0 <= k < catalog.len() && (#[trigger] catalog[k]).name == name && (!waiting(
                    catalog[k],
                ) || is_search_tool(name)),
{
    let p = |t: ToolView| !waiting(t) || is_search_tool(t.name);
    let ready = catalog.filter(p);
    let names = crate::tool_catalog::tool_names(ready);
    assert forall|k: int| 0 <= k < catalog.len() && p(#[trigger] catalog[k]) implies names.contains(
        catalog[k].name,
    ) && ready.len() > 0 by {
        catalog.lemma_filter_contains(p, k);
        let j = choose|j: int| 0 <= j < ready.len() && ready[j] == catalog[k];
        assert(names[j] == catalog[k].name);
    }
    assert forall|name: Seq<char>|
        first_active(catalog).contains(name) && (exists|k: int|
            0 <= k < catalog.len() && (!waiting(#[trigger] catalog[k]) || is_search_tool(
                catalog[k].name,
            ))) implies exists|k: int|
        0 <= k < catalog.len() && (#[trigger] catalog[k]).name == name && (!waiting(catalog[k])
            || is_search_tool(name)) by {
        let k = choose|k: int|
            0 <= k < catalog.len() && (!waiting(#[trigger] catalog[k]) || is_search_tool(
                catalog[k].name,
            ));
        assert(p(catalog[k]));
        assert(names.contains(name));
        let j = choose|j: int| 0 <= j < names.len() && names[j] == name;
        catalog.lemma_filter_pred(p, j);
        assert(ready.contains(ready[j]));
        catalog.lemma_filter_contains_rev(p, ready[j]);
        let q = choose|q: int| 0 <= q < catalog.len() && catalog[q] == ready[j];
        assert(catalog[q].name == name);
    }
}

proof fn lemma_filtered(catalog: Seq<ToolView>, p: spec_fn(ToolView) -> bool, t: ToolView)
    ensures
        catalog.filter(p).contains(t) <==> catalog.contains(t) && p(t),
{
    if catalog.contains(t) && p(t) {
        let i = choose|i: int| 0 <= i < catalog.len() && catalog[i] == t;
        catalog.lemma_filter_contains(p, i);
    }
    if catalog.filter(p).contains(t) {
        let i = choose|i: int| 0 <= i < catalog.filter(p).len() && catalog.filter(p)[i] == t;
        catalog.lemma_filter_pred(p, i);
        catalog.lemma_filter_contains_rev(p, t);
    }
}

/// A model is shown the tools that are active, all of them and no other, those that
/// waited last. Where the plan is to be written first, it is shown that tool alone.
pub proof fn law_active_tools_are_shown(
    catalog: Seq<ToolView>,
    active: Set<Seq<char>>,
    t: ToolView,
)
    ensures
        shown_tools(catalog, active).contains(t) <==> catalog.contains(t) && active.contains(
            t.name,
        ),
        forall|i: int, j: int|
            0 <= i < j < shown_tools(catalog, active).len() && waiting(
                #[trigger] shown_tools(catalog, active)[i],
            ) ==> waiting(#[trigger] shown_tools(catalog, active)[j]),
        step_tools(catalog, active, false) == shown_tools(catalog, active),
        has_tool(catalog, "update_plan"@) ==> (step_tools(catalog, active, true).contains(t)
            <==> catalog.contains(t) && t.name == "update_plan"@),
        !has_tool(catalog, "update_plan"@) ==> step_tools(catalog, active, true) == shown_tools(
            catalog,
            active,
        ),
{
    let p = |t: ToolView| active.contains(t.name) && !waiting(t);
    let q = |t: ToolView| active.contains(t.name) && waiting(t);
    let r = |t: ToolView| t.name == "update_plan"@;
    let a = catalog.filter(p);
    let b = catalog.filter(q);
    let all = shown_tools(catalog, active);
    lemma_filtered(catalog, p, t);
    lemma_filtered(catalog, q, t);
    lemma_filtered(catalog, r, t);
    if a.contains(t) {
        let i = choose|i: int| 0 <= i < a.len() && a[i] == t;
        assert(all[i] == t);
    }
    if b.contains(t) {
        let i = choose|i: int| 0 <= i < b.len() && b[i] == t;
        assert(all[a.len() + i] == t);
    }
    assert forall|i: int, j: int| 0 <= i < j < all.len() && waiting(#[trigger] all[i]) implies waiting(
        #[trigger] all[j],
    ) by {
        if i < a.len() {
            catalog.lemma_filter_pred(p, i);
        } else {
            catalog.lemma_filter_pred(q, j - a.len());
        }
    }
    let forced = catalog.filter(r);
    if has_tool(catalog, "update_plan"@) {
        let i = choose|i: int| 0 <= i < catalog.len() && (#[trigger] catalog[i]).name
            == "update_plan"@;
        catalog.lemma_filter_contains(r, i);
    } else if forced.len() > 0 {
        catalog.lemma_filter_pred(r, 0);
        assert(forced.contains(forced[0]));
        catalog.lemma_filter_contains_rev(r, forced[0]);
        let i = choose|i: int| 0 <= i < catalog.len() && catalog[i] == forced[0];
        assert(catalog[i].name == "update_plan"@);
    }
}

/// A tool is loaded at its first use exactly where it is in the catalog, waits, and is
/// not active yet.
pub proof fn law_first_uses_load(
    tool_name: Seq<char>,
    catalog: Seq<ToolView>,
    active: Set<Seq<char>>,
    i: int,
)
    requires
        0 <= i < catalog.len(),
        catalog[i].name == tool_name,
        forall|j: int| 0 <= j < i ==> (#[trigger] catalog[j]).name != tool_name,
    ensures
        first_use(tool_name, catalog, active) is Some <==> catalog[i].defer_loading == Some(true)
            && !active.contains(tool_name),
        first_use(tool_name, catalog, active) matches Some(t) ==> t == catalog[i],
{
    lemma_place(catalog, tool_name, 0, i);
}

proof fn lemma_place(catalog: Seq<ToolView>, name: Seq<char>, from: int, i: int)
    requires
        0 <= from <= i < catalog.len(),
        catalog[i].name == name,
        forall|j: int| from <= j < i ==> (#[trigger] catalog[j]).name != name,
    ensures
        tool_place(catalog, name, from) == Some(i),
    decreases i - from,
{
    if from < i {
        lemma_place(catalog, name, from + 1, i);
    }
}

// ---------------------------------------------------------------------------
// What a search looks at
// ---------------------------------------------------------------------------

/// A search looks at the name, the description and the form of a tool, in small
/// letters.
pub proof fn law_searches_look_at_all_of_a_tool(tool: ToolView)
    ensures
        holds(tool_haystack(tool), lowercase(tool.name)),
        holds(tool_haystack(tool), lowercase(tool.description)),
        holds(tool_haystack(tool), lowercase(json_text(tool.input_schema))),
{
    lemma_three(
        lowercase(tool.name),
        lowercase(tool.description),
        lowercase(json_text(tool.input_schema)),
    );
}

/// Of a tool that is absent a search looks at the name, the description and the reason.
pub proof fn law_searches_look_at_absent_tools(f: FallbackView)
    ensures
        holds(fallback_haystack(f), lowercase(f.name)),
        holds(fallback_haystack(f), lowercase(f.description)),
        holds(fallback_haystack(f), lowercase(f.reason)),
{
    lemma_three(lowercase(f.name), lowercase(f.description), lowercase(f.reason));
}

proof fn lemma_three(a: Seq<char>, b: Seq<char>, c: Seq<char>)
    ensures
        holds(a + "\n"@ + b + "\n"@ + c, a),
        holds(a + "\n"@ + b + "\n"@ + c, b),
        holds(a + "\n"@ + b + "\n"@ + c, c),
{
    let none = Seq::<char>::empty();
    let nl = "\n"@;
    let all = a + nl + b + nl + c;
    assert(all =~= none + a + (nl + b + nl + c));
    lemma_holds_between(none, a, nl + b + nl + c);
    assert(all =~= (a + nl) + b + (nl + c));
    lemma_holds_between(a + nl, b, nl + c);
    assert(all =~= (a + nl + b + nl) + c + none);
    lemma_holds_between(a + nl + b + nl, c, none);
}

/// The terms of a query are its words, in small letters.
#[verifier::rlimit(40)]
pub proof fn law_words_are_terms(word: Seq<char>, rest: Seq<char>)
    requires
        word.len() > 0,
        forall|i: int| 0 <= i < word.len() ==> !is_space(#[trigger] word[i]),
        rest.len() > 0 ==> is_space(rest[0]),
    ensures
        search_terms(word + rest) == (if lowercase(word).len() > 0 {
            seq![lowercase(word)] + search_terms(rest)
        } else {
            search_terms(rest)
        }),
        search_terms(Seq::empty()).len() == 0,
{
    let none = Seq::<char>::empty();
    crate::laws::texts::law_texts_are_cut_into_words(none, word, rest);
    assert(none + word + rest =~= word + rest);
    let low = |w: Seq<char>| lowercase(trimmed(w));
    let p = |t: Seq<char>| t.len() > 0;
    assert(crate::text::trim_front(word) == word);
    assert(crate::text::trim_back(word) == word);
    let first = seq![lowercase(word)];
    assert(words_of(word + rest).map_values(low) =~= first + words_of(rest).map_values(low));
    Seq::filter_distributes_over_add(first, words_of(rest).map_values(low), p);
    reveal_with_fuel(Seq::filter, 3);
    assert(first.drop_last() =~= Seq::<Seq<char>>::empty());
    assert(first.last() == lowercase(word));
    assert(first.drop_last().filter(p) =~= Seq::<Seq<char>>::empty());
    assert(Seq::<Seq<char>>::empty().push(lowercase(word)) =~= first);
    assert(first.filter(p) =~= (if lowercase(word).len() > 0 {
        first
    } else {
        Seq::empty()
    }));
    assert(words_of(none).len() == 0);
    assert(words_of(none).map_values(low) =~= Seq::<Seq<char>>::empty());
    assert(Seq::<Seq<char>>::empty() + search_terms(rest) =~= search_terms(rest));
}

/// A search by pattern gives all tools that match and do not themselves search, in the
/// order of the catalog, and no other.
pub proof fn law_patterns_find_all(catalog: Seq<ToolView>, pattern: Seq<char>, n: nat)
    requires
        n < catalog.len(),
    ensures
        pattern_hits(catalog, pattern, 0).len() == 0,
        !is_search_tool(catalog[n as int].name) && regex_matches(
            pattern,
            tool_haystack(catalog[n as int]),
        ) ==> pattern_hits(catalog, pattern, n + 1) == pattern_hits(catalog, pattern, n).push(
            catalog[n as int].name,
        ),
        is_search_tool(catalog[n as int].name) || !regex_matches(
            pattern,
            tool_haystack(catalog[n as int]),
        ) ==> pattern_hits(catalog, pattern, n + 1) == pattern_hits(catalog, pattern, n),
{
}

/// A pattern that cannot be read is refused, with the reason; another gives as many of
/// the tools that match as there is room for, the first of them.
pub proof fn law_patterns_are_bounded(catalog: Seq<ToolView>, pattern: Seq<char>, max: nat)
    requires
        max > 0,
    ensures
        regex_refusal(pattern) matches Some(why) ==> tools_by_pattern(catalog, pattern, max)
            == Err::<Seq<Seq<char>>, ToolErrorView>(
            ToolErrorView::InvalidInput("Invalid regex query: "@ + why),
        ),
        regex_refusal(pattern) is None ==> (tools_by_pattern(catalog, pattern, max) matches Ok(names)
            && names.len() <= max && names.is_prefix_of(
            pattern_hits(catalog, pattern, catalog.len()),
        ) && (names.len() == max || names == pattern_hits(catalog, pattern, catalog.len()))),
{
}

// ---------------------------------------------------------------------------
// Tools that are absent
// ---------------------------------------------------------------------------

proof fn lemma_absent_hits(catalog: Seq<ToolView>, terms: Seq<Seq<char>>, n: nat)
    requires
        n <= 4,
    ensures
        ({
            let hits = absent_hits(catalog, terms, n);
            &&& hits.len() <= n
            &&& forall|i: int|
                0 <= i < hits.len() ==> {
                    let h = #[trigger] hits[i];
                    let f = action_tools()[h.place];
                    &&& 0 <= h.place < n
                    &&& h.name == f.name
                    &&& h.score == score(terms, fallback_haystack(f), lowercase(f.name), terms.len())
                    &&& h.score > 0
                    &&& !has_tool(catalog, f.name)
                }
        }),
    decreases n,
{
    if n > 0 {
        lemma_absent_hits(catalog, terms, (n - 1) as nat);
    }
}

/// How well an absent tool fits a query.
pub open spec fn absent_fit(f: FallbackView, query: Seq<char>) -> int {
    score(
        search_terms(query),
        fallback_haystack(f),
        lowercase(f.name),
        search_terms(query).len(),
    )
}

/// Tools that could be there and are not are named with the reason, those that fit a
/// query and no other, the best first.
#[verifier::rlimit(40)]
pub proof fn law_absent_tools_are_named(catalog: Seq<ToolView>, query: Seq<char>, max: nat)
    ensures
        ({
            let out = absent_tools_by_words(catalog, query, max);
            &&& out.len() <= max
            &&& forall|i: int|
                0 <= i < out.len() ==> {
                    &&& action_tools().contains(#[trigger] out[i])
                    &&& !has_tool(catalog, out[i].name)
                    &&& absent_fit(out[i], query) > 0
                }
            &&& forall|i: int, j: int|
                0 <= i < j < out.len() ==> absent_fit(#[trigger] out[i], query) >= absent_fit(
                    #[trigger] out[j],
                    query,
                )
        }),
{
    let terms = search_terms(query);
    let hits = absent_hits(catalog, terms, 4);
    let before = |a: Hit, b: Hit| hit_before(a, b);
    let sorted = sort_by(hits, before);
    let out = absent_tools_by_words(catalog, query, max);
    lemma_absent_hits(catalog, terms, 4);
    lemma_hit_order_strict();
    let m: nat = if hits.len() <= max {
        hits.len()
    } else {
        max
    };
    let at = lemma_best_places(hits, before, m);
    assert(out == at_most(fallbacks_at(sorted), max));
    assert(out.len() == m);
    assert(action_tools().len() == 4);
    assert forall|i: int| 0 <= i < out.len() implies {
        &&& action_tools().contains(#[trigger] out[i])
        &&& !has_tool(catalog, out[i].name)
        &&& absent_fit(out[i], query) > 0
        &&& out[i] == action_tools()[hits[at[i]].place]
    } by {
        assert(sorted[i] == hits[at[i]]);
        assert(out[i] == action_tools()[sorted[i].place]);
    }
    assert forall|i: int, j: int| 0 <= i < j < out.len() implies absent_fit(
        #[trigger] out[i],
        query,
    ) >= absent_fit(#[trigger] out[j], query) by {
        assert(0 <= at[i] < hits.len() && 0 <= at[j] < hits.len());
        assert(out[i] == action_tools()[hits[at[i]].place]);
        assert(out[j] == action_tools()[hits[at[j]].place]);
        assert(!before(hits[at[j]], hits[at[i]]));
    }
}

/// The tools that could be there are those that act on the workspace.
pub proof fn law_tools_that_could_be_there()
    ensures
        action_tools().len() == 4,
        action_tools()[0].name == "exec_shell"@,
        action_tools()[1].name == "write_file"@,
        action_tools()[2].name == "edit_file"@,
        action_tools()[3].name == "apply_patch"@,
{
}

proof fn lemma_absent_by_pattern(catalog: Seq<ToolView>, pattern: Seq<char>, n: nat)
    requires
        n <= 4,
    ensures
        absent_by_pattern(catalog, pattern, n).len() <= n,
        forall|i: int|
            0 <= i < absent_by_pattern(catalog, pattern, n).len() ==> {
                let f = #[trigger] absent_by_pattern(catalog, pattern, n)[i];
                &&& action_tools().contains(f)
                &&& !has_tool(catalog, f.name)
                &&& regex_matches(pattern, fallback_haystack(f))
            },
        forall|k: int|
            0 <= k < n && !has_tool(catalog, (#[trigger] action_tools()[k]).name) && regex_matches(
                pattern,
                fallback_haystack(action_tools()[k]),
            ) ==> absent_by_pattern(catalog, pattern, n).contains(action_tools()[k]),
    decreases n,
{
    if n > 0 {
        lemma_absent_by_pattern(catalog, pattern, (n - 1) as nat);
        let before = absent_by_pattern(catalog, pattern, (n - 1) as nat);
        let all = absent_by_pattern(catalog, pattern, n);
        assert(action_tools().len() == 4);
        assert(action_tools().contains(action_tools()[n - 1]));
        assert forall|k: int|
            0 <= k < n && !has_tool(catalog, (#[trigger] action_tools()[k]).name) && regex_matches(
                pattern,
                fallback_haystack(action_tools()[k]),
            ) implies all.contains(action_tools()[k]) by {
            if k == n - 1 {
                assert(all[before.len() as int] == action_tools()[k]);
            } else {
                assert(before.contains(action_tools()[k]));
                let i = choose|i: int| 0 <= i < before.len() && before[i] == action_tools()[k];
                assert(all[i] == action_tools()[k]);
            }
        }
    }
}

/// Absent tools that match a pattern are named, all of them where there is room.
pub proof fn law_absent_tools_by_pattern(catalog: Seq<ToolView>, pattern: Seq<char>, max: nat)
    ensures
        absent_tools_by_pattern(catalog, pattern, max) matches Ok(list) ==> {
            &&& list.len() <= max
            &&& forall|i: int|
                0 <= i < list.len() ==> !has_tool(catalog, (#[trigger] list[i]).name)
                    && regex_matches(pattern, fallback_haystack(list[i]))
            &&& max >= 4 ==> forall|k: int|
                0 <= k < 4 && !has_tool(catalog, (#[trigger] action_tools()[k]).name)
                    && regex_matches(pattern, fallback_haystack(action_tools()[k])) ==> list.contains(
                    action_tools()[k],
                )
        },
        absent_tools_by_pattern(catalog, pattern, max) is Err <==> max > 0 && regex_refusal(pattern)
            is Some,
{
    lemma_absent_by_pattern(catalog, pattern, 4);
    if let Ok(list) = absent_tools_by_pattern(catalog, pattern, max) {
        let all = absent_by_pattern(catalog, pattern, 4);
        if max > 0 {
            assert forall|i: int| 0 <= i < list.len() implies #[trigger] list[i] == all[i] by {}
        }
    }
}

// ---------------------------------------------------------------------------
// Answers of a search
// ---------------------------------------------------------------------------

/// A search gives no more than it was asked for, which is at least one and at most a
/// hundred, and twenty where nothing is said.
pub proof fn law_searches_are_bounded(
    tool_name: Seq<char>,
    input: JsonView,
    catalog: Seq<ToolView>,
    active: Set<Seq<char>>,
)
    ensures
        1 <= result_cap(input) <= 100,
        input.field("max_results"@) is None ==> result_cap(input) == 20,
        input.field("max_results"@) matches Some(JsonView::PosInt(n)) ==> 1 <= n <= 100
            ==> result_cap(input) == n,
        input.text_field("query"@) is None ==> search_findings(tool_name, input, catalog, active)
            == Err::<(Seq<Seq<char>>, Seq<FallbackView>), ToolErrorView>(
            ToolErrorView::MissingField("query"@),
        ),
        search_findings(tool_name, input, catalog, active) matches Ok(found) ==> found.0.len()
            + found.1.len() <= result_cap(input),
{
    if let Some(query) = input.text_field("query"@) {
        let idle = crate::tool_catalog::idle_tools(catalog, active);
        let cap = result_cap(input);
        let names = tools_by_words(idle, query, cap);
        assert(names.len() <= cap);
        law_absent_tools_are_named(catalog, query, (cap - names.len()) as nat);
        law_patterns_are_bounded(idle, query, cap);
        if let Ok(found) = tools_by_pattern(idle, query, cap) {
            law_absent_tools_by_pattern(catalog, query, (cap - found.len()) as nat);
        }
    }
}

/// A search is by pattern or by words as its name says; one whose name says neither is
/// as it is asked, and by words where nothing is said.
pub proof fn law_searches_are_of_their_kind(tool_name: Seq<char>, input: JsonView)
    ensures
        match_kind("tool_search_tool_regex"@, input) == "regex"@,
        match_kind("tool_search_tool_bm25"@, input) == "bm25"@,
        tool_name == "tool_search"@ ==> (input.text_field("match"@) matches Some(kind) ==> match_kind(
            tool_name,
            input,
        ) == kind),
        tool_name == "tool_search"@ && input.text_field("match"@) is None ==> match_kind(
            tool_name,
            input,
        ) == "bm25"@,
{
    reveal_strlit("tool_search");
    reveal_strlit("tool_search_tool_regex");
    reveal_strlit("tool_search_tool_bm25");
    assert("tool_search"@.len() == 11 && "tool_search_tool_regex"@.len() == 22
        && "tool_search_tool_bm25"@.len() == 21);
}

/// An answer names each tool that was found, and each that is absent with the reason.
pub proof fn law_answers_name_the_tools(name: Seq<char>, f: FallbackView)
    ensures
        reference_to(name).text_field("tool_name"@) == Some(name),
        absence_of(f).text_field("tool_name"@) == Some(f.name),
        absence_of(f).text_field("reason"@) == Some(f.reason),
{
    reveal_strlit("tool_name");
    reveal_strlit("reason");
    reveal_strlit("type");
    assert("tool_name"@.len() == 9 && "reason"@.len() == 6 && "type"@.len() == 4);
    law_single_members_are_read(reference_to(name)->Object_0, 0);
    law_single_members_are_read(absence_of(f)->Object_0, 0);
    law_single_members_are_read(absence_of(f)->Object_0, 1);
}

/// What a search found stands in its answer, one for one and in order.
pub proof fn law_findings_stand_in_the_answer(names: Seq<Seq<char>>, absent: Seq<FallbackView>)
    ensures
        ({
            let answer = search_answer(names, absent);
            &&& answer.success
            &&& answer.metadata matches Some(meta)
            &&& meta.items_field("tool_references"@) matches Some(list)
            &&& list.len() == names.len()
            &&& forall|i: int| 0 <= i < list.len() ==> #[trigger] list[i] == JsonView::Str(names[i])
            &&& meta.items_field("unavailable_tool_references"@) matches Some(gone)
            &&& gone.len() == absent.len()
            &&& forall|i: int| 0 <= i < gone.len() ==> #[trigger] gone[i] == absence_of(absent[i])
        }),
{
    reveal_strlit("tool_references");
    reveal_strlit("unavailable_tool_references");
    assert("tool_references"@.len() == 15 && "unavailable_tool_references"@.len() == 27);
    let m = search_answer(names, absent).metadata->0->Object_0;
    law_single_members_are_read(m, 0);
    law_single_members_are_read(m, 1);
}

// ---------------------------------------------------------------------------
// Suggestions
// ---------------------------------------------------------------------------

/// A name resembles what was asked for where one begins with the other, where one
/// stands in the other, or where three changes make one of the other; in this order.
pub proof fn law_names_resemble(name: Seq<char>, requested: Seq<char>)
    ensures
        resemblance(name, requested) is Some <==> contains_text(ascii_lower(name), requested)
            || contains_text(requested, ascii_lower(name)) || distance(ascii_lower(name), requested)
            <= 3,
        resemblance(name, requested) matches Some(c) ==> {
            &&& c.name == name
            &&& c.distance == distance(ascii_lower(name), requested)
            &&& begins_with(ascii_lower(name), requested) || begins_with(
                requested,
                ascii_lower(name),
            ) <==> c.rank == 0
            &&& c.rank == 2 <==> !contains_text(ascii_lower(name), requested) && !contains_text(
                requested,
                ascii_lower(name),
            )
        },
{
    let c = ascii_lower(name);
    if begins_with(c, requested) {
        assert(crate::text::occurs_at(c, requested, 0));
    }
    if begins_with(requested, c) {
        assert(crate::text::occurs_at(requested, c, 0));
    }
}

/// Candidates come by kind, then by how far they are off, then by name.
pub proof fn law_candidates_are_ordered(a: Candidate, b: Candidate)
    ensures
        a.rank < b.rank ==> candidate_before(a, b) && !candidate_before(b, a),
        a.rank == b.rank && a.distance < b.distance ==> candidate_before(a, b) && !candidate_before(
            b,
            a,
        ),
        a.rank == b.rank && a.distance == b.distance && a.name != b.name ==> candidate_before(a, b)
            == text_before(a.name, b.name),
        !candidate_before(a, a),
{
    lemma_text_order_total(a.name, a.name);
}

proof fn lemma_resemblances(catalog: Seq<ToolView>, requested: Seq<char>, n: nat)
    requires
        n <= catalog.len(),
    ensures
        forall|i: int|
            0 <= i < resemblances(catalog, requested, n).len() ==> {
                let c = #[trigger] resemblances(catalog, requested, n)[i];
                exists|k: int|
                    0 <= k < n && resemblance((#[trigger] catalog[k]).name, requested) == Some(c)
            },
        forall|k: int|
            0 <= k < n ==> (resemblance((#[trigger] catalog[k]).name, requested) matches Some(c)
                ==> resemblances(catalog, requested, n).contains(c)),
    decreases n,
{
    if n > 0 {
        lemma_resemblances(catalog, requested, (n - 1) as nat);
        let before = resemblances(catalog, requested, (n - 1) as nat);
        let all = resemblances(catalog, requested, n);
        assert forall|i: int| 0 <= i < all.len() implies {
            let c = #[trigger] all[i];
            exists|k: int|
                0 <= k < n && resemblance((#[trigger] catalog[k]).name, requested) == Some(c)
        } by {
            if i < before.len() {
                assert(all[i] == before[i]);
                let k = choose|k: int|
                    0 <= k < n - 1 && resemblance((#[trigger] catalog[k]).name, requested) == Some(
                        before[i],
                    );
                assert(resemblance(catalog[k].name, requested) == Some(all[i]));
            } else {
                assert(resemblance(catalog[n - 1].name, requested) == Some(all[i]));
            }
        }
        assert forall|k: int| 0 <= k < n implies (resemblance(
            (#[trigger] catalog[k]).name,
            requested,
        ) matches Some(c) ==> all.contains(c)) by {
            if let Some(c) = resemblance(catalog[k].name, requested) {
                if k == n - 1 {
                    assert(all[before.len() as int] == c);
                } else {
                    assert(before.contains(c));
                    let i = choose|i: int| 0 <= i < before.len() && before[i] == c;
                    assert(all[i] == c);
                }
            }
        }
    }
}

proof fn lemma_repeats(s: Seq<Candidate>)
    ensures
        s.len() > 0 ==> without_repeats(s).len() > 0 && without_repeats(s)[0] == s[0],
        forall|i: int| 0 <= i < without_repeats(s).len() ==> s.contains(#[trigger] without_repeats(s)[i]),
        forall|i: int|
            0 <= i < s.len() ==> exists|k: int|
                0 <= k < without_repeats(s).len() && (#[trigger] without_repeats(s)[k]).name
                    == (#[trigger] s[i]).name,
    decreases s.len(),
{
    if s.len() > 0 {
        let front = s.drop_last();
        lemma_repeats(front);
        let before = without_repeats(front);
        let all = without_repeats(s);
        assert forall|i: int| 0 <= i < all.len() implies s.contains(#[trigger] all[i]) by {
            if i < before.len() {
                assert(front.contains(before[i]));
                let j = choose|j: int| 0 <= j < front.len() && front[j] == before[i];
                assert(s[j] == all[i]);
            } else {
                assert(s[s.len() - 1] == all[i]);
            }
        }
        assert forall|i: int| 0 <= i < s.len() implies exists|k: int|
            0 <= k < all.len() && (#[trigger] all[k]).name == (#[trigger] s[i]).name by {
            if i < s.len() - 1 {
                assert(front[i] == s[i]);
                let k = choose|k: int|
                    0 <= k < before.len() && (#[trigger] before[k]).name == front[i].name;
                assert(all[k].name == s[i].name);
            } else {
                assert(all[all.len() - 1].name == s[i].name);
            }
        }
    }
}

proof fn lemma_candidate_order_strict()
    ensures
        strict_order(|a: Candidate, b: Candidate| candidate_before(a, b)),
{
    let before = |a: Candidate, b: Candidate| candidate_before(a, b);
    assert forall|a: Candidate, b: Candidate| #[trigger] before(a, b) implies !before(b, a) by {
        lemma_text_order_total(a.name, b.name);
    }
    assert forall|a: Candidate, b: Candidate, c: Candidate|
        !(#[trigger] before(a, b)) && !(#[trigger] before(b, c)) implies !before(a, c) by {
        lemma_text_order_total(a.name, b.name);
        lemma_text_order_total(b.name, c.name);
        lemma_text_order_total(a.name, c.name);
        if a.rank == b.rank && b.rank == c.rank && a.distance == b.distance && b.distance
            == c.distance && a.name != b.name && b.name != c.name {
            lemma_text_order_transitive(c.name, b.name, a.name);
        }
    }
}

/// What is suggested are names of tools in the catalog that resemble the one asked for,
/// the one that does most first; something is suggested wherever one does.
#[verifier::rlimit(40)]
pub proof fn law_most_alike_comes_first(catalog: Seq<ToolView>, requested: Seq<char>, limit: nat)
    requires
        limit > 0,
        trimmed(requested).len() > 0,
    ensures
        ({
            let out = suggestions(catalog, requested, limit);
            let asked = ascii_lower(trimmed(requested));
            &&& out.len() <= limit
            &&& forall|i: int|
                0 <= i < out.len() ==> exists|k: int|
                    0 <= k < catalog.len() && (#[trigger] catalog[k]).name == #[trigger] out[i]
                        && resemblance(catalog[k].name, asked) is Some
            &&& forall|k: int|
                0 <= k < catalog.len() ==> (resemblance((#[trigger] catalog[k]).name, asked)
                    matches Some(c) ==> out.len() > 0 && exists|b: Candidate|
                    b.name == out[0] && resemblance(out[0], asked) == Some(b)
                        && !#[trigger] candidate_before(c, b))
        }),
{
    let asked = ascii_lower(trimmed(requested));
    let before = |a: Candidate, b: Candidate| candidate_before(a, b);
    let all = resemblances(catalog, asked, catalog.len());
    let sorted = sort_by(all, before);
    let kept = without_repeats(sorted);
    let out = suggestions(catalog, requested, limit);
    lemma_resemblances(catalog, asked, catalog.len());
    lemma_repeats(sorted);
    lemma_candidate_order_strict();
    lemma_sort_places(all, before);
    lemma_sort_in_order(all, before);
    assert(out == at_most(candidate_names(kept), limit));
    assert forall|c: Candidate| sorted.contains(c) implies all.contains(c) by {
        let i = choose|i: int| 0 <= i < sorted.len() && sorted[i] == c;
        assert(sorted[i] == all[places(all, before)[i]]);
    }
    assert forall|i: int| 0 <= i < out.len() implies exists|k: int|
        0 <= k < catalog.len() && (#[trigger] catalog[k]).name == #[trigger] out[i] && resemblance(
            catalog[k].name,
            asked,
        ) is Some by {
        assert(out[i] == kept[i].name);
        assert(sorted.contains(kept[i]));
        assert(all.contains(kept[i]));
        let j = choose|j: int| 0 <= j < all.len() && all[j] == kept[i];
        let k = choose|k: int|
            0 <= k < catalog.len() && resemblance((#[trigger] catalog[k]).name, asked) == Some(
                all[j],
            );
        law_names_resemble(catalog[k].name, asked);
        assert(catalog[k].name == out[i]);
    }
    assert forall|k: int| 0 <= k < catalog.len() implies (resemblance(
        (#[trigger] catalog[k]).name,
        asked,
    ) matches Some(c) ==> out.len() > 0 && exists|b: Candidate|
        b.name == out[0] && resemblance(out[0], asked) == Some(b) && !#[trigger] candidate_before(
            c,
            b,
        )) by {
        if let Some(c) = resemblance(catalog[k].name, asked) {
            assert(all.contains(c));
            let j = choose|j: int| 0 <= j < all.len() && all[j] == c;
            crate::order::lemma_permutation_reaches(places(all, before), all.len(), j);
            let i = choose|i: int| 0 <= i < all.len() && #[trigger] places(all, before)[i] == j;
            assert(sorted[i] == c);
            let b = sorted[0];
            assert(kept[0] == b);
            assert(out[0] == b.name);
            assert(sorted.contains(b));
            assert(all.contains(b));
            let q = choose|q: int| 0 <= q < all.len() && all[q] == b;
            let p = choose|p: int|
                0 <= p < catalog.len() && resemblance((#[trigger] catalog[p]).name, asked) == Some(
                    all[q],
                );
            law_names_resemble(catalog[p].name, asked);
            law_candidates_are_ordered(c, c);
            assert(!before(c, b));
            assert(!candidate_before(c, b));
        }
    }
}

/// A model that calls a tool that is not there is told so by its name, and what it may
/// have meant.
#[verifier::rlimit(40)]
pub proof fn law_missing_tools_are_told(tool_name: Seq<char>, catalog: Seq<ToolView>)
    ensures
        ("Tool '"@ + tool_name + "' is not available in the current tool catalog. "@).is_prefix_of(
            missing_tool_text(tool_name, catalog),
        ),
        !crate::tool_catalog::is_checklist_name(tool_name) && suggestions(
            catalog,
            tool_name,
            3,
        ).len() > 0 ==> holds(
            missing_tool_text(tool_name, catalog),
            "Did you mean: "@ + joined(suggestions(catalog, tool_name, 3), ", "@) + "? "@,
        ),
{
    let told = missing_tool_text(tool_name, catalog);
    let intro = "Tool '"@ + tool_name + "' is not available in the current tool catalog. "@;
    let names = suggestions(catalog, tool_name, 3);
    let list = joined(names, ", "@);
    let said = "Did you mean: "@ + list + "? "@;
    if !crate::tool_catalog::is_checklist_name(tool_name) && names.len() > 0 {
        let end = told.skip(intro.len() + said.len() as int);
        lemma_regrouped(intro, "Did you mean: "@, list, "? "@);
        assert(told =~= intro + said + end);
        lemma_holds_between(intro, said, end);
    }
    assert(intro =~= told.take(intro.len() as int));
}

proof fn lemma_regrouped(a: Seq<char>, b: Seq<char>, c: Seq<char>, d: Seq<char>)
    ensures
        a + b + c + d == a + (b + c + d),
{
    assert(a + b + c + d =~= a + (b + c + d));
}

// ---------------------------------------------------------------------------
// What is wrong with a catalog
// ---------------------------------------------------------------------------

/// A tool in the catalog that nothing carries out is found, and no other; the tools of
/// remote servers and the program's own interpreters need no entry.
pub proof fn law_tools_need_handlers(
    catalog: Seq<ToolView>,
    registered: Set<Seq<char>>,
    mcp: Set<Seq<char>>,
    n: nat,
)
    requires
        n < catalog.len(),
    ensures
        handler_issues(catalog, registered, mcp, 0).len() == 0,
        registered.contains(catalog[n as int].name) || mcp.contains(catalog[n as int].name)
            || is_search_tool(catalog[n as int].name) || catalog[n as int].name
            == "code_execution"@ || catalog[n as int].name == "js_execution"@ ==> handler_issues(
            catalog,
            registered,
            mcp,
            n + 1,
        ) == handler_issues(catalog, registered, mcp, n),
        !registered.contains(catalog[n as int].name) && !is_synthetic(catalog[n as int].name, mcp)
            ==> handler_issues(catalog, registered, mcp, n + 1) == handler_issues(
            catalog,
            registered,
            mcp,
            n,
        ).push(
            "catalog advertises '"@ + catalog[n as int].name
                + "' but no registered handler exists"@,
        ),
{
}

/// A tool of the core that could be seen and is not in the catalog is found, and no
/// other.
pub proof fn law_core_tools_need_entries(
    before: Seq<Seq<char>>,
    catalog: Seq<ToolView>,
    visible: Set<Seq<char>>,
    n: nat,
)
    requires
        n < core_tools().len(),
    ensures
        core_issues(before, catalog, visible, 0) == before,
        visible.contains(core_tools()[n as int]) && !has_tool(catalog, core_tools()[n as int])
            ==> core_issues(before, catalog, visible, n + 1) == core_issues(
            before,
            catalog,
            visible,
            n,
        ).push(
            "registered core tool '"@ + core_tools()[n as int]
                + "' is missing from the model/search catalog"@,
        ),
        !visible.contains(core_tools()[n as int]) || has_tool(catalog, core_tools()[n as int])
            ==> core_issues(before, catalog, visible, n + 1) == core_issues(
            before,
            catalog,
            visible,
            n,
        ),
{
}

/// A list of texts in order holds the same texts, none before one that it follows.
pub proof fn law_texts_are_put_in_order(list: Seq<Seq<char>>)
    ensures
        texts_in_order(list).len() == list.len(),
        texts_in_order(list).to_multiset() =~= list.to_multiset(),
        forall|i: int, j: int|
            0 <= i < j < list.len() ==> !text_before(
                #[trigger] texts_in_order(list)[j],
                #[trigger] texts_in_order(list)[i],
            ),
{
    let before = |a: Seq<char>, b: Seq<char>| text_before(a, b);
    lemma_text_order_strict();
    crate::order::lemma_sort_contents(list, before);
    lemma_sort_in_order(list, before);
    assert forall|i: int, j: int| 0 <= i < j < list.len() implies !text_before(
        #[trigger] texts_in_order(list)[j],
        #[trigger] texts_in_order(list)[i],
    ) by {
        assert(!before(sort_by(list, before)[j], sort_by(list, before)[i]));
    }
}

// ---------------------------------------------------------------------------
// What is told of a tool at its first use
// ---------------------------------------------------------------------------

/// What is missing is required and was not given; what is unexpected was given and is
/// not known.
pub proof fn law_what_is_left_over(list: Seq<Seq<char>>, other: Seq<Seq<char>>, x: Seq<char>)
    ensures
        left_over(list, other).contains(x) <==> list.contains(x) && !other.contains(x),
{
    let p = |s: Seq<char>| !other.contains(s);
    if list.contains(x) && p(x) {
        let i = choose|i: int| 0 <= i < list.len() && list[i] == x;
        list.lemma_filter_contains(p, i);
    }
    if list.filter(p).contains(x) {
        let i = choose|i: int| 0 <= i < list.filter(p).len() && list.filter(p)[i] == x;
        list.lemma_filter_pred(p, i);
        list.lemma_filter_contains_rev(p, x);
    }
}

/// The fields that a form requires are the texts in its list, and those that were given
/// are the names of what was given.
pub proof fn law_fields_are_read(
    schema: JsonView,
    items: Seq<JsonView>,
    members: Seq<(Seq<char>, JsonView)>,
    x: Seq<char>,
)
    requires
        schema.items_field("required"@) == Some(items),
    ensures
        required_of(schema).contains(x) <==> items.contains(JsonView::Str(x)),
        received_of(JsonView::Object(members)).contains(x) <==> exists|i: int|
            0 <= i < members.len() && (#[trigger] members[i]).0 == x,
{
    lemma_string_items(items, x);
    lemma_in_order_contains(string_items(items), x);
    let names = members.map_values(|m: (Seq<char>, JsonView)| m.0);
    lemma_in_order_contains(names, x);
    if names.contains(x) {
        let i = choose|i: int| 0 <= i < names.len() && names[i] == x;
        assert(members[i].0 == x);
    }
    if exists|i: int| 0 <= i < members.len() && (#[trigger] members[i]).0 == x {
        let i = choose|i: int| 0 <= i < members.len() && (#[trigger] members[i]).0 == x;
        assert(names[i] == x);
    }
}

proof fn lemma_string_items(items: Seq<JsonView>, x: Seq<char>)
    ensures
        string_items(items).contains(x) <==> items.contains(JsonView::Str(x)),
    decreases items.len(),
{
    if items.len() > 0 {
        let front = items.drop_last();
        lemma_string_items(front, x);
        let before = string_items(front);
        let all = string_items(items);
        if before.contains(x) {
            let i = choose|i: int| 0 <= i < before.len() && before[i] == x;
            assert(all[i] == x);
        }
        if items.last() == JsonView::Str(x) {
            assert(all[all.len() - 1] == x);
            assert(items[items.len() - 1] == JsonView::Str(x));
        }
        if items.contains(JsonView::Str(x)) {
            let i = choose|i: int| 0 <= i < items.len() && items[i] == JsonView::Str(x);
            if i < items.len() - 1 {
                assert(front[i] == JsonView::Str(x));
            }
        }
        if all.contains(x) {
            let i = choose|i: int| 0 <= i < all.len() && all[i] == x;
            if i < before.len() {
                assert(before[i] == x);
            }
        }
        if front.contains(JsonView::Str(x)) {
            let i = choose|i: int| 0 <= i < front.len() && front[i] == JsonView::Str(x);
            assert(items[i] == JsonView::Str(x));
        }
    }
}

proof fn lemma_in_order_contains(list: Seq<Seq<char>>, x: Seq<char>)
    ensures
        texts_in_order(list).contains(x) <==> list.contains(x),
{
    let before = |a: Seq<char>, b: Seq<char>| text_before(a, b);
    lemma_sort_places(list, before);
    let sorted = texts_in_order(list);
    if sorted.contains(x) {
        let i = choose|i: int| 0 <= i < sorted.len() && sorted[i] == x;
        assert(sorted[i] == list[places(list, before)[i]]);
    }
    if list.contains(x) {
        let j = choose|j: int| 0 <= j < list.len() && list[j] == x;
        crate::order::lemma_permutation_reaches(places(list, before), list.len(), j);
        let i = choose|i: int| 0 <= i < list.len() && #[trigger] places(list, before)[i] == j;
        assert(sorted[i] == x);
    }
}

/// The kind of a field is told, with the values it may have where they are listed.
pub proof fn law_kinds_are_told(spec: JsonView, kind: Seq<char>)
    requires
        spec.text_field("type"@) == Some(kind),
    ensures
        kind.is_prefix_of(type_label(spec)),
        spec.items_field("enum"@) is None ==> type_label(spec) == kind,
        spec.items_field("enum"@) matches Some(items) ==> string_items(items).len() > 0
            ==> type_label(spec) == kind + " ("@ + joined(string_items(items), " | "@) + ")"@,
{
}

/// A tool that is loaded at its first use was not run, and the model is told to call it
/// again.
pub proof fn law_first_uses_run_nothing(tool: ToolView, input: JsonView)
    ensures
        ({
            let answer = hydration_answer(tool, input);
            &&& answer.success
            &&& answer.metadata matches Some(meta)
            &&& meta.truth_field("executed"@) == Some(false)
            &&& meta.truth_field("deferred_tool_loaded"@) == Some(true)
            &&& holds(answer.content, "Tool `"@ + tool.name + "` was deferred and has now been loaded."@)
            &&& holds(
                answer.content,
                "The tool was not executed. Retry with the loaded schema."@,
            )
        }),
{
    reveal_strlit("deferred_tool_loaded");
    reveal_strlit("event");
    reveal_strlit("executed");
    assert("deferred_tool_loaded"@.len() == 20 && "event"@.len() == 5 && "executed"@.len() == 8);
    let answer = hydration_answer(tool, input);
    let m = answer.metadata->0->Object_0;
    law_single_members_are_read(m, 0);
    law_single_members_are_read(m, 2);
    let fields = crate::tool_catalog::fields_of(tool.input_schema);
    let required = required_of(tool.input_schema);
    let received = received_of(input);
    let missing = left_over(required, received);
    let unexpected = left_over(received, field_names(fields));
    let corrections = corrections_of(received, field_names(fields), tool.name);
    let lines = crate::tool_catalog::hydration_lines(
        tool.name,
        fields,
        required,
        received,
        missing,
        unexpected,
        corrections,
    );
    lemma_head_of_lines(tool.name, fields, required, received, missing, unexpected, corrections);
    lemma_joined_holds(lines, "\n"@, 0);
    lemma_joined_holds(lines, "\n"@, 2);
}

#[verifier::rlimit(40)]
proof fn lemma_head_of_lines(
    name: Seq<char>,
    fields: Seq<(Seq<char>, Seq<char>)>,
    required: Seq<Seq<char>>,
    received: Seq<Seq<char>>,
    missing: Seq<Seq<char>>,
    unexpected: Seq<Seq<char>>,
    corrections: Seq<Seq<char>>,
)
    ensures
        ({
            let lines = crate::tool_catalog::hydration_lines(
                name,
                fields,
                required,
                received,
                missing,
                unexpected,
                corrections,
            );
            &&& lines.len() >= 5
            &&& lines[0] == "Tool `"@ + name + "` was deferred and has now been loaded."@
            &&& lines[2] == "The tool was not executed. Retry with the loaded schema."@
        }),
{
    let head = Seq::empty().push(
        "Tool `"@ + name + "` was deferred and has now been loaded."@,
    ).push(""@).push("The tool was not executed. Retry with the loaded schema."@).push(""@).push(
        "Expected fields:"@,
    );
    lemma_field_lines(head, fields, required, fields.len());
    let expected = if fields.len() == 0 {
        head.push("  (none)"@)
    } else {
        crate::tool_catalog::field_lines(head, fields, required, fields.len())
    };
    let got = expected.push(""@).push("Received fields:"@).push(
        if received.len() == 0 {
            "  (none)"@
        } else {
            "  "@ + joined(received, ", "@)
        },
    );
    let l1 = crate::tool_catalog::listed(got, "Missing required fields:"@, missing);
    let l2 = crate::tool_catalog::listed(l1, "Unexpected fields:"@, unexpected);
    lemma_indented(
        l2.push(""@).push("Likely corrections:"@),
        corrections,
        corrections.len(),
    );
    assert(head.is_prefix_of(expected));
    assert(head.is_prefix_of(got));
    assert(head.is_prefix_of(l1));
    assert(head.is_prefix_of(l2));
    assert(head.len() == 5);
    let lines = crate::tool_catalog::hydration_lines(
        name,
        fields,
        required,
        received,
        missing,
        unexpected,
        corrections,
    );
    assert(l2.is_prefix_of(lines));
    assert(lines[0] == l2[0] && lines[2] == l2[2]);
    assert(l2[0] == head[0] && l2[2] == head[2]);
}

proof fn lemma_field_lines(
    before: Seq<Seq<char>>,
    fields: Seq<(Seq<char>, Seq<char>)>,
    required: Seq<Seq<char>>,
    n: nat,
)
    requires
        n <= fields.len(),
    ensures
        before.is_prefix_of(crate::tool_catalog::field_lines(before, fields, required, n)),
    decreases n,
{
    if n > 0 {
        lemma_field_lines(before, fields, required, (n - 1) as nat);
    }
}

proof fn lemma_indented(before: Seq<Seq<char>>, list: Seq<Seq<char>>, n: nat)
    requires
        n <= list.len(),
    ensures
        before.is_prefix_of(crate::tool_catalog::indented(before, list, n)),
    decreases n,
{
    if n > 0 {
        lemma_indented(before, list, (n - 1) as nat);
    }
}

/// Fields of older names are corrected to those that the tool has.
pub proof fn law_old_names_are_corrected(
    received: Seq<Seq<char>>,
    expected: Seq<Seq<char>>,
    tool_name: Seq<char>,
)
    requires
        tool_name == "edit_file"@,
    ensures
        received.contains("old_string"@) && expected.contains("search"@) ==> corrections_of(
            received,
            expected,
            tool_name,
        ).contains("old_string -> search"@),
        received.contains("new_string"@) && expected.contains("replace"@) ==> corrections_of(
            received,
            expected,
            tool_name,
        ).contains("new_string -> replace"@),
        !expected.contains("search"@) && !expected.contains("replace"@) ==> corrections_of(
            received,
            expected,
            tool_name,
        ).len() == 0,
{
    reveal_strlit("edit_file");
    reveal_strlit("checklist_update");
    reveal_strlit("todo_update");
    reveal_strlit("rlm_open");
    assert("edit_file"@.len() == 9 && "checklist_update"@.len() == 16 && "todo_update"@.len() == 11
        && "rlm_open"@.len() == 8);
    let out = corrections_of(received, expected, tool_name);
    if received.contains("old_string"@) && expected.contains("search"@) {
        assert(out[0] == "old_string -> search"@);
    }
    if received.contains("new_string"@) && expected.contains("replace"@) {
        assert(out[out.len() - 1] == "new_string -> replace"@);
    }
}

/// A field that is expected is told with its kind, and that it is required where it is.
pub proof fn law_expected_fields_are_told(
    before: Seq<Seq<char>>,
    fields: Seq<(Seq<char>, Seq<char>)>,
    required: Seq<Seq<char>>,
    n: nat,
)
    requires
        n < fields.len(),
    ensures
        required.contains(fields[n as int].0) ==> crate::tool_catalog::field_lines(
            before,
            fields,
            required,
            n + 1,
        ).last() == "  "@ + fields[n as int].0 + ": "@ + fields[n as int].1 + " required"@,
        !required.contains(fields[n as int].0) ==> crate::tool_catalog::field_lines(
            before,
            fields,
            required,
            n + 1,
        ).last() == "  "@ + fields[n as int].0 + ": "@ + fields[n as int].1,
        crate::tool_catalog::field_lines(before, fields, required, n + 1).drop_last()
            == crate::tool_catalog::field_lines(before, fields, required, n),
{
    reveal_strlit("");
    let line = "  "@ + fields[n as int].0 + ": "@ + fields[n as int].1;
    assert(line + ""@ =~= line);
    let all = crate::tool_catalog::field_lines(before, fields, required, n + 1);
    assert(all.drop_last() =~= crate::tool_catalog::field_lines(before, fields, required, n));
}

/// A list is told under its heading where it holds something.
pub proof fn law_lists_are_told(
    before: Seq<Seq<char>>,
    heading: Seq<char>,
    list: Seq<Seq<char>>,
)
    ensures
        list.len() == 0 ==> crate::tool_catalog::listed(before, heading, list) == before,
        list.len() > 0 ==> crate::tool_catalog::listed(before, heading, list).last() == "  "@
            + joined(list, ", "@) && crate::tool_catalog::listed(before, heading, list).contains(
            heading,
        ),
{
    let all = crate::tool_catalog::listed(before, heading, list);
    if list.len() > 0 {
        assert(all[(before.len() + 1) as int] == heading);
    }
}

/// The issues of a catalog are all that were found of both kinds, in order.
pub proof fn law_issues_are_all_told(
    catalog: Seq<ToolView>,
    registered: Set<Seq<char>>,
    visible: Set<Seq<char>>,
    mcp: Set<Seq<char>>,
    i: int,
)
    requires
        0 <= i < catalog.len(),
        !registered.contains(catalog[i].name),
        !is_synthetic(catalog[i].name, mcp),
    ensures
        crate::tool_catalog::catalog_issues(catalog, registered, visible, mcp).contains(
            "catalog advertises '"@ + catalog[i].name + "' but no registered handler exists"@,
        ),
{
    let text = "catalog advertises '"@ + catalog[i].name + "' but no registered handler exists"@;
    lemma_issue(catalog, registered, mcp, catalog.len(), i);
    let first = handler_issues(catalog, registered, mcp, catalog.len());
    lemma_core_issues(first, catalog, visible, core_tools().len());
    let all = core_issues(first, catalog, visible, core_tools().len());
    let k = choose|k: int| 0 <= k < first.len() && first[k] == text;
    assert(all[k] == text);
    lemma_in_order_contains(all, text);
}

proof fn lemma_issue(
    catalog: Seq<ToolView>,
    registered: Set<Seq<char>>,
    mcp: Set<Seq<char>>,
    n: nat,
    i: int,
)
    requires
        0 <= i < n <= catalog.len(),
        !registered.contains(catalog[i].name),
        !is_synthetic(catalog[i].name, mcp),
    ensures
        handler_issues(catalog, registered, mcp, n).contains(
            "catalog advertises '"@ + catalog[i].name + "' but no registered handler exists"@,
        ),
    decreases n,
{
    let text = "catalog advertises '"@ + catalog[i].name + "' but no registered handler exists"@;
    let all = handler_issues(catalog, registered, mcp, n);
    let before = handler_issues(catalog, registered, mcp, (n - 1) as nat);
    if i == n - 1 {
        assert(all[before.len() as int] == text);
    } else {
        lemma_issue(catalog, registered, mcp, (n - 1) as nat, i);
        let k = choose|k: int| 0 <= k < before.len() && before[k] == text;
        assert(all[k] == text);
    }
}

proof fn lemma_core_issues(
    before: Seq<Seq<char>>,
    catalog: Seq<ToolView>,
    visible: Set<Seq<char>>,
    n: nat,
)
    requires
        n <= core_tools().len(),
    ensures
        before.is_prefix_of(core_issues(before, catalog, visible, n)),
    decreases n,
{
    if n > 0 {
        lemma_core_issues(before, catalog, visible, (n - 1) as nat);
    }
}

/// A search by words finds by words and one by pattern by pattern, among the tools that
/// are not active; what is absent is looked for with the room that is left.
pub proof fn law_findings_are_of_the_kind(
    tool_name: Seq<char>,
    input: JsonView,
    catalog: Seq<ToolView>,
    active: Set<Seq<char>>,
    query: Seq<char>,
)
    requires
        input.text_field("query"@) == Some(query),
    ensures
        match_kind(tool_name, input) == "bm25"@ ==> (search_findings(
            tool_name,
            input,
            catalog,
            active,
        ) matches Ok(found) && found.0 == tools_by_words(
            crate::tool_catalog::idle_tools(catalog, active),
            query,
            result_cap(input),
        ) && found.1 == absent_tools_by_words(
            catalog,
            query,
            (result_cap(input) - found.0.len()) as nat,
        )),
        match_kind(tool_name, input) == "regex"@ ==> (search_findings(
            tool_name,
            input,
            catalog,
            active,
        ) matches Ok(found) ==> tools_by_pattern(
            crate::tool_catalog::idle_tools(catalog, active),
            query,
            result_cap(input),
        ) == Ok::<Seq<Seq<char>>, ToolErrorView>(found.0)),
        match_kind(tool_name, input) == "regex"@ && regex_refusal(query) is Some
            ==> search_findings(tool_name, input, catalog, active) is Err,
        match_kind(tool_name, input) != "regex"@ && match_kind(tool_name, input) != "bm25"@
            ==> search_findings(tool_name, input, catalog, active) is Err && search_findings(
            tool_name,
            input,
            catalog,
            active,
        )->Err_0 is InvalidInput,
        forall|t: ToolView|
            #[trigger] crate::tool_catalog::idle_tools(catalog, active).contains(t)
                <==> catalog.contains(t) && !active.contains(t.name),
{
    reveal_strlit("regex");
    reveal_strlit("bm25");
    assert("regex"@.len() == 5 && "bm25"@.len() == 4);
    let p = |t: ToolView| !active.contains(t.name);
    assert forall|t: ToolView|
        #[trigger] crate::tool_catalog::idle_tools(catalog, active).contains(t) <==> catalog.contains(
            t,
        ) && !active.contains(t.name) by {
        lemma_filtered(catalog, p, t);
    }
    law_patterns_are_bounded(
        crate::tool_catalog::idle_tools(catalog, active),
        query,
        result_cap(input),
    );
}

/// Where there is room, every name in the catalog that resembles the one asked for is
/// suggested.
pub proof fn law_all_alike_are_suggested(
    catalog: Seq<ToolView>,
    requested: Seq<char>,
    limit: nat,
    k: int,
)
    requires
        trimmed(requested).len() > 0,
        0 <= k < catalog.len(),
        resemblance(catalog[k].name, ascii_lower(trimmed(requested))) is Some,
        suggestions(catalog, requested, limit).len() < limit,
    ensures
        suggestions(catalog, requested, limit).contains(catalog[k].name),
{
    let asked = ascii_lower(trimmed(requested));
    let before = |a: Candidate, b: Candidate| candidate_before(a, b);
    let all = resemblances(catalog, asked, catalog.len());
    let sorted = sort_by(all, before);
    let kept = without_repeats(sorted);
    let out = suggestions(catalog, requested, limit);
    lemma_resemblances(catalog, asked, catalog.len());
    lemma_repeats(sorted);
    lemma_sort_places(all, before);
    law_names_resemble(catalog[k].name, asked);
    assert(out == at_most(candidate_names(kept), limit));
    assert(out =~= candidate_names(kept));
    let c = resemblance(catalog[k].name, asked)->0;
    assert(all.contains(c));
    let j = choose|j: int| 0 <= j < all.len() && all[j] == c;
    crate::order::lemma_permutation_reaches(places(all, before), all.len(), j);
    let i = choose|i: int| 0 <= i < all.len() && #[trigger] places(all, before)[i] == j;
    assert(sorted[i] == c);
    let q = choose|q: int| 0 <= q < kept.len() && (#[trigger] kept[q]).name == sorted[i].name;
    assert(out[q] == catalog[k].name);
}

proof fn lemma_absent_found(catalog: Seq<ToolView>, terms: Seq<Seq<char>>, n: nat, k: int)
    requires
        0 <= k < n <= 4,
        !has_tool(catalog, action_tools()[k].name),
        score(
            terms,
            fallback_haystack(action_tools()[k]),
            lowercase(action_tools()[k].name),
            terms.len(),
        ) > 0,
    ensures
        exists|i: int|
            0 <= i < absent_hits(catalog, terms, n).len() && (#[trigger] absent_hits(
                catalog,
                terms,
                n,
            )[i]).place == k,
    decreases n,
{
    let all = absent_hits(catalog, terms, n);
    let before = absent_hits(catalog, terms, (n - 1) as nat);
    if k == n - 1 {
        assert(all[before.len() as int].place == k);
    } else {
        lemma_absent_found(catalog, terms, (n - 1) as nat, k);
        let i = choose|i: int| 0 <= i < before.len() && (#[trigger] before[i]).place == k;
        assert(all[i].place == k);
    }
}

/// Where there is room, every tool that could be there, is not, and fits is named.
pub proof fn law_all_absent_tools_are_named(
    catalog: Seq<ToolView>,
    query: Seq<char>,
    max: nat,
    k: int,
)
    requires
        0 <= k < 4,
        !has_tool(catalog, action_tools()[k].name),
        absent_fit(action_tools()[k], query) > 0,
        absent_tools_by_words(catalog, query, max).len() < max,
    ensures
        absent_tools_by_words(catalog, query, max).contains(action_tools()[k]),
{
    let terms = search_terms(query);
    let hits = absent_hits(catalog, terms, 4);
    let before = |a: Hit, b: Hit| hit_before(a, b);
    let sorted = sort_by(hits, before);
    let out = absent_tools_by_words(catalog, query, max);
    lemma_absent_found(catalog, terms, 4, k);
    lemma_sort_places(hits, before);
    assert(out == at_most(fallbacks_at(sorted), max));
    assert(out =~= fallbacks_at(sorted));
    let j = choose|j: int| 0 <= j < hits.len() && (#[trigger] hits[j]).place == k;
    crate::order::lemma_permutation_reaches(places(hits, before), hits.len(), j);
    let i = choose|i: int| 0 <= i < hits.len() && #[trigger] places(hits, before)[i] == j;
    assert(sorted[i] == hits[j]);
    assert(out[i] == action_tools()[k]);
}

/// A model that misses the shell is told why it is not there; one that takes an entry of
/// a list for a tool is told how to write the list.
pub proof fn law_missing_tools_are_explained(tool_name: Seq<char>, catalog: Seq<ToolView>)
    ensures
        is_shell_tool(tool_name) && !is_checklist_name(tool_name) ==> holds(
            missing_tool_text(tool_name, catalog),
            shell_hint(),
        ),
        is_checklist_name(tool_name) ==> (
        "Checklist entries are not separate tool calls — write the whole list in one `work_update` call with a `todos` array of {content, status} objects."@).is_suffix_of(
            missing_tool_text(tool_name, catalog),
        ),
        is_shell_tool("exec_shell"@),
        is_checklist_name("todo"@),
{
    let told = missing_tool_text(tool_name, catalog);
    let intro = "Tool '"@ + tool_name + "' is not available in the current tool catalog. "@;
    let names = suggestions(catalog, tool_name, 3);
    if is_checklist_name(tool_name) {
        let end = "Checklist entries are not separate tool calls — write the whole list in one `work_update` call with a `todos` array of {content, status} objects."@;
        assert(told == intro + end);
        assert((intro + end).skip((intro + end).len() - end.len()) =~= end);
    } else if is_shell_tool(tool_name) {
        if names.len() == 0 {
            lemma_holds_between(intro, shell_hint(), ", or use tool_search with a short query."@);
        } else {
            let hinted = intro + "Did you mean: "@ + joined(names, ", "@) + "? "@;
            lemma_holds_between(
                hinted,
                shell_hint(),
                ". You can also use tool_search to discover tools."@,
            );
        }
    }
}

proof fn lemma_first_tried(catalog: Seq<ToolView>, pattern: Seq<char>, from: int, i: int)
    requires
        0 <= from <= i < catalog.len(),
        !is_search_tool(catalog[i].name),
        forall|j: int| from <= j < i ==> is_search_tool((#[trigger] catalog[j]).name),
    ensures
        first_tried(catalog, pattern, from) == (if regex_matches(
            pattern,
            tool_haystack(catalog[i]),
        ) {
            seq![catalog[i].name]
        } else {
            Seq::empty()
        }),
    decreases i - from,
{
    if from < i {
        lemma_first_tried(catalog, pattern, from + 1, i);
    }
}

/// A search by pattern without room tries the first tool that does not itself search, and
/// no other.
pub proof fn law_one_tool_is_tried_without_room(
    catalog: Seq<ToolView>,
    pattern: Seq<char>,
    i: int,
)
    requires
        regex_refusal(pattern) is None,
        0 <= i < catalog.len(),
        !is_search_tool(catalog[i].name),
        forall|j: int| 0 <= j < i ==> is_search_tool((#[trigger] catalog[j]).name),
    ensures
        tools_by_pattern(catalog, pattern, 0) == Ok::<Seq<Seq<char>>, ToolErrorView>(
            if regex_matches(pattern, tool_haystack(catalog[i])) {
                seq![catalog[i].name]
            } else {
                Seq::empty()
            },
        ),
{
    lemma_first_tried(catalog, pattern, 0, i);
}

/// A heading stands in a list of lines with a line behind it.
pub open spec fn headed(lines: Seq<Seq<char>>, heading: Seq<char>, line: Seq<char>) -> bool {
    exists|i: int| 0 <= i < lines.len() - 1 && #[trigger] lines[i] == heading && lines[i + 1] == line
}

proof fn lemma_headed_stays(
    lines: Seq<Seq<char>>,
    more: Seq<Seq<char>>,
    heading: Seq<char>,
    line: Seq<char>,
)
    requires
        lines.is_prefix_of(more),
        headed(lines, heading, line),
    ensures
        headed(more, heading, line),
{
    let i = choose|i: int|
        0 <= i < lines.len() - 1 && #[trigger] lines[i] == heading && lines[i + 1] == line;
    assert(more[i] == lines[i] && more[i + 1] == lines[i + 1]);
}

/// At its first use of a tool a model is told which fields it gave, which it missed,
/// which it should not have given, and how to mend them.
pub proof fn law_mistakes_are_told(
    name: Seq<char>,
    fields: Seq<(Seq<char>, Seq<char>)>,
    required: Seq<Seq<char>>,
    received: Seq<Seq<char>>,
    missing: Seq<Seq<char>>,
    unexpected: Seq<Seq<char>>,
    corrections: Seq<Seq<char>>,
)
    ensures
        ({
            let lines = hydration_lines(
                name,
                fields,
                required,
                received,
                missing,
                unexpected,
                corrections,
            );
            &&& received.len() > 0 ==> headed(
                lines,
                "Received fields:"@,
                "  "@ + joined(received, ", "@),
            )
            &&& missing.len() > 0 ==> headed(
                lines,
                "Missing required fields:"@,
                "  "@ + joined(missing, ", "@),
            )
            &&& unexpected.len() > 0 ==> headed(
                lines,
                "Unexpected fields:"@,
                "  "@ + joined(unexpected, ", "@),
            )
            &&& corrections.len() > 0 ==> headed(
                lines,
                "Likely corrections:"@,
                "  "@ + corrections[0],
            )
        }),
{
    let lines = hydration_lines(
        name,
        fields,
        required,
        received,
        missing,
        unexpected,
        corrections,
    );
    let head = Seq::empty().push(
        "Tool `"@ + name + "` was deferred and has now been loaded."@,
    ).push(""@).push("The tool was not executed. Retry with the loaded schema."@).push(""@).push(
        "Expected fields:"@,
    );
    let expected = if fields.len() == 0 {
        head.push("  (none)"@)
    } else {
        crate::tool_catalog::field_lines(head, fields, required, fields.len())
    };
    let given = if received.len() == 0 {
        "  (none)"@
    } else {
        "  "@ + joined(received, ", "@)
    };
    let got = expected.push(""@).push("Received fields:"@).push(given);
    let l1 = crate::tool_catalog::listed(got, "Missing required fields:"@, missing);
    let l2 = crate::tool_catalog::listed(l1, "Unexpected fields:"@, unexpected);
    let l3 = l2.push(""@).push("Likely corrections:"@);
    let last = if corrections.len() == 0 {
        l2
    } else {
        crate::tool_catalog::indented(l3, corrections, corrections.len())
    };
    assert(lines == last);
    lemma_indented(l3, corrections, corrections.len());
    assert(got.is_prefix_of(l1) && l1.is_prefix_of(l2) && l2.is_prefix_of(lines));
    let n = expected.len() as int;
    assert(got[n + 1] == "Received fields:"@ && got[n + 2] == given);
    assert(headed(got, "Received fields:"@, given));
    lemma_headed_stays(got, lines, "Received fields:"@, given);
    if missing.len() > 0 {
        let line = "  "@ + joined(missing, ", "@);
        let m = got.len() as int;
        assert(l1[m + 1] == "Missing required fields:"@ && l1[m + 2] == line);
        assert(headed(l1, "Missing required fields:"@, line));
        lemma_headed_stays(l1, lines, "Missing required fields:"@, line);
    }
    if unexpected.len() > 0 {
        let line = "  "@ + joined(unexpected, ", "@);
        let m = l1.len() as int;
        assert(l2[m + 1] == "Unexpected fields:"@ && l2[m + 2] == line);
        assert(headed(l2, "Unexpected fields:"@, line));
        lemma_headed_stays(l2, lines, "Unexpected fields:"@, line);
    }
    if corrections.len() > 0 {
        lemma_first_indented(l3, corrections, corrections.len());
        let m = l2.len() as int;
        assert(lines[m + 1] == l3[m + 1]);
        assert(lines[m + 2] == "  "@ + corrections[0]);
    }
}

proof fn lemma_first_indented(before: Seq<Seq<char>>, list: Seq<Seq<char>>, n: nat)
    requires
        0 < n <= list.len(),
    ensures
        crate::tool_catalog::indented(before, list, n).len() == before.len() + n,
        crate::tool_catalog::indented(before, list, n)[before.len() as int] == "  "@ + list[0],
    decreases n,
{
    reveal_with_fuel(crate::tool_catalog::indented, 2);
    if n > 1 {
        lemma_first_indented(before, list, (n - 1) as nat);
    }
}

/// What is told of a first use goes by what the tool requires and what was given.
pub proof fn law_mistakes_are_found(tool: ToolView, input: JsonView)
    ensures
        ({
            let fields = crate::tool_catalog::fields_of(tool.input_schema);
            let required = required_of(tool.input_schema);
            let received = received_of(input);
            hydration_answer(tool, input).content == joined(
                hydration_lines(
                    tool.name,
                    fields,
                    required,
                    received,
                    left_over(required, received),
                    left_over(received, field_names(fields)),
                    corrections_of(received, field_names(fields), tool.name),
                ),
                "\n"@,
            )
        }),
{
}

} // verus!
