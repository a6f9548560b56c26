//! What a search of the tools promises.

use crate::models::ToolView;
use crate::order::{lemma_best_places, lemma_permutation_reaches, sort_by, strict_order};
use crate::text::{
    contains_text, lemma_text_order_total, lemma_text_order_transitive, lowercase, text_before,
};
use crate::tool_catalog::{
    at_most, hit_before, hit_names, is_search_tool, score, search_terms, tool_haystack, tool_hits,
    tools_by_words, Hit,
};
use vstd::prelude::*;

verus! {

/// How well a tool fits a query in plain words.
pub open spec fn fit(tool: ToolView, query: Seq<char>) -> int {
    score(
        search_terms(query),
        tool_haystack(tool),
        lowercase(tool.name),
        search_terms(query).len(),
    )
}

/// A text holds a term at some place.
pub open spec fn holds(text: Seq<char>, term: Seq<char>) -> bool {
    exists|i: int|
        0 <= i && i + term.len() <= text.len() && #[trigger] text.subrange(i, i + term.len())
            == term
}

proof fn lemma_holds(text: Seq<char>, term: Seq<char>)
    ensures
        holds(text, term) == contains_text(text, term),
{
    if contains_text(text, term) {
        let i = choose|i: int| crate::text::occurs_at(text, term, i);
        assert(text.subrange(i, i + term.len()) == term);
    }
    if holds(text, term) {
        let i = choose|i: int|
            0 <= i && i + term.len() <= text.len() && #[trigger] text.subrange(i, i + term.len())
                == term;
        assert(crate::text::occurs_at(text, term, i));
    }
}

proof fn lemma_score_range(terms: Seq<Seq<char>>, hay: Seq<char>, name: Seq<char>, n: nat)
    requires
        n <= terms.len(),
    ensures
        0 <= score(terms, hay, name, n) <= 3 * n,
        score(terms, hay, name, n) > 0 <==> exists|i: int|
            0 <= i < n && (holds(hay, #[trigger] terms[i]) || holds(name, terms[i])),
        (forall|i: int| 0 <= i < n ==> holds(hay, #[trigger] terms[i]) && holds(name, terms[i]))
            ==> score(terms, hay, name, n) == 3 * n,
        (forall|i: int| 0 <= i < n ==> holds(hay, #[trigger] terms[i]) && !holds(name, terms[i]))
            ==> score(terms, hay, name, n) == n,
    decreases n,
{
    if n > 0 {
        lemma_score_range(terms, hay, name, (n - 1) as nat);
        lemma_holds(hay, terms[n - 1]);
        lemma_holds(name, terms[n - 1]);
        if score(terms, hay, name, n) > 0 && score(terms, hay, name, (n - 1) as nat) == 0 {
            assert(holds(hay, terms[n - 1]) || holds(name, terms[n - 1]));
        }
    }
}

/// A tool fits a query at all exactly when its text or its name holds one of the
/// terms. Where both hold every term it has three points for each, and where only
/// its text does, one.
pub proof fn law_fit_is_by_terms(tool: ToolView, query: Seq<char>)
    ensures
        0 <= fit(tool, query) <= 3 * search_terms(query).len(),
        fit(tool, query) > 0 <==> exists|i: int|
            0 <= i < search_terms(query).len() && (holds(
                tool_haystack(tool),
                #[trigger] search_terms(query)[i],
            ) || holds(lowercase(tool.name), search_terms(query)[i])),
        (forall|i: int|
            0 <= i < search_terms(query).len() ==> holds(
                tool_haystack(tool),
                #[trigger] search_terms(query)[i],
            ) && holds(lowercase(tool.name), search_terms(query)[i])) ==> fit(tool, query) == 3
            * search_terms(query).len(),
        (forall|i: int|
            0 <= i < search_terms(query).len() ==> holds(
                tool_haystack(tool),
                #[trigger] search_terms(query)[i],
            ) && !holds(lowercase(tool.name), search_terms(query)[i])) ==> fit(tool, query)
            == search_terms(query).len(),
{
    let terms = search_terms(query);
    lemma_score_range(terms, tool_haystack(tool), lowercase(tool.name), terms.len());
}

proof fn lemma_score_apart(
    terms: Seq<Seq<char>>,
    hay: Seq<char>,
    name: Seq<char>,
    hay2: Seq<char>,
    name2: Seq<char>,
    n: nat,
    k: int,
)
    requires
        n <= terms.len(),
        forall|i: int| 0 <= i < n ==> (holds(hay2, #[trigger] terms[i]) ==> holds(hay, terms[i])),
        forall|i: int| 0 <= i < n ==> (holds(name2, #[trigger] terms[i]) ==> holds(name, terms[i])),
    ensures
        score(terms, hay, name, n) >= score(terms, hay2, name2, n),
        0 <= k < n && holds(hay, terms[k]) && !holds(hay2, terms[k]) ==> score(terms, hay, name, n)
            >= score(terms, hay2, name2, n) + 1,
        0 <= k < n && holds(name, terms[k]) && !holds(name2, terms[k]) ==> score(
            terms,
            hay,
            name,
            n,
        ) >= score(terms, hay2, name2, n) + 2,
    decreases n,
{
    if n > 0 {
        lemma_score_apart(terms, hay, name, hay2, name2, (n - 1) as nat, k);
        lemma_holds(hay, terms[n - 1]);
        lemma_holds(name, terms[n - 1]);
        lemma_holds(hay2, terms[n - 1]);
        lemma_holds(name2, terms[n - 1]);
    }
}

/// A tool that holds all the terms that another one holds, where that one does,
/// fits no worse; one term more in its text is worth a point, and one more in its
/// name two.
pub proof fn law_more_terms_fit_better(a: ToolView, b: ToolView, query: Seq<char>, k: int)
    requires
        0 <= k < search_terms(query).len(),
        forall|i: int|
            0 <= i < search_terms(query).len() ==> (holds(
                tool_haystack(b),
                #[trigger] search_terms(query)[i],
            ) ==> holds(tool_haystack(a), search_terms(query)[i])),
        forall|i: int|
            0 <= i < search_terms(query).len() ==> (holds(
                lowercase(b.name),
                #[trigger] search_terms(query)[i],
            ) ==> holds(lowercase(a.name), search_terms(query)[i])),
    ensures
        fit(a, query) >= fit(b, query),
        holds(tool_haystack(a), search_terms(query)[k]) && !holds(
            tool_haystack(b),
            search_terms(query)[k],
        ) ==> fit(a, query) > fit(b, query),
        holds(lowercase(a.name), search_terms(query)[k]) && !holds(
            lowercase(b.name),
            search_terms(query)[k],
        ) ==> fit(a, query) >= fit(b, query) + 2,
{
    let terms = search_terms(query);
    lemma_score_apart(
        terms,
        tool_haystack(a),
        lowercase(a.name),
        tool_haystack(b),
        lowercase(b.name),
        terms.len(),
        k,
    );
}

/// `names` are those of the tools at the places `at`, none of which occurs twice:
/// tools that fit the query and do not themselves search, the best first and of
/// equals by name. Where a tool that fits is left out there was no room for more,
/// and it fits no better than any that is in.
pub open spec fn best_first(
    catalog: Seq<ToolView>,
    query: Seq<char>,
    max: nat,
    names: Seq<Seq<char>>,
    at: Seq<int>,
) -> bool {
    &&& at.len() == names.len() <= max
    &&& at.no_duplicates()
    &&& forall|i: int|
        0 <= i < at.len() ==> {
            &&& 0 <= #[trigger] at[i] < catalog.len()
            &&& names[i] == catalog[at[i]].name
            &&& !is_search_tool(names[i])
            &&& fit(catalog[at[i]], query) > 0
        }
    &&& forall|i: int, j: int|
        0 <= i < j < at.len() ==> {
            let (a, b) = (catalog[#[trigger] at[i]], catalog[#[trigger] at[j]]);
            &&& fit(a, query) >= fit(b, query)
            &&& fit(a, query) == fit(b, query) ==> a.name == b.name || text_before(a.name, b.name)
        }
    &&& forall|j: int| #[trigger] left_out(catalog, query, at, j) ==> names.len() == max
    &&& forall|i: int, j: int|
        0 <= i < at.len() && #[trigger] left_out(catalog, query, at, j) ==> fit(
            catalog[#[trigger] at[i]],
            query,
        ) >= fit(catalog[j], query)
}

/// A tool fits the query, does not itself search, and stands at none of the
/// places `at`.
pub open spec fn left_out(
    catalog: Seq<ToolView>,
    query: Seq<char>,
    at: Seq<int>,
    j: int,
) -> bool {
    &&& 0 <= j < catalog.len()
    &&& forall|i: int| 0 <= i < at.len() ==> #[trigger] at[i] != j
    &&& !is_search_tool(catalog[j].name)
    &&& fit(catalog[j], query) > 0
}

proof fn lemma_hits(catalog: Seq<ToolView>, query: Seq<char>, n: nat)
    requires
        n <= catalog.len(),
    ensures
        ({
            let hits = tool_hits(catalog, search_terms(query), n);
            &&& forall|i: int|
                0 <= i < hits.len() ==> {
                    let h = #[trigger] hits[i];
                    &&& 0 <= h.place < n
                    &&& h.name == catalog[h.place].name
                    &&& h.score == fit(catalog[h.place], query)
                    &&& h.score > 0
                    &&& !is_search_tool(h.name)
                }
            &&& forall|i: int, j: int|
                0 <= i < j < hits.len() ==> (#[trigger] hits[i]).place < (#[trigger] hits[j]).place
            &&& forall|k: int|
                0 <= k < n && !is_search_tool((#[trigger] catalog[k]).name) && fit(
                    catalog[k],
                    query,
                ) > 0 ==> exists|i: int| 0 <= i < hits.len() && (#[trigger] hits[i]).place == k
        }),
    decreases n,
{
    if n > 0 {
        lemma_hits(catalog, query, (n - 1) as nat);
        let before = tool_hits(catalog, search_terms(query), (n - 1) as nat);
        let hits = tool_hits(catalog, search_terms(query), n);
        assert forall|k: int|
            0 <= k < n && !is_search_tool((#[trigger] catalog[k]).name) && fit(catalog[k], query)
                > 0 implies exists|i: int| 0 <= i < hits.len() && (#[trigger] hits[i]).place
            == k by {
            if k == n - 1 {
                assert(hits[hits.len() - 1].place == k);
            } else {
                let i = choose|i: int| 0 <= i < before.len() && (#[trigger] before[i]).place == k;
                assert(hits[i] == before[i]);
            }
        }
    }
}

/// The order of hits is strict.
pub proof fn lemma_hit_order_strict()
    ensures
        strict_order(|a: Hit, b: Hit| hit_before(a, b)),
{
    let before = |a: Hit, b: Hit| hit_before(a, b);
    assert forall|a: Hit, b: Hit| #[trigger] before(a, b) implies !before(b, a) by {
        lemma_text_order_total(a.name, b.name);
    }
    assert forall|a: Hit, b: Hit, c: Hit|
        !(#[trigger] before(a, b)) && !(#[trigger] before(b, c)) implies !before(a, c) by {
        lemma_text_order_total(a.name, b.name);
        lemma_text_order_total(b.name, c.name);
        lemma_text_order_total(a.name, c.name);
        if a.score == b.score && b.score == c.score && a.name != b.name && b.name != c.name {
            lemma_text_order_transitive(c.name, b.name, a.name);
        }
    }
}

/// A search in plain words gives the tools that fit best, the best first, and
/// leaves one that fits out only where there is no room and nothing in it fits
/// worse.
#[verifier::rlimit(40)]
pub proof fn law_best_tools_come_first(catalog: Seq<ToolView>, query: Seq<char>, max: nat)
    ensures
        exists|at: Seq<int>| #[trigger]
            best_first(catalog, query, max, tools_by_words(catalog, query, max), at),
{
    let before = |a: Hit, b: Hit| hit_before(a, b);
    let hits = tool_hits(catalog, search_terms(query), catalog.len());
    let sorted = sort_by(hits, before);
    lemma_hits(catalog, query, catalog.len());
    lemma_hit_order_strict();
    let m: nat = if hits.len() <= max {
        hits.len()
    } else {
        max
    };
    let from = lemma_best_places(hits, before, m);
    let names = tools_by_words(catalog, query, max);
    assert(names == at_most(hit_names(sorted), max));
    let at = from.map_values(|k: int| hits[k].place);
    assert(names.len() == m);
    assert forall|i: int| 0 <= i < at.len() implies {
        &&& 0 <= #[trigger] at[i] < catalog.len()
        &&& names[i] == catalog[at[i]].name
        &&& !is_search_tool(names[i])
        &&& fit(catalog[at[i]], query) > 0
    } by {
        assert(0 <= from[i] < hits.len());
        assert(sorted[i] == hits[from[i]]);
        assert(names[i] == sorted[i].name);
    }
    assert forall|i: int, j: int| 0 <= i < j < at.len() implies at[i] != at[j] by {
        assert(0 <= from[i] < hits.len() && 0 <= from[j] < hits.len());
        assert(from[i] != from[j]);
        if from[i] < from[j] {
            assert(hits[from[i]].place < hits[from[j]].place);
        } else {
            assert(hits[from[j]].place < hits[from[i]].place);
        }
    }
    assert forall|i: int, j: int| 0 <= i < j < at.len() implies {
        let (a, b) = (catalog[#[trigger] at[i]], catalog[#[trigger] at[j]]);
        &&& fit(a, query) >= fit(b, query)
        &&& fit(a, query) == fit(b, query) ==> a.name == b.name || text_before(a.name, b.name)
    } by {
        assert(0 <= from[i] < hits.len() && 0 <= from[j] < hits.len());
        assert(!before(hits[from[j]], hits[from[i]]));
        lemma_text_order_total(hits[from[i]].name, hits[from[j]].name);
    }
    assert forall|j: int| #[trigger] left_out(catalog, query, at, j) implies names.len()
        == max by {
        let k = choose|k: int| 0 <= k < hits.len() && (#[trigger] hits[k]).place == j;
        if m == hits.len() {
            lemma_permutation_reaches(from, hits.len(), k);
            let i = choose|i: int| 0 <= i < hits.len() && #[trigger] from[i] == k;
            assert(at[i] == j);
        }
    }
    assert forall|i: int, j: int|
        0 <= i < at.len() && #[trigger] left_out(catalog, query, at, j) implies fit(
        catalog[#[trigger] at[i]],
        query,
    ) >= fit(catalog[j], query) by {
        let k = choose|k: int| 0 <= k < hits.len() && (#[trigger] hits[k]).place == j;
        if from.contains(k) {
            let q = choose|q: int| 0 <= q < from.len() && from[q] == k;
            assert(at[q] == j);
        }
        assert(0 <= from[i] < hits.len());
        assert(!before(hits[k], hits[from[i]]));
    }
    assert(best_first(catalog, query, max, names, at));
}

} // verus!
