//! Stable sorting, as a function of the list and of a strict order.

use crate::text::{
    comes_before, lemma_text_order_total, lemma_text_order_transitive, text_before, texts,
};
use vstd::prelude::*;

verus! {

/// Puts `x` into `t` behind the last element that it does not come before.
pub open spec fn insert_by<T>(t: Seq<T>, x: T, before: spec_fn(T, T) -> bool) -> Seq<T>
    decreases t.len(),
{
    if t.len() > 0 && before(x, t.last()) {
        insert_by(t.drop_last(), x, before).push(t.last())
    } else {
        t.push(x)
    }
}

/// The elements in order; those that compare alike keep their places.
pub open spec fn sort_by<T>(s: Seq<T>, before: spec_fn(T, T) -> bool) -> Seq<T>
    decreases s.len(),
{
    if s.len() == 0 {
        Seq::empty()
    } else {
        insert_by(sort_by(s.drop_last(), before), s.last(), before)
    }
}

/// A strict weak order.
pub open spec fn strict_order<T>(before: spec_fn(T, T) -> bool) -> bool {
    &&& forall|a: T, b: T| #[trigger] before(a, b) ==> !before(b, a)
    &&& forall|a: T, b: T, c: T|
        !(#[trigger] before(a, b)) && !(#[trigger] before(b, c)) ==> !before(a, c)
}

/// No element comes before one that stands in front of it.
pub open spec fn in_order<T>(s: Seq<T>, before: spec_fn(T, T) -> bool) -> bool {
    forall|i: int, j: int| 0 <= i < j < s.len() ==> !before(#[trigger] s[j], #[trigger] s[i])
}

/// Where `x` belongs at `p`, inserting it there is `insert_by`.
pub proof fn lemma_insert_at<T>(t: Seq<T>, x: T, p: int, before: spec_fn(T, T) -> bool)
    requires
        0 <= p <= t.len(),
        p == 0 || !before(x, t[p - 1]),
        forall|q: int| p <= q < t.len() ==> before(x, #[trigger] t[q]),
    ensures
        insert_by(t, x, before) == t.insert(p, x),
    decreases t.len(),
{
    if p == t.len() {
        assert(t.insert(p, x) =~= t.push(x));
    } else {
        let d = t.drop_last();
        assert forall|q: int| p <= q < d.len() implies before(x, #[trigger] d[q]) by {
            assert(d[q] == t[q]);
        }
        assert(p == 0 || d[p - 1] == t[p - 1]);
        lemma_insert_at(d, x, p, before);
        assert(t.insert(p, x) =~= d.insert(p, x).push(t.last()));
    }
}

/// What `insert_by` returns: the old elements and the new one.
pub proof fn lemma_insert_contents<T>(t: Seq<T>, x: T, before: spec_fn(T, T) -> bool)
    ensures
        insert_by(t, x, before).len() == t.len() + 1,
        insert_by(t, x, before).to_multiset() =~= t.to_multiset().insert(x),
        forall|i: int|
            0 <= i <= t.len() ==> #[trigger] insert_by(t, x, before)[i] == x || t.contains(
                insert_by(t, x, before)[i],
            ),
    decreases t.len(),
{
    broadcast use vstd::seq_lib::group_to_multiset_ensures;

    if t.len() > 0 && before(x, t.last()) {
        let d = t.drop_last();
        lemma_insert_contents(d, x, before);
        assert(t =~= d.push(t.last()));
        let r = insert_by(t, x, before);
        assert forall|i: int| 0 <= i <= t.len() implies #[trigger] r[i] == x || t.contains(
            r[i],
        ) by {
            if i == t.len() {
                assert(t[t.len() - 1] == r[i]);
            } else {
                let e = insert_by(d, x, before)[i];
                assert(r[i] == e);
                if e != x {
                    let k = choose|k: int| 0 <= k < d.len() && d[k] == e;
                    assert(t[k] == e);
                }
            }
        }
    } else {
        assert forall|i: int| 0 <= i <= t.len() implies #[trigger] t.push(x)[i] == x || t.contains(
            t.push(x)[i],
        ) by {
            if i < t.len() {
                assert(t[i] == t.push(x)[i]);
            }
        }
    }
}

/// Sorting keeps the elements and their number.
pub proof fn lemma_sort_contents<T>(s: Seq<T>, before: spec_fn(T, T) -> bool)
    ensures
        sort_by(s, before).len() == s.len(),
        sort_by(s, before).to_multiset() =~= s.to_multiset(),
    decreases s.len(),
{
    broadcast use vstd::seq_lib::group_to_multiset_ensures;

    if s.len() > 0 {
        let d = s.drop_last();
        lemma_sort_contents(d, before);
        lemma_insert_contents(sort_by(d, before), s.last(), before);
        assert(s =~= d.push(s.last()));
    } else {
        assert(s =~= Seq::empty());
    }
}

/// Where `insert_by` puts an element.
pub open spec fn insert_place<T>(t: Seq<T>, x: T, before: spec_fn(T, T) -> bool) -> int
    decreases t.len(),
{
    if t.len() > 0 && before(x, t.last()) {
        insert_place(t.drop_last(), x, before)
    } else {
        t.len() as int
    }
}

proof fn lemma_insert_place<T>(t: Seq<T>, x: T, before: spec_fn(T, T) -> bool)
    ensures
        0 <= insert_place(t, x, before) <= t.len(),
        insert_by(t, x, before) == t.insert(insert_place(t, x, before), x),
        forall|q: int|
            insert_place(t, x, before) <= q < t.len() ==> before(x, #[trigger] t[q]),
    decreases t.len(),
{
    let p = insert_place(t, x, before);
    if t.len() > 0 && before(x, t.last()) {
        let d = t.drop_last();
        lemma_insert_place(d, x, before);
        assert(d.insert(p, x).push(t.last()) =~= t.insert(p, x));
        assert forall|q: int| p <= q < t.len() implies before(x, #[trigger] t[q]) by {
            if q < d.len() {
                assert(d[q] == t[q]);
            }
        }
    } else {
        assert(t.push(x) =~= t.insert(p, x));
    }
}

/// Where each element of a sorted list stood before.
pub open spec fn places<T>(s: Seq<T>, before: spec_fn(T, T) -> bool) -> Seq<int>
    decreases s.len(),
{
    if s.len() == 0 {
        Seq::empty()
    } else {
        let d = s.drop_last();
        places(d, before).insert(
            insert_place(sort_by(d, before), s.last(), before),
            s.len() - 1,
        )
    }
}

/// `p` takes each of the first `n` places once.
pub open spec fn is_permutation(p: Seq<int>, n: nat) -> bool {
    &&& p.len() == n
    &&& p.no_duplicates()
    &&& forall|i: int| 0 <= i < n ==> 0 <= #[trigger] p[i] < n
}

/// Sorting moves each element to one place, and of two that compare alike the one
/// that stood first stays first.
pub proof fn lemma_sort_places<T>(s: Seq<T>, before: spec_fn(T, T) -> bool)
    ensures
        is_permutation(places(s, before), s.len()),
        sort_by(s, before).len() == s.len(),
        forall|i: int|
            0 <= i < s.len() ==> #[trigger] sort_by(s, before)[i] == s[places(s, before)[i]],
        forall|i: int, j: int|
            0 <= i < j < s.len() ==> before(
                #[trigger] sort_by(s, before)[i],
                #[trigger] sort_by(s, before)[j],
            ) || places(s, before)[i] < places(s, before)[j],
    decreases s.len(),
{
    if s.len() > 0 {
        let d = s.drop_last();
        let x = s.last();
        let n = d.len() as int;
        lemma_sort_places(d, before);
        let t = sort_by(d, before);
        let q = places(d, before);
        let at = insert_place(t, x, before);
        lemma_insert_place(t, x, before);
        let r = sort_by(s, before);
        let p = places(s, before);
        assert forall|i: int| 0 <= i < s.len() implies {
            &&& r[i] == (if i < at { t[i] } else if i == at { x } else { t[i - 1] })
            &&& #[trigger] p[i] == (if i < at { q[i] } else if i == at { n } else { q[i - 1] })
        } by {}
        assert forall|i: int| 0 <= i < s.len() implies 0 <= #[trigger] p[i] < s.len() by {
            if i < at {
                assert(0 <= q[i] < n);
            } else if i > at {
                assert(0 <= q[i - 1] < n);
            }
        }
        assert forall|i: int, j: int| 0 <= i < j < s.len() implies p[i] != p[j] by {
            let a = if i < at { i } else { i - 1 };
            let b = if j < at { j } else { j - 1 };
            assert(p[i] == if i == at { n } else { q[a] });
            assert(p[j] == if j == at { n } else { q[b] });
            if i != at {
                assert(0 <= q[a] < n);
            }
            if j != at {
                assert(0 <= q[b] < n);
            }
            if i != at && j != at {
                assert(q[a] != q[b]);
            }
        }
        assert forall|i: int| 0 <= i < s.len() implies #[trigger] r[i] == s[p[i]] by {
            if i < at {
                assert(p[i] == q[i] && 0 <= q[i] < n);
                assert(t[i] == d[q[i]]);
            } else if i > at {
                assert(p[i] == q[i - 1] && 0 <= q[i - 1] < n);
                assert(t[i - 1] == d[q[i - 1]]);
            } else {
                assert(p[i] == n);
            }
        }
        assert forall|i: int, j: int| 0 <= i < j < s.len() implies before(
            #[trigger] r[i],
            #[trigger] r[j],
        ) || p[i] < p[j] by {
            let a = if i < at { i } else { i - 1 };
            let b = if j < at { j } else { j - 1 };
            assert(p[i] == if i == at { n } else { q[a] });
            assert(p[j] == if j == at { n } else { q[b] });
            if i == at {
                assert(before(x, t[b]));
            } else if j == at {
                assert(0 <= q[a] < n);
            } else {
                assert(before(t[a], t[b]) || q[a] < q[b]);
            }
        }
    }
}

/// Inserting into an ordered list keeps it ordered.
pub proof fn lemma_insert_in_order<T>(t: Seq<T>, x: T, before: spec_fn(T, T) -> bool)
    requires
        strict_order(before),
        in_order(t, before),
    ensures
        in_order(insert_by(t, x, before), before),
    decreases t.len(),
{
    let r = insert_by(t, x, before);
    if t.len() > 0 && before(x, t.last()) {
        let d = t.drop_last();
        assert forall|i: int, j: int| 0 <= i < j < d.len() implies !before(
            #[trigger] d[j],
            #[trigger] d[i],
        ) by {
            assert(!before(t[j], t[i]));
        }
        lemma_insert_in_order(d, x, before);
        lemma_insert_contents(d, x, before);
        let e = insert_by(d, x, before);
        assert forall|i: int, j: int| 0 <= i < j < r.len() implies !before(
            #[trigger] r[j],
            #[trigger] r[i],
        ) by {
            if j == r.len() - 1 {
                assert(r[i] == e[i]);
                if e[i] == x {
                    assert(before(x, t.last()));
                } else {
                    let k = choose|k: int| 0 <= k < d.len() && d[k] == e[i];
                    assert(!before(t[t.len() - 1], t[k]));
                }
            } else {
                assert(r[i] == e[i] && r[j] == e[j]);
            }
        }
    } else {
        assert forall|i: int, j: int| 0 <= i < j < r.len() implies !before(
            #[trigger] r[j],
            #[trigger] r[i],
        ) by {
            if j == t.len() {
                if i < t.len() - 1 {
                    assert(!before(t[t.len() - 1], t[i]));
                    assert(!before(x, t.last()));
                }
            } else {
                assert(!before(t[j], t[i]));
            }
        }
    }
}

/// Sorting puts the elements in order.
pub proof fn lemma_sort_in_order<T>(s: Seq<T>, before: spec_fn(T, T) -> bool)
    requires
        strict_order(before),
    ensures
        in_order(sort_by(s, before), before),
    decreases s.len(),
{
    if s.len() > 0 {
        lemma_sort_in_order(s.drop_last(), before);
        lemma_insert_in_order(sort_by(s.drop_last(), before), s.last(), before);
    }
}

/// `p` reaches each of the first `n` places.
pub proof fn lemma_permutation_reaches(p: Seq<int>, n: nat, j: int)
    requires
        is_permutation(p, n),
        0 <= j < n,
    ensures
        exists|i: int| 0 <= i < n && #[trigger] p[i] == j,
{
    let all = vstd::set_lib::set_int_range(0, n as int);
    vstd::set_lib::lemma_int_range(0, n as int);
    p.unique_seq_to_set();
    assert(p.to_set().subset_of(all)) by {
        assert forall|x: int| p.to_set().contains(x) implies all.contains(x) by {
            let i = choose|i: int| 0 <= i < p.len() && p[i] == x;
            assert(0 <= p[i] < n);
        }
    }
    vstd::set_lib::lemma_subset_equality(p.to_set(), all);
    assert(p.to_set().contains(j));
}

/// The first `m` elements of a sorted list: where each stood, none twice, and
/// none that is left out comes before any of them.
pub proof fn lemma_best_places<T>(s: Seq<T>, before: spec_fn(T, T) -> bool, m: nat) -> (at: Seq<int>)
    requires
        strict_order(before),
        m <= s.len(),
    ensures
        sort_by(s, before).len() == s.len(),
        at.len() == m,
        at.no_duplicates(),
        forall|i: int| 0 <= i < m ==> 0 <= #[trigger] at[i] < s.len(),
        forall|i: int| 0 <= i < m ==> #[trigger] sort_by(s, before)[i] == s[at[i]],
        forall|i: int, j: int|
            0 <= i < j < m ==> !before(s[#[trigger] at[j]], s[#[trigger] at[i]]),
        forall|i: int, j: int|
            0 <= i < j < m ==> before(s[#[trigger] at[i]], s[#[trigger] at[j]]) || at[i] < at[j],
        forall|i: int, j: int|
            0 <= i < m && 0 <= j < s.len() && !at.contains(j) ==> !before(
                #[trigger] s[j],
                s[#[trigger] at[i]],
            ),
{
    let p = places(s, before);
    let t = sort_by(s, before);
    lemma_sort_places(s, before);
    lemma_sort_in_order(s, before);
    let at = p.take(m as int);
    assert forall|i: int, j: int| 0 <= i < j < m implies !before(
        s[#[trigger] at[j]],
        s[#[trigger] at[i]],
    ) by {
        assert(t[i] == s[p[i]] && t[j] == s[p[j]]);
        assert(!before(t[j], t[i]));
    }
    assert forall|i: int, j: int| 0 <= i < j < m implies before(
        s[#[trigger] at[i]],
        s[#[trigger] at[j]],
    ) || at[i] < at[j] by {
        assert(t[i] == s[p[i]] && t[j] == s[p[j]]);
        assert(before(t[i], t[j]) || p[i] < p[j]);
    }
    assert forall|i: int, j: int|
        0 <= i < m && 0 <= j < s.len() && !at.contains(j) implies !before(
        #[trigger] s[j],
        s[#[trigger] at[i]],
    ) by {
        lemma_permutation_reaches(p, s.len(), j);
        let k = choose|k: int| 0 <= k < s.len() && #[trigger] p[k] == j;
        if k < m {
            assert(at[k] == j);
        }
        assert(t[k] == s[p[k]] && t[i] == s[p[i]]);
        assert(!before(t[k], t[i]));
    }
    at
}

/// Texts in the order of their code points.
pub open spec fn texts_in_order(s: Seq<Seq<char>>) -> Seq<Seq<char>> {
    sort_by(s, |a: Seq<char>, b: Seq<char>| text_before(a, b))
}

/// The order of texts is strict.
pub proof fn lemma_text_order_strict()
    ensures
        strict_order(|a: Seq<char>, b: Seq<char>| text_before(a, b)),
{
    let before = |a: Seq<char>, b: Seq<char>| text_before(a, b);
    assert forall|a: Seq<char>, b: Seq<char>| #[trigger] before(a, b) implies !before(b, a) by {
        lemma_text_order_total(a, b);
    }
    assert forall|a: Seq<char>, b: Seq<char>, c: Seq<char>|
        !(#[trigger] before(a, b)) && !(#[trigger] before(b, c)) implies !before(a, c) by {
        lemma_text_order_total(a, b);
        lemma_text_order_total(b, c);
        lemma_text_order_total(a, c);
        if a != b && b != c {
            lemma_text_order_transitive(c, b, a);
        }
    }
}

/// Sorts texts by their code points.
pub fn sort_texts(list: &Vec<String>) -> (r: Vec<String>)
    ensures
        texts(r@) == texts_in_order(texts(list@)),
{
    let ghost before = |a: Seq<char>, b: Seq<char>| text_before(a, b);
    let ghost all = texts(list@);
    let mut out: Vec<String> = Vec::new();
    let mut i: usize = 0;
    proof {
        assert(all.take(0) =~= Seq::empty());
        assert(texts(out@) =~= Seq::empty());
    }
    while i < list.len()
        invariant
            i <= list@.len(),
            before == (|a: Seq<char>, b: Seq<char>| text_before(a, b)),
            all == texts(list@),
            texts(out@) == sort_by(all.take(i as int), before),
            out@.len() == i,
        decreases list@.len() - i,
    {
        let item = list[i].clone();
        let mut p: usize = out.len();
        let ghost sorted = texts(out@);
        while p > 0 && comes_before(item.as_str(), out[p - 1].as_str())
            invariant
                p <= out@.len(),
                before == (|a: Seq<char>, b: Seq<char>| text_before(a, b)),
                sorted == texts(out@),
                forall|q: int| p <= q < sorted.len() ==> before(item@, #[trigger] sorted[q]),
            decreases p,
        {
            assert(sorted[p - 1] == out@[p - 1]@);
            p -= 1;
        }
        proof {
            if p > 0 {
                assert(sorted[p - 1] == out@[p - 1]@);
            }
            lemma_insert_at(sorted, item@, p as int, before);
            assert(all.take(i + 1).drop_last() =~= all.take(i as int));
            assert(all.take(i + 1).last() == item@);
        }
        out.insert(p, item);
        proof {
            assert(texts(out@) =~= sorted.insert(p as int, item@));
        }
        i += 1;
    }
    proof {
        assert(all.take(all.len() as int) =~= all);
    }
    out
}

} // verus!
