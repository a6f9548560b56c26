//! Paths as texts with slashes between their components.

use crate::order::{in_order, lemma_insert_at, lemma_sort_in_order, sort_by, strict_order};
use crate::text::{
    chars_of, comes_before, concat, ends_with, finishes_with, lemma_text_order_total,
    join, joined, lemma_pieces_not_empty, lemma_text_order_transitive, opt_text, pieces_of, push_line,
    same_text, text_before,
    split_pieces, text_of, texts,
};
use vstd::prelude::*;

verus! {

/// A piece of a path that names something: not empty, and not a single dot.
pub open spec fn names_something(piece: Seq<char>) -> bool {
    piece.len() > 0 && piece != "."@
}

/// The pieces of a path that name something.
pub open spec fn names_in(path: Seq<char>) -> Seq<Seq<char>> {
    pieces_of(path, '/').filter(|p: Seq<char>| names_something(p))
}

/// What stands before the names of a path: the root, the dot with which a path
/// begins, or nothing.
pub open spec fn head_of(path: Seq<char>) -> Seq<Seq<char>> {
    if path.len() > 0 && path[0] == '/' {
        seq!["/"@]
    } else if pieces_of(path, '/')[0] == "."@ {
        seq!["."@]
    } else {
        Seq::empty()
    }
}

/// `Path::components`: the root or a first dot, then the names.
pub open spec fn components(path: Seq<char>) -> Seq<Seq<char>> {
    head_of(path) + names_in(path)
}

/// The pieces of a path that name something.
pub fn path_names(path: &str) -> (r: Vec<String>)
    ensures
        texts(r@) == names_in(path@),
{
    let pieces = split_pieces(path, '/');
    let ghost all = texts(pieces@);
    let ghost keep = |p: Seq<char>| names_something(p);
    let mut out: Vec<String> = Vec::new();
    let mut i: usize = 0;
    proof {
        reveal(Seq::filter);
        assert(all.take(0) =~= Seq::empty());
        assert(texts(out@) =~= all.take(0).filter(keep));
    }
    while i < pieces.len()
        invariant
            i <= pieces@.len(),
            all == texts(pieces@),
            keep == (|p: Seq<char>| names_something(p)),
            texts(out@) == all.take(i as int).filter(keep),
        decreases pieces@.len() - i,
    {
        proof {
            reveal(Seq::filter);
            assert(all.take(i + 1).drop_last() =~= all.take(i as int));
            assert(all.take(i + 1).last() == pieces@[i as int]@);
        }
        if is_name(pieces[i].as_str()) {
            push_line(&mut out, pieces[i].clone());
        }
        i += 1;
    }
    proof {
        assert(all.take(all.len() as int) =~= all);
    }
    out
}

fn is_name(piece: &str) -> (r: bool)
    ensures
        r == names_something(piece@),
{
    !piece.is_empty() && !same_text(piece, ".")
}

/// What stands before the names of a path, and the names.
fn path_components(path: &str) -> (r: Vec<String>)
    ensures
        texts(r@) == components(path@),
{
    let c = chars_of(path);
    let pieces = split_pieces(path, '/');
    let mut out: Vec<String> = Vec::new();
    proof {
        lemma_pieces_not_empty(path@, '/');
        assert(texts(pieces@).len() == pieces@.len());
        assert(texts(pieces@)[0] == pieces@[0]@);
        assert(texts(out@) =~= Seq::empty());
    }
    if c.len() > 0 && c[0] == '/' {
        push_line(&mut out, "/".to_owned());
    } else if same_text(pieces[0].as_str(), ".") {
        push_line(&mut out, ".".to_owned());
    }
    proof {
        assert(texts(out@) =~= head_of(path@));
    }
    let names = path_names(path);
    let mut i: usize = 0;
    let ghost all = texts(names@);
    proof {
        assert(head_of(path@) + all.take(0) =~= head_of(path@));
    }
    while i < names.len()
        invariant
            i <= names@.len(),
            all == texts(names@),
            texts(out@) == head_of(path@) + all.take(i as int),
        decreases names@.len() - i,
    {
        proof {
            assert(all.take(i + 1) =~= all.take(i as int).push(names@[i as int]@));
            assert(head_of(path@) + all.take(i + 1) =~= (head_of(path@) + all.take(i as int)).push(
                names@[i as int]@,
            ));
        }
        push_line(&mut out, names[i].clone());
        i += 1;
    }
    proof {
        assert(all.take(all.len() as int) =~= all);
    }
    out
}

/// `Path::file_name`: the last component, unless it leads upwards.
pub open spec fn file_name(path: Seq<char>) -> Option<Seq<char>> {
    let parts = names_in(path);
    if parts.len() == 0 || parts.last() == ".."@ {
        None
    } else {
        Some(parts.last())
    }
}

/// The last component of a path, unless it leads upwards.
pub fn path_file_name(path: &str) -> (r: Option<String>)
    ensures
        opt_text(r) == file_name(path@),
{
    let parts = path_names(path);
    assert(texts(parts@).len() == parts@.len());
    if parts.len() == 0 {
        return None;
    }
    let last: usize = parts.len() - 1;
    assert(texts(parts@)[last as int] == parts@[last as int]@);
    if same_text(parts[last].as_str(), "..") {
        return None;
    }
    Some(parts[last].clone())
}

/// The place of the last dot in the first `n` characters.
pub open spec fn last_dot(s: Seq<char>, n: nat) -> Option<int>
    decreases n,
{
    if n == 0 {
        None
    } else if s[n - 1] == '.' {
        Some(n - 1)
    } else {
        last_dot(s, (n - 1) as nat)
    }
}

/// A place that was found holds a dot.
pub proof fn lemma_last_dot(s: Seq<char>, n: nat)
    requires
        n <= s.len(),
    ensures
        match last_dot(s, n) {
            Some(i) => 0 <= i < n && s[i] == '.' && forall|j: int| i < j < n ==> s[j] != '.',
            None => forall|j: int| 0 <= j < n ==> s[j] != '.',
        },
    decreases n,
{
    if n > 0 && s[n - 1] != '.' {
        lemma_last_dot(s, (n - 1) as nat);
    }
}

/// `Path::extension`: what stands behind the last dot of the file's name,
/// unless the name begins with that dot.
pub open spec fn extension(path: Seq<char>) -> Option<Seq<char>> {
    match file_name(path) {
        Some(name) => match last_dot(name, name.len()) {
            Some(i) => if i == 0 {
                None
            } else {
                Some(name.skip(i + 1))
            },
            None => None,
        },
        None => None,
    }
}

/// What stands behind the last dot of a file's name.
pub fn path_extension(path: &str) -> (r: Option<String>)
    ensures
        opt_text(r) == extension(path@),
{
    let name = match path_file_name(path) {
        Some(n) => n,
        None => return None,
    };
    let c = chars_of(name.as_str());
    let mut n: usize = c.len();
    while n > 0
        invariant
            c@ == name@,
            n <= c@.len(),
            last_dot(name@, name@.len()) == last_dot(name@, n as nat),
            file_name(path@) == Some(name@),
        decreases n,
    {
        if c[n - 1] == '.' {
            if n == 1 {
                return None;
            }
            let ext = text_of(&c, n, c.len());
            proof {
                assert(ext@ =~= name@.skip(n as int));
            }
            return Some(ext);
        }
        n -= 1;
    }
    None
}

/// `path` lies in `base`, or is `base`.
pub open spec fn lies_in(path: Seq<char>, base: Seq<char>) -> bool {
    let p = components(path);
    let b = components(base);
    b.len() <= p.len() && p.take(b.len() as int) == b
}

/// Two paths with the same components.
pub open spec fn same_place(a: Seq<char>, b: Seq<char>) -> bool {
    components(a) == components(b)
}

/// The pieces from the first name behind `n` names on.
pub open spec fn behind_names(pieces: Seq<Seq<char>>, n: nat) -> Seq<Seq<char>>
    decreases pieces.len(),
{
    if pieces.len() == 0 {
        pieces
    } else if !names_something(pieces[0]) {
        behind_names(pieces.skip(1), n)
    } else if n == 0 {
        pieces
    } else {
        behind_names(pieces.skip(1), (n - 1) as nat)
    }
}

/// The pieces up to the last name.
pub open spec fn up_to_last_name(pieces: Seq<Seq<char>>) -> Seq<Seq<char>>
    decreases pieces.len(),
{
    if pieces.len() == 0 || names_something(pieces.last()) {
        pieces
    } else {
        up_to_last_name(pieces.drop_last())
    }
}

/// `Path::strip_prefix`, for a prefix of `taken` components: what is left of the
/// path's own text.
pub open spec fn text_behind(path: Seq<char>, taken: nat) -> Seq<char> {
    let pieces = pieces_of(path, '/');
    if taken > 0 {
        joined(
            up_to_last_name(behind_names(pieces, (taken - head_of(path).len()) as nat)),
            "/"@,
        )
    } else if names_in(path).len() > 0 {
        joined(up_to_last_name(pieces), "/"@)
    } else {
        joined(head_of(path), "/"@)
    }
}

/// A path as seen from a workspace: what follows the workspace, or, for a path
/// outside it, its last name.
pub open spec fn seen_from(workspace: Seq<char>, path: Seq<char>) -> Seq<char> {
    if lies_in(path, workspace) {
        text_behind(path, components(workspace).len())
    } else {
        match file_name(path) {
            Some(name) => name,
            None => "unknown"@,
        }
    }
}

/// The first components of `p` are those of `b`.
fn begins_with_all(p: &Vec<String>, b: &Vec<String>) -> (r: bool)
    ensures
        r == (texts(b@).len() <= texts(p@).len() && texts(p@).take(texts(b@).len() as int) == texts(
            b@,
        )),
{
    let ghost pv = texts(p@);
    let ghost bv = texts(b@);
    if b.len() > p.len() {
        return false;
    }
    let mut i: usize = 0;
    while i < b.len()
        invariant
            i <= b@.len(),
            b@.len() <= p@.len(),
            pv == texts(p@),
            bv == texts(b@),
            forall|j: int| 0 <= j < i ==> pv[j] == bv[j],
        decreases b@.len() - i,
    {
        assert(pv[i as int] == p@[i as int]@);
        assert(bv[i as int] == b@[i as int]@);
        if !same_text(p[i].as_str(), b[i].as_str()) {
            assert(pv.take(bv.len() as int)[i as int] != bv[i as int]);
            return false;
        }
        i += 1;
    }
    assert(pv.take(bv.len() as int) =~= bv);
    true
}

/// Two paths with the same components.
pub fn same_path(a: &str, b: &str) -> (r: bool)
    ensures
        r == same_place(a@, b@),
{
    let p = path_components(a);
    let q = path_components(b);
    proof {
        assert(texts(p@).len() == p@.len());
        assert(texts(q@).len() == q@.len());
        assert(texts(p@).take(texts(p@).len() as int) =~= texts(p@));
    }
    p.len() == q.len() && begins_with_all(&p, &q)
}

/// Joins the pieces from `from` on, up to the last name.
fn join_names(pieces: &Vec<String>, from: usize) -> (r: String)
    requires
        from <= pieces@.len(),
    ensures
        r@ == joined(up_to_last_name(texts(pieces@).skip(from as int)), "/"@),
{
    let ghost all = texts(pieces@);
    let mut end: usize = pieces.len();
    proof {
        assert(all.skip(from as int) =~= all.subrange(from as int, end as int));
    }
    while end > from && !is_name(pieces[end - 1].as_str())
        invariant
            from <= end <= pieces@.len(),
            all == texts(pieces@),
            up_to_last_name(all.skip(from as int)) == up_to_last_name(
                all.subrange(from as int, end as int),
            ),
        decreases end,
    {
        proof {
            assert(all.subrange(from as int, end as int).drop_last() =~= all.subrange(
                from as int,
                end - 1,
            ));
            assert(all.subrange(from as int, end as int).last() == pieces@[end - 1]@);
        }
        end -= 1;
    }
    proof {
        if end > from {
            assert(all.subrange(from as int, end as int).last() == pieces@[end - 1]@);
        }
    }
    let mut rest: Vec<String> = Vec::new();
    let mut k: usize = from;
    proof {
        assert(texts(rest@) =~= all.subrange(from as int, from as int));
    }
    while k < end
        invariant
            from <= k <= end <= pieces@.len(),
            all == texts(pieces@),
            texts(rest@) == all.subrange(from as int, k as int),
        decreases end - k,
    {
        proof {
            assert(all.subrange(from as int, k + 1) =~= all.subrange(from as int, k as int).push(
                pieces@[k as int]@,
            ));
        }
        push_line(&mut rest, pieces[k].clone());
        k += 1;
    }
    join(&rest, "/")
}

/// What is left of a path's text behind its first components.
fn strip_components(path: &str, taken: usize) -> (r: String)
    requires
        0 < taken ==> head_of(path@).len() <= taken,
    ensures
        r@ == text_behind(path@, taken as nat),
{
    let pieces = split_pieces(path, '/');
    let ghost all = texts(pieces@);
    let c = chars_of(path);
    proof {
        lemma_pieces_not_empty(path@, '/');
        assert(all.len() == pieces@.len());
        assert(all[0] == pieces@[0]@);
        assert(all.skip(0) =~= all);
    }
    let rooted = c.len() > 0 && c[0] == '/';
    let dotted = !rooted && same_text(pieces[0].as_str(), ".");
    if taken == 0 {
        let names = path_names(path);
        assert(texts(names@).len() == names@.len());
        if names.len() > 0 {
            return join_names(&pieces, 0);
        }
        let mut head: Vec<String> = Vec::new();
        proof {
            assert(texts(head@) =~= Seq::empty());
        }
        if rooted {
            push_line(&mut head, "/".to_owned());
        } else if dotted {
            push_line(&mut head, ".".to_owned());
        }
        proof {
            assert(texts(head@) =~= head_of(path@));
        }
        return join(&head, "/");
    }
    let mut n: usize = if rooted || dotted {
        taken - 1
    } else {
        taken
    };
    let ghost wanted = behind_names(all, n as nat);
    let mut i: usize = 0;
    while i < pieces.len() && (n > 0 || !is_name(pieces[i].as_str()))
        invariant
            i <= pieces@.len(),
            all == texts(pieces@),
            all.len() == pieces@.len(),
            wanted == behind_names(all.skip(i as int), n as nat),
        decreases pieces@.len() - i,
    {
        proof {
            assert(all.skip(i as int)[0] == pieces@[i as int]@);
            assert(all.skip(i as int).skip(1) =~= all.skip(i + 1));
        }
        if is_name(pieces[i].as_str()) {
            n -= 1;
        }
        i += 1;
    }
    proof {
        if i < pieces@.len() {
            assert(all.skip(i as int)[0] == pieces@[i as int]@);
        }
        assert(wanted == all.skip(i as int));
    }
    join_names(&pieces, i)
}

/// A path as seen from a workspace.
pub fn relative_to_workspace(workspace: &str, path: &str) -> (r: String)
    ensures
        r@ == seen_from(workspace@, path@),
{
    let p = path_components(path);
    let b = path_components(workspace);
    assert(texts(b@).len() == b@.len());
    if begins_with_all(&p, &b) {
        proof {
            lemma_head_is_taken(workspace@, path@);
        }
        return strip_components(path, b.len());
    }
    match path_file_name(path) {
        Some(name) => name,
        None => "unknown".to_owned(),
    }
}

/// A prefix with a component covers what stands before the names.
proof fn lemma_head_is_taken(workspace: Seq<char>, path: Seq<char>)
    ensures
        components(workspace).len() > 0 ==> head_of(path).len() <= components(workspace).len(),
{
}

/// A path lies in itself, and nothing is left of it there.
pub proof fn law_workspace_is_left_out(path: Seq<char>)
    requires
        components(path).len() > 0,
    ensures
        lies_in(path, path),
        seen_from(path, path) == Seq::<char>::empty(),
{
    let p = components(path);
    assert(p.take(p.len() as int) =~= p);
    let pieces = pieces_of(path, '/');
    lemma_all_names_taken(pieces);
    assert(p.len() - head_of(path).len() == names_in(path).len());
    let left = behind_names(pieces, names_in(path).len());
    assert(up_to_last_name(left) =~= left);
    assert(joined(left, "/"@) =~= Seq::empty());
}

proof fn lemma_all_names_taken(pieces: Seq<Seq<char>>)
    ensures
        behind_names(pieces, pieces.filter(|p: Seq<char>| names_something(p)).len()).len() == 0,
    decreases pieces.len(),
{
    let keep = |p: Seq<char>| names_something(p);
    if pieces.len() > 0 {
        let rest = pieces.skip(1);
        lemma_all_names_taken(rest);
        assert(pieces =~= seq![pieces[0]] + rest);
        Seq::filter_distributes_over_add(seq![pieces[0]], rest, keep);
        let one = seq![pieces[0]];
        assert(one.filter(keep).len() == if keep(pieces[0]) {
            1int
        } else {
            0
        }) by {
            reveal(Seq::filter);
            assert(one.drop_last() =~= Seq::empty());
            assert(one.last() == pieces[0]);
            assert(Seq::<Seq<char>>::empty().filter(keep).len() == 0);
        }
        if keep(pieces[0]) {
            assert((pieces.filter(keep).len() - 1) as nat == rest.filter(keep).len());
        }
    } else {
        reveal(Seq::filter);
    }
}

/// `Path::join`, for a name that does not begin at the root.
pub open spec fn below(base: Seq<char>, name: Seq<char>) -> Seq<char> {
    if base.len() == 0 || finishes_with(base, "/"@) {
        base + name
    } else {
        base + "/"@ + name
    }
}

/// The path of a name below a directory. The name does not begin at the root.
pub fn path_below(base: &str, name: &str) -> (r: String)
    ensures
        r@ == below(base@, name@),
{
    if base.is_empty() || ends_with(base, "/") {
        return concat(base, name);
    }
    let mut out = concat(base, "/");
    out.append(name);
    out
}

/// The place of a component's kind in the order of paths.
pub open spec fn component_rank(c: Seq<char>) -> int {
    if c == "/"@ {
        0
    } else if c == "."@ {
        1
    } else if c == ".."@ {
        2
    } else {
        3
    }
}

/// A component comes before another: by its kind, then by its text.
pub open spec fn component_before(a: Seq<char>, b: Seq<char>) -> bool {
    component_rank(a) < component_rank(b) || (component_rank(a) == component_rank(b)
        && text_before(a, b))
}

/// Components come before others: by the first that differs, and the shorter
/// list first.
pub open spec fn components_before(p: Seq<Seq<char>>, q: Seq<Seq<char>>) -> bool
    decreases p.len(),
{
    if q.len() == 0 {
        false
    } else if p.len() == 0 {
        true
    } else if p[0] == q[0] {
        components_before(p.skip(1), q.skip(1))
    } else {
        component_before(p[0], q[0])
    }
}

/// A path comes before another.
pub open spec fn path_before(a: Seq<char>, b: Seq<char>) -> bool {
    components_before(components(a), components(b))
}

fn rank_of(c: &str) -> (r: u8)
    ensures
        r == component_rank(c@),
{
    if same_text(c, "/") {
        0
    } else if same_text(c, ".") {
        1
    } else if same_text(c, "..") {
        2
    } else {
        3
    }
}

fn path_comes_before(a: &str, b: &str) -> (r: bool)
    ensures
        r == path_before(a@, b@),
{
    let p = path_components(a);
    let q = path_components(b);
    let ghost pv = texts(p@);
    let ghost qv = texts(q@);
    let mut i: usize = 0;
    proof {
        assert(pv.skip(0) =~= pv);
        assert(qv.skip(0) =~= qv);
    }
    loop
        invariant
            i <= p@.len(),
            i <= q@.len(),
            pv == texts(p@),
            qv == texts(q@),
            pv.len() == p@.len(),
            qv.len() == q@.len(),
            path_before(a@, b@) == components_before(pv.skip(i as int), qv.skip(i as int)),
        decreases p@.len() - i,
    {
        if i == q.len() {
            return false;
        }
        if i == p.len() {
            return true;
        }
        proof {
            assert(pv.skip(i as int)[0] == p@[i as int]@);
            assert(qv.skip(i as int)[0] == q@[i as int]@);
            assert(pv.skip(i as int).skip(1) =~= pv.skip(i + 1));
            assert(qv.skip(i as int).skip(1) =~= qv.skip(i + 1));
        }
        if !same_text(p[i].as_str(), q[i].as_str()) {
            let r1 = rank_of(p[i].as_str());
            let r2 = rank_of(q[i].as_str());
            return r1 < r2 || (r1 == r2 && comes_before(p[i].as_str(), q[i].as_str()));
        }
        i += 1;
    }
}

/// Paths in order; those with the same components keep their places.
pub open spec fn paths_in_order(list: Seq<Seq<char>>) -> Seq<Seq<char>> {
    sort_by(list, |a: Seq<char>, b: Seq<char>| path_before(a, b))
}

/// Puts paths in order.
pub fn sort_paths(list: &Vec<String>) -> (r: Vec<String>)
    ensures
        texts(r@) == paths_in_order(texts(list@)),
        r@.len() == list@.len(),
{
    let ghost before = |a: Seq<char>, b: Seq<char>| path_before(a, b);
    let ghost all = texts(list@);
    let mut out: Vec<String> = Vec::new();
    let mut i: usize = 0;
    proof {
        assert(all.take(0) =~= Seq::empty());
        assert(texts(out@) =~= Seq::empty());
    }
    while i < list.len()
        invariant
            i <= list@.len(),
            before == (|a: Seq<char>, b: Seq<char>| path_before(a, b)),
            all == texts(list@),
            texts(out@) == sort_by(all.take(i as int), before),
            out@.len() == i,
        decreases list@.len() - i,
    {
        let item = list[i].clone();
        let mut p: usize = out.len();
        let ghost sorted = texts(out@);
        while p > 0 && path_comes_before(item.as_str(), out[p - 1].as_str())
            invariant
                p <= out@.len(),
                before == (|a: Seq<char>, b: Seq<char>| path_before(a, b)),
                sorted == texts(out@),
                forall|q: int| p <= q < sorted.len() ==> before(item@, #[trigger] sorted[q]),
            decreases p,
        {
            assert(sorted[p - 1] == out@[p - 1]@);
            p -= 1;
        }
        proof {
            if p > 0 {
                assert(sorted[p - 1] == out@[p - 1]@);
            }
            lemma_insert_at(sorted, item@, p as int, before);
            assert(all.take(i + 1).drop_last() =~= all.take(i as int));
            assert(all.take(i + 1).last() == item@);
        }
        out.insert(p, item);
        proof {
            assert(texts(out@) =~= sorted.insert(p as int, item@));
        }
        i += 1;
    }
    proof {
        assert(all.take(all.len() as int) =~= all);
    }
    out
}

proof fn lemma_components_total(p: Seq<Seq<char>>, q: Seq<Seq<char>>)
    ensures
        p == q ==> !components_before(p, q),
        p != q ==> components_before(p, q) != components_before(q, p),
    decreases p.len(),
{
    if p.len() == 0 || q.len() == 0 {
        if p.len() == 0 && q.len() == 0 {
            assert(p =~= q);
        }
    } else if p[0] == q[0] {
        lemma_components_total(p.skip(1), q.skip(1));
        if p.skip(1) == q.skip(1) {
            assert(p =~= seq![p[0]] + p.skip(1));
            assert(q =~= seq![q[0]] + q.skip(1));
        }
    } else {
        lemma_text_order_total(p[0], q[0]);
    }
}

proof fn lemma_components_transitive(p: Seq<Seq<char>>, q: Seq<Seq<char>>, r: Seq<Seq<char>>)
    requires
        components_before(p, q),
        components_before(q, r),
    ensures
        components_before(p, r),
    decreases p.len(),
{
    if p.len() > 0 && q.len() > 0 && r.len() > 0 {
        if p[0] == q[0] && q[0] == r[0] {
            lemma_components_transitive(p.skip(1), q.skip(1), r.skip(1));
        } else if p[0] != q[0] && q[0] != r[0] {
            if text_before(p[0], q[0]) && text_before(q[0], r[0]) {
                lemma_text_order_transitive(p[0], q[0], r[0]);
            }
            lemma_text_order_total(p[0], q[0]);
            lemma_text_order_total(p[0], r[0]);
        }
    }
}

/// In a list of paths that was put in order, no path comes before one that
/// stands in front of it.
pub proof fn law_paths_are_ordered(list: Seq<Seq<char>>)
    ensures
        in_order(paths_in_order(list), |a: Seq<char>, b: Seq<char>| path_before(a, b)),
{
    let before = |a: Seq<char>, b: Seq<char>| path_before(a, b);
    assert(strict_order(before)) by {
        assert forall|a: Seq<char>, b: Seq<char>| #[trigger] before(a, b) implies !before(b, a) by {
            lemma_components_total(components(a), components(b));
        }
        assert forall|a: Seq<char>, b: Seq<char>, c: Seq<char>|
            !(#[trigger] before(a, b)) && !(#[trigger] before(b, c)) implies !before(a, c) by {
            let x = components(a);
            let y = components(b);
            let z = components(c);
            lemma_components_total(x, y);
            lemma_components_total(y, z);
            lemma_components_total(x, z);
            if x != y && y != z {
                lemma_components_transitive(z, y, x);
            }
        }
    }
    lemma_sort_in_order(list, before);
}

} // verus!
