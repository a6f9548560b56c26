//! How texts are cut, put together, compared and counted.

use crate::paths::{
    behind_names, below, component_before, components, components_before, extension, file_name, head_of, last_dot, lies_in, names_in,
    names_something, seen_from, up_to_last_name,
};
use crate::text::{
    ascii_lower, begins_with, contains_text, decimal, digit, digits_value, find_from,
    finishes_with, is_digit, is_space, joined, lemma_find_from, lemma_joined_add, lemma_trim_back,
    lemma_trim_front, lines_of, occurs_at, parsed_number, pieces_of, replaced,
    signed_decimal, text_before, trim_back, trim_front, trimmed, without_all, without_cr,
    without_prefix, word_len, words_of,
};
use vstd::prelude::*;

verus! {

/// Every character of a text is white space.
pub open spec fn blank(s: Seq<char>) -> bool {
    forall|i: int| 0 <= i < s.len() ==> is_space(#[trigger] s[i])
}

proof fn lemma_front_is_blank(s: Seq<char>)
    ensures
        trim_front(s).len() <= s.len(),
        s == s.take(s.len() - trim_front(s).len()) + trim_front(s),
        blank(s.take(s.len() - trim_front(s).len())),
    decreases s.len(),
{
    if s.len() > 0 && is_space(s[0]) {
        let rest = s.skip(1);
        lemma_front_is_blank(rest);
        let n = s.len() - trim_front(s).len();
        assert(s.take(n) =~= seq![s[0]] + rest.take(n - 1));
        assert(s =~= seq![s[0]] + rest);
    } else {
        assert(s =~= s.take(0) + s);
    }
}

proof fn lemma_back_is_blank(s: Seq<char>)
    ensures
        trim_back(s).len() <= s.len(),
        s == trim_back(s) + s.skip(trim_back(s).len() as int),
        blank(s.skip(trim_back(s).len() as int)),
    decreases s.len(),
{
    if s.len() > 0 && is_space(s.last()) {
        let rest = s.drop_last();
        lemma_back_is_blank(rest);
        let n = trim_back(s).len() as int;
        assert(s.skip(n) =~= rest.skip(n).push(s.last()));
        assert(s =~= rest.push(s.last()));
        assert(s =~= trim_back(s) + s.skip(n));
    } else {
        assert(s =~= s + s.skip(s.len() as int));
    }
}

/// Trimming takes away white space at both ends and nothing else, and all of it.
pub proof fn law_trimming_takes_blanks(s: Seq<char>)
    ensures
        exists|a: Seq<char>, b: Seq<char>|
            #![trigger blank(a), blank(b)]
            blank(a) && blank(b) && s == a + trimmed(s) + b,
        trimmed(s).len() > 0 ==> !is_space(trimmed(s)[0]) && !is_space(trimmed(s).last()),
        blank(s) <==> trimmed(s).len() == 0,
{
    let t = trim_front(s);
    lemma_front_is_blank(s);
    lemma_back_is_blank(t);
    lemma_trim_front(s);
    lemma_trim_back(t);
    let a = s.take(s.len() - t.len());
    let b = t.skip(trimmed(s).len() as int);
    assert(blank(a) && blank(b));
    assert(s =~= a + trimmed(s) + b);
    if trimmed(s).len() > 0 {
        assert(t[0] == trimmed(s)[0]);
        assert(s[a.len() as int] == trimmed(s)[0]);
    } else {
        assert forall|i: int| 0 <= i < s.len() implies is_space(#[trigger] s[i]) by {
            if i < a.len() {
                assert(s[i] == a[i]);
            } else {
                assert(s[i] == b[i - a.len()]);
            }
        }
    }
}

/// A number is written so that reading it gives it back, with no digit too many.
pub proof fn law_numbers_are_read_back(n: nat, max: nat)
    ensures
        digits_value(decimal(n)) == Some(n),
        decimal(n).len() > 0,
        n > 0 ==> decimal(n)[0] != '0',
        parsed_number(decimal(n), max) == (if n <= max {
            Some(n)
        } else {
            None
        }),
        parsed_number(seq!['+'] + decimal(n), max) == parsed_number(decimal(n), max),
        forall|i: int| 0 <= i < decimal(n).len() ==> is_digit(#[trigger] decimal(n)[i]),
    decreases n,
{
    reveal_with_fuel(digits_value, 2);
    if n < 10 {
        let d = seq![digit(n)];
        assert(d.drop_last() =~= Seq::<char>::empty());
        assert(digit(n) as int == 48 + n);
    } else {
        law_numbers_are_read_back(n / 10, max);
        let d = decimal(n);
        assert(d.drop_last() =~= decimal(n / 10));
        assert(digit(n % 10) as int == 48 + n % 10);
        assert(n == 10 * (n / 10) + n % 10);
        assert(d[0] == decimal(n / 10)[0]);
    }
    let signed = seq!['+'] + decimal(n);
    assert(signed.skip(1) =~= decimal(n));
    assert(is_digit(decimal(n)[0]));
}

/// A number below zero is written with a sign before that of its size.
pub proof fn law_signs_are_written(n: nat)
    ensures
        signed_decimal(n as int) == decimal(n),
        n > 0 ==> signed_decimal(-(n as int)) == seq!['-'] + decimal(n),
{
}

/// A text that is not a run of digits behind at most one plus sign is no number.
pub proof fn law_other_texts_are_no_numbers(s: Seq<char>, i: int, max: nat)
    requires
        0 <= i < s.len(),
        !is_digit(s[i]),
        i > 0 || s[i] != '+',
    ensures
        parsed_number(s, max) is None,
        parsed_number(Seq::empty(), max) is None,
        parsed_number(seq!['+'], max) is None,
{
    let body = if s[0] == '+' {
        s.skip(1)
    } else {
        s
    };
    let k: int = if s[0] == '+' {
        i - 1
    } else {
        i
    };
    assert(body[k] == s[i]);
    lemma_other_digits(body, k);
    assert(seq!['+'].skip(1) =~= Seq::<char>::empty());
}

proof fn lemma_other_digits(s: Seq<char>, i: int)
    requires
        0 <= i < s.len(),
        !is_digit(s[i]),
    ensures
        digits_value(s) is None,
    decreases s.len(),
{
    if i < s.len() - 1 {
        assert(s.drop_last()[i] == s[i]);
        lemma_other_digits(s.drop_last(), i);
    }
}

/// Texts are ordered by the first character in which they differ, and a text comes
/// before what it begins.
pub proof fn law_texts_are_ordered(common: Seq<char>, a: Seq<char>, b: Seq<char>)
    ensures
        a.len() > 0 && b.len() > 0 && a[0] != b[0] ==> (text_before(common + a, common + b)
            <==> (a[0] as int) < (b[0] as int)),
        b.len() > 0 ==> text_before(common, common + b),
        !text_before(common + a, common),
    decreases common.len(),
{
    if common.len() > 0 {
        let rest = common.skip(1);
        law_texts_are_ordered(rest, a, b);
        assert((common + a).skip(1) =~= rest + a);
        assert((common + b).skip(1) =~= rest + b);
    } else {
        assert(common + a =~= a);
        assert(common + b =~= b);
        assert(common =~= Seq::<char>::empty());
    }
}

pub proof fn lemma_first_mark(a: Seq<char>, mark: char, b: Seq<char>)
    requires
        !a.contains(mark),
    ensures
        find_from(a + seq![mark] + b, seq![mark], 0) == Some(a.len() as int),
        find_from(a, seq![mark], 0) is None,
{
    let s = a + seq![mark] + b;
    let m = seq![mark];
    lemma_find_from(s, m, 0);
    lemma_find_from(a, m, 0);
    assert(s.subrange(a.len() as int, (a.len() + 1) as int) =~= m);
    assert(occurs_at(s, m, a.len() as int));
    assert forall|j: int| 0 <= j < a.len() implies !occurs_at(s, m, j) by {
        assert(s.subrange(j, j + 1)[0] == a[j]);
    }
    assert forall|j: int| 0 <= j implies !occurs_at(a, m, j) by {
        if j < a.len() {
            assert(a.subrange(j, j + 1)[0] == a[j]);
        }
    }
}

/// A text is cut at each mark: what stands before the first is the first piece, what
/// follows it is cut in turn, and a text without the mark is one piece.
pub proof fn law_texts_are_cut_at_marks(a: Seq<char>, mark: char, b: Seq<char>)
    requires
        !a.contains(mark),
    ensures
        pieces_of(a, mark) == seq![a],
        pieces_of(a + seq![mark] + b, mark) == seq![a] + pieces_of(b, mark),
{
    lemma_first_mark(a, mark, b);
    let s = a + seq![mark] + b;
    assert(s.take(a.len() as int) =~= a);
    assert(s.skip((a.len() + 1) as int) =~= b);
}

/// The pieces of a text, with the mark between them, are the text again; and no
/// piece holds the mark.
pub proof fn law_pieces_make_the_text(s: Seq<char>, mark: char)
    ensures
        joined(pieces_of(s, mark), seq![mark]) == s,
        pieces_of(s, mark).len() > 0,
        forall|i: int|
            0 <= i < pieces_of(s, mark).len() ==> !(#[trigger] pieces_of(s, mark)[i]).contains(mark),
    decreases s.len(),
{
    let m = seq![mark];
    lemma_find_from(s, m, 0);
    match find_from(s, m, 0) {
        Some(i) => {
            let a = s.take(i);
            let b = s.skip(i + 1);
            law_pieces_make_the_text(b, mark);
            lemma_joined_add(seq![a], pieces_of(b, mark), m);
            assert(joined(seq![a], m) == a);
            assert(s.subrange(i, i + 1)[0] == s[i]);
            assert(s =~= a + m + b);
            if a.contains(mark) {
                let j = choose|j: int| 0 <= j < a.len() && a[j] == mark;
                assert(s.subrange(j, j + 1) =~= m);
                assert(occurs_at(s, m, j));
            }
            assert forall|k: int| 0 <= k < pieces_of(s, mark).len() implies !(
            #[trigger] pieces_of(s, mark)[k]).contains(mark) by {
                if k > 0 {
                    assert(pieces_of(s, mark)[k] == pieces_of(b, mark)[k - 1]);
                }
            }
        },
        None => {
            if s.contains(mark) {
                let j = choose|j: int| 0 <= j < s.len() && s[j] == mark;
                assert(s.subrange(j, j + 1) =~= m);
                assert(occurs_at(s, m, j));
            }
        },
    }
}

/// A text is cut into lines at each line feed, which belongs to none of them, nor
/// does a carriage return before it; a text without a line feed is one line, unless
/// it is empty.
pub proof fn law_texts_are_cut_into_lines(a: Seq<char>, b: Seq<char>)
    requires
        !a.contains('\n'),
    ensures
        lines_of(a) == (if a.len() == 0 {
            Seq::empty()
        } else {
            seq![a]
        }),
        lines_of(a + seq!['\n'] + b) == seq![without_cr(a)] + lines_of(b),
        a.len() == 0 || a.last() != '\r' ==> without_cr(a) == a,
        a.len() > 0 && a.last() == '\r' ==> without_cr(a) == a.drop_last(),
{
    lemma_first_mark(a, '\n', b);
    let s = a + seq!['\n'] + b;
    assert(s.take(a.len() as int) =~= a);
    assert(s.skip((a.len() + 1) as int) =~= b);
}

proof fn lemma_word_ends(a: Seq<char>, b: Seq<char>)
    requires
        forall|i: int| 0 <= i < a.len() ==> !is_space(#[trigger] a[i]),
        b.len() > 0 ==> is_space(b[0]),
    ensures
        word_len(a + b) == a.len(),
    decreases a.len(),
{
    let s = a + b;
    if a.len() > 0 {
        let rest = a.skip(1);
        assert forall|i: int| 0 <= i < rest.len() implies !is_space(#[trigger] rest[i]) by {
            assert(rest[i] == a[i + 1]);
        }
        lemma_word_ends(rest, b);
        assert(s.skip(1) =~= rest + b);
        assert(s[0] == a[0]);
    } else {
        assert(s =~= b);
    }
}

proof fn lemma_blanks_go(a: Seq<char>, b: Seq<char>)
    requires
        blank(a),
    ensures
        trim_front(a + b) == trim_front(b),
    decreases a.len(),
{
    if a.len() > 0 {
        let rest = a.skip(1);
        lemma_blanks_go(rest, b);
        assert((a + b).skip(1) =~= rest + b);
        assert((a + b)[0] == a[0]);
    } else {
        assert(a + b =~= b);
    }
}

/// A text is cut into words at white space: blanks in front do not count, and a
/// word is followed by the words behind it.
pub proof fn law_texts_are_cut_into_words(front: Seq<char>, word: Seq<char>, rest: Seq<char>)
    requires
        blank(front),
        word.len() > 0,
        forall|i: int| 0 <= i < word.len() ==> !is_space(#[trigger] word[i]),
        rest.len() > 0 ==> is_space(rest[0]),
    ensures
        words_of(front + word + rest) == seq![word] + words_of(rest),
        words_of(front).len() == 0,
{
    let s = front + word + rest;
    let t = word + rest;
    assert(s =~= front + t);
    lemma_blanks_go(front, t);
    assert(t[0] == word[0]);
    assert(trim_front(t) == t);
    lemma_word_ends(word, rest);
    assert(t.take(word.len() as int) =~= word);
    assert(t.skip(word.len() as int) =~= rest);
    lemma_blanks_go(front, Seq::empty());
    assert(front + Seq::<char>::empty() =~= front);
}

/// A text is replaced from the front: what stands before its first place stays, what
/// follows is replaced in turn, and a text without it stays as it is.
pub proof fn law_texts_are_replaced(a: Seq<char>, pat: Seq<char>, b: Seq<char>, with: Seq<char>)
    requires
        pat.len() > 0,
        find_from(a + pat + b, pat, 0) == Some(a.len() as int),
    ensures
        replaced(a + pat + b, pat, with) == a + with + replaced(b, pat, with),
        without_all(a + pat + b, pat) == a + without_all(b, pat),
        !contains_text(b, pat) ==> replaced(b, pat, with) == b && without_all(b, pat) == b,
{
    let s = a + pat + b;
    assert(s.take(a.len() as int) =~= a);
    assert(s.skip(a.len() + pat.len() as int) =~= b);
    assert(a + Seq::<char>::empty() + replaced(b, pat, Seq::empty()) =~= a + replaced(
        b,
        pat,
        Seq::empty(),
    ));
    lemma_find_from(b, pat, 0);
}

/// A text begins with another exactly where it is that text and something more, and
/// this is what is left without it; likewise at the end.
pub proof fn law_prefixes_are_taken(pat: Seq<char>, rest: Seq<char>, s: Seq<char>)
    ensures
        begins_with(pat + rest, pat),
        without_prefix(pat + rest, pat) == Some(rest),
        finishes_with(rest + pat, pat),
        without_prefix(s, pat) matches Some(r) ==> s == pat + r,
        finishes_with(s, pat) ==> s == s.take(s.len() - pat.len()) + pat,
        contains_text(rest + pat + s, pat),
{
    let t = pat + rest;
    assert(t.subrange(0, 0int + pat.len()) =~= pat);
    assert(t.skip(pat.len() as int) =~= rest);
    let u = rest + pat;
    assert(u.subrange(u.len() - pat.len(), u.len() - pat.len() + pat.len()) =~= pat);
    if let Some(r) = without_prefix(s, pat) {
        assert(s =~= s.subrange(0, 0int + pat.len()) + r);
    }
    if finishes_with(s, pat) {
        let i = s.len() - pat.len();
        assert(s =~= s.take(i) + s.subrange(i, i + pat.len()));
    }
    let v = rest + pat + s;
    assert(v.subrange(rest.len() as int, rest.len() + pat.len() as int) =~= pat);
    assert(occurs_at(v, pat, rest.len() as int));
}

/// Small letters are made of capitals, one for each, and of nothing else.
pub proof fn law_capitals_are_made_small(s: Seq<char>, i: int)
    requires
        0 <= i < s.len(),
    ensures
        ascii_lower(s).len() == s.len(),
        'A' <= s[i] <= 'Z' ==> ascii_lower(s)[i] as int == s[i] as int + 32,
        !('A' <= s[i] <= 'Z') ==> ascii_lower(s)[i] == s[i],
{
}

/// Parts are put together in order, with the separator between neighbours and
/// nowhere else.
pub proof fn law_parts_are_put_together(
    parts: Seq<Seq<char>>,
    last: Seq<char>,
    sep: Seq<char>,
)
    ensures
        joined(Seq::empty(), sep).len() == 0,
        joined(seq![last], sep) == last,
        parts.len() > 0 ==> joined(parts.push(last), sep) == joined(parts, sep) + sep + last,
{
    assert(parts.push(last).drop_last() =~= parts);
}

// ---------------------------------------------------------------------------
// Paths
// ---------------------------------------------------------------------------

proof fn lemma_one_name(name: Seq<char>)
    requires
        name.len() > 0,
        name != "."@,
    ensures
        seq![name].filter(|p: Seq<char>| names_something(p)) == seq![name],
{
    reveal(Seq::filter);
    let one = seq![name];
    assert(one.drop_last() =~= Seq::<Seq<char>>::empty());
    assert(one.last() == name);
    assert(Seq::<Seq<char>>::empty().push(name) =~= one);
}

proof fn lemma_last_name(base: Seq<char>, name: Seq<char>)
    requires
        !name.contains('/'),
        name.len() > 0,
        name != "."@,
    ensures
        names_in(base + seq!['/'] + name) == names_in(base).push(name),
        names_in(name) == seq![name],
{
    lemma_pieces_of_path(base, name);
    law_texts_are_cut_at_marks(name, '/', Seq::empty());
    lemma_one_name(name);
    lemma_kept_name(pieces_of(base, '/'), name);
}

proof fn lemma_kept_name(pieces: Seq<Seq<char>>, name: Seq<char>)
    requires
        names_something(name),
    ensures
        pieces.push(name).filter(|p: Seq<char>| names_something(p)) == pieces.filter(
            |p: Seq<char>| names_something(p),
        ).push(name),
{
    reveal(Seq::filter);
    let all = pieces.push(name);
    assert(all.drop_last() =~= pieces);
    assert(all.last() == name);
}

/// A path below a directory ends with its name, which is the name of its file; what
/// stands behind the last dot of it, unless it begins with that dot, is the kind.
#[verifier::rlimit(40)]
pub proof fn law_files_are_named(base: Seq<char>, stem: Seq<char>, kind: Seq<char>)
    requires
        !stem.contains('/'),
        !kind.contains('/'),
        !kind.contains('.'),
        stem.len() > 0,
        kind.len() > 0,
        base.len() > 0,
        base.last() != '/',
    ensures
        ({
            let name = stem + seq!['.'] + kind;
            &&& below(base, name) == base + seq!['/'] + name
            &&& file_name(below(base, name)) == Some(name)
            &&& extension(below(base, name)) == Some(kind)
            &&& file_name(name) == Some(name)
        }),
{
    let name = stem + seq!['.'] + kind;
    reveal_strlit("/");
    reveal_strlit(".");
    reveal_strlit("..");
    assert("/"@ =~= seq!['/']);
    assert("."@.len() == 1 && ".."@.len() == 2);
    assert(name.len() >= 3);
    assert(base.subrange(base.len() - 1, base.len() as int)[0] == base.last());
    if name.contains('/') {
        let j = choose|j: int| 0 <= j < name.len() && name[j] == '/';
        if j < stem.len() {
            assert(stem[j] == '/');
        } else if j > stem.len() {
            assert(kind[j - stem.len() - 1] == '/');
        }
    }
    lemma_last_name(base, name);
    let parts = names_in(base).push(name);
    assert(parts.last() == name);
    lemma_dot_found(stem, kind, name.len());
    assert(name.skip((stem.len() + 1) as int) =~= kind);
}

proof fn lemma_dot_found(stem: Seq<char>, kind: Seq<char>, n: nat)
    requires
        !kind.contains('.'),
        stem.len() < n <= stem.len() + 1 + kind.len(),
    ensures
        last_dot(stem + seq!['.'] + kind, n) == Some(stem.len() as int),
    decreases n,
{
    let name = stem + seq!['.'] + kind;
    if n > stem.len() + 1 {
        assert(name[n - 1] == kind[n - 2 - stem.len()]);
        lemma_dot_found(stem, kind, (n - 1) as nat);
    }
}

#[verifier::rlimit(40)]
proof fn lemma_behind(pieces: Seq<Seq<char>>, name: Seq<char>)
    requires
        names_something(name),
    ensures
        behind_names(
            pieces.push(name),
            pieces.filter(|p: Seq<char>| names_something(p)).len(),
        ) == seq![name],
    decreases pieces.len(),
{
    let p = |q: Seq<char>| names_something(q);
    reveal_with_fuel(Seq::filter, 3);
    let all = pieces.push(name);
    if pieces.len() == 0 {
        assert(pieces.filter(p).len() == 0);
        assert(all =~= seq![name]);
    } else {
        let first = seq![pieces[0]];
        let rest = pieces.skip(1);
        lemma_behind(rest, name);
        assert(pieces =~= first + rest);
        assert(all.skip(1) =~= rest.push(name));
        assert(all[0] == pieces[0]);
        Seq::filter_distributes_over_add(first, rest, p);
        assert(first.drop_last() =~= Seq::<Seq<char>>::empty());
        assert(first.last() == pieces[0]);
        assert(first.drop_last().filter(p) =~= Seq::<Seq<char>>::empty());
        if names_something(pieces[0]) {
            assert(first.filter(p).len() == 1);
        } else {
            assert(first.filter(p).len() == 0);
        }
    }
}

/// A file in a workspace is seen from there by its name.
#[verifier::rlimit(40)]
pub proof fn law_files_are_seen_from_their_workspace(workspace: Seq<char>, name: Seq<char>)
    requires
        workspace.len() > 0,
        workspace.last() != '/',
        names_in(workspace).len() > 0,
        !name.contains('/'),
        name.len() > 0,
        name != "."@,
    ensures
        lies_in(below(workspace, name), workspace),
        seen_from(workspace, below(workspace, name)) == name,
{
    let path = workspace + seq!['/'] + name;
    reveal_strlit("/");
    assert("/"@ =~= seq!['/']);
    assert(workspace.subrange(workspace.len() - 1, workspace.len() as int)[0] == workspace.last());
    assert(below(workspace, name) == path);
    lemma_last_name(workspace, name);
    lemma_pieces_of_path(workspace, name);
    assert(pieces_of(workspace, '/').push(name)[0] == pieces_of(workspace, '/')[0]);
    assert(path[0] == workspace[0]);
    assert(head_of(path) == head_of(workspace));
    let c = components(workspace);
    assert(components(path) =~= c.push(name));
    assert(components(path).take(c.len() as int) =~= c);
    lemma_behind(pieces_of(workspace, '/'), name);
    let one = seq![name];
    assert(names_something(one.last()));
    assert(up_to_last_name(one) == one);
    assert(joined(one, "/"@) == name);
    assert((c.len() - head_of(path).len()) as nat == names_in(workspace).len());
}

#[verifier::rlimit(40)]
proof fn lemma_pieces_of_path(base: Seq<char>, name: Seq<char>)
    requires
        !name.contains('/'),
    ensures
        pieces_of(base + seq!['/'] + name, '/') == pieces_of(base, '/').push(name),
        pieces_of(base, '/').len() > 0,
    decreases base.len(),
{
    let s = base + seq!['/'] + name;
    law_pieces_make_the_text(base, '/');
    law_texts_are_cut_at_marks(name, '/', Seq::empty());
    lemma_find_from(base, seq!['/'], 0);
    match find_from(base, seq!['/'], 0) {
        Some(i) => {
            let a = base.take(i);
            let b = base.skip(i + 1);
            assert(base.subrange(i, i + 1)[0] == base[i]);
            assert(base =~= a + seq!['/'] + b);
            if a.contains('/') {
                let j = choose|j: int| 0 <= j < a.len() && a[j] == '/';
                assert(base.subrange(j, j + 1) =~= seq!['/']);
                assert(occurs_at(base, seq!['/'], j));
            }
            law_texts_are_cut_at_marks(a, '/', b);
            let c = b + seq!['/'] + name;
            assert(s =~= a + seq!['/'] + c);
            law_texts_are_cut_at_marks(a, '/', c);
            lemma_pieces_of_path(b, name);
            assert(seq![a] + pieces_of(b, '/').push(name) =~= (seq![a] + pieces_of(b, '/')).push(
                name,
            ));
        },
        None => {
            if base.contains('/') {
                let j = choose|j: int| 0 <= j < base.len() && base[j] == '/';
                assert(base.subrange(j, j + 1) =~= seq!['/']);
                assert(occurs_at(base, seq!['/'], j));
            }
            law_texts_are_cut_at_marks(base, '/', name);
            assert(seq![base] + seq![name] =~= seq![base].push(name));
        },
    }
}

/// A path outside the workspace is seen by its last name.
pub proof fn law_other_files_are_seen_by_name(workspace: Seq<char>, path: Seq<char>)
    requires
        !lies_in(path, workspace),
    ensures
        file_name(path) matches Some(name) ==> seen_from(workspace, path) == name,
        file_name(path) is None ==> seen_from(workspace, path) == "unknown"@,
{
}

/// Paths are ordered part by part: a path comes before those below it, the root before
/// a dot, that before the way up, and that before a name.
pub proof fn law_paths_are_ordered_by_parts(
    common: Seq<Seq<char>>,
    a: Seq<Seq<char>>,
    b: Seq<Seq<char>>,
)
    ensures
        b.len() > 0 ==> components_before(common, common + b),
        !components_before(common + a, common),
        a.len() > 0 && b.len() > 0 && a[0] != b[0] ==> (components_before(common + a, common + b)
            <==> component_before(a[0], b[0])),
        component_before("/"@, "."@),
        component_before("."@, ".."@),
        forall|name: Seq<char>|
            name != "/"@ && name != "."@ && name != ".."@ ==> component_before(".."@, name),
        forall|x: Seq<char>, y: Seq<char>|
            x != "/"@ && x != "."@ && x != ".."@ && y != "/"@ && y != "."@ && y != ".."@ ==> (
            #[trigger] component_before(x, y) <==> text_before(x, y)),
    decreases common.len(),
{
    reveal_strlit("/");
    reveal_strlit(".");
    reveal_strlit("..");
    assert("/"@.len() == 1 && "."@.len() == 1 && ".."@.len() == 2);
    assert("/"@[0] == '/' && "."@[0] == '.');
    if common.len() > 0 {
        let rest = common.skip(1);
        law_paths_are_ordered_by_parts(rest, a, b);
        assert((common + a).skip(1) =~= rest + a);
        assert((common + b).skip(1) =~= rest + b);
    } else {
        assert(common + a =~= a);
        assert(common + b =~= b);
        assert(common =~= Seq::<Seq<char>>::empty());
    }
}

/// The first line of a text is what stands before its first line feed.
pub proof fn law_first_lines_come_first(a: Seq<char>, b: Seq<char>)
    requires
        !a.contains('\n'),
    ensures
        crate::text::first_line(a) == a,
        crate::text::first_line(a + seq!['\n'] + b) == without_cr(a),
{
    law_texts_are_cut_into_lines(a, b);
    if a.len() == 0 {
        assert(a =~= Seq::<char>::empty());
    }
}

} // verus!
