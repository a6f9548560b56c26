//! What reading tool calls out of a text promises.

use crate::json::{json_of_text, law_first_member_is_found, lookup, JsonView};
use crate::streaming::start_markers;
use crate::text::{
    contains_text, find_from, joined, lemma_text_order_total, lemma_text_order_transitive, lines_of,
    text_before, trimmed, without_all,
};
use crate::tool_parser::{
    after_blocks, after_invokes, argument_members, argument_value, arrow_arguments, captured,
    closing_brace, command_line_arguments, erased, group, inner_call, is_wrapper_tag,
    may_hold_call, object_end, object_in, parameter_members, parsed_calls, stated_call,
    tag_members, tagged_arguments, tagged_call, tidied, value_of, with_member, FoundView,
    ParseView, ParsedView, Search, ARROW_TOOL_PATTERN, CLI_ARGUMENT_PATTERN,
    FAKE_TOOL_WRAPPER_PATTERN, FLEXIBLE_PATTERN, INVOKE_PATTERN, KEY_VALUE_PATTERN,
    THINKING_PATTERN, TOOL_CALL_PATTERN, XML_TOOL_CALL_PATTERN,
};
use vstd::prelude::*;

verus! {

// ---------------------------------------------------------------------------
// Arguments
// ---------------------------------------------------------------------------

/// The members of an object.
pub type Members = Seq<(Seq<char>, JsonView)>;

/// The members stand in the order of their names, and no name occurs twice.
pub open spec fn by_name(m: Members) -> bool {
    forall|i: int, j: int|
        0 <= i < j < m.len() ==> text_before((#[trigger] m[i]).0, (#[trigger] m[j]).0)
}

/// There is a member of a name and a value.
pub open spec fn has(m: Members, name: Seq<char>, value: JsonView) -> bool {
    exists|i: int| 0 <= i < m.len() && #[trigger] m[i] == (name, value)
}

/// There is a member of a name.
pub open spec fn named(m: Members, name: Seq<char>) -> bool {
    exists|i: int| 0 <= i < m.len() && (#[trigger] m[i]).0 == name
}

/// What a text stands for: the JSON in it, else the text itself.
pub open spec fn read_as(text: Seq<char>) -> JsonView {
    if json_of_text(text) is Some {
        json_of_text(text)->0
    } else {
        JsonView::Str(text)
    }
}

proof fn lemma_same_name(m: Members, i: int, j: int)
    requires
        by_name(m),
        0 <= i < m.len(),
        0 <= j < m.len(),
        m[i].0 == m[j].0,
    ensures
        i == j,
{
    lemma_text_order_total(m[i].0, m[j].0);
    if i < j {
        assert(text_before(m[i].0, m[j].0));
    } else if j < i {
        assert(text_before(m[j].0, m[i].0));
    }
}

proof fn lemma_lookup(m: Members, name: Seq<char>)
    ensures
        lookup(m, name, 0) is Some <==> named(m, name),
        lookup(m, name, 0) is Some ==> has(m, name, lookup(m, name, 0)->0),
        by_name(m) ==> forall|v: JsonView| #[trigger]
            has(m, name, v) ==> lookup(m, name, 0) == Some(v),
{
    law_first_member_is_found(m, name, 0);
    match lookup(m, name, 0) {
        Some(v) => {
            let i = choose|i: int|
                {
                    &&& 0 <= i < m.len()
                    &&& #[trigger] m[i] == (name, v)
                    &&& forall|j: int| 0 <= j < i ==> (#[trigger] m[j]).0 != name
                };
            assert(m[i].0 == name);
            if by_name(m) {
                assert forall|w: JsonView| #[trigger] has(m, name, w) implies w == v by {
                    let k = choose|k: int| 0 <= k < m.len() && #[trigger] m[k] == (name, w);
                    lemma_same_name(m, i, k);
                }
            }
        },
        None => {},
    }
}

/// What setting a member does: it is there, every other one stays, and the order
/// of the names is kept.
pub proof fn law_setting_a_member(m: Members, key: Seq<char>, value: JsonView, from: int)
    requires
        by_name(m),
        0 <= from <= m.len(),
        forall|i: int| 0 <= i < from ==> text_before((#[trigger] m[i]).0, key),
    ensures
        ({
            let r = with_member(m, key, value, from);
            &&& by_name(r)
            &&& has(r, key, value)
            &&& forall|k: Seq<char>, v: JsonView|
                k != key ==> (#[trigger] has(r, k, v) <==> has(m, k, v))
        }),
    decreases m.len() - from,
{
    let r = with_member(m, key, value, from);
    if from >= m.len() {
        assert(r[m.len() as int] == (key, value));
        assert forall|k: Seq<char>, v: JsonView| k != key implies (#[trigger] has(r, k, v)
            <==> has(m, k, v)) by {
            if has(m, k, v) {
                let i = choose|i: int| 0 <= i < m.len() && #[trigger] m[i] == (k, v);
                assert(r[i] == (k, v));
            }
        }
    } else if m[from].0 == key {
        assert(r[from] == (key, value));
        assert forall|i: int, j: int| 0 <= i < j < r.len() implies text_before(
            (#[trigger] r[i]).0,
            (#[trigger] r[j]).0,
        ) by {
            assert(r[i].0 == m[i].0 && r[j].0 == m[j].0);
        }
        assert forall|k: Seq<char>, v: JsonView| k != key implies (#[trigger] has(r, k, v)
            <==> has(m, k, v)) by {
            if has(m, k, v) {
                let i = choose|i: int| 0 <= i < m.len() && #[trigger] m[i] == (k, v);
                assert(r[i] == (k, v));
            }
            if has(r, k, v) {
                let i = choose|i: int| 0 <= i < r.len() && #[trigger] r[i] == (k, v);
                assert(m[i] == (k, v));
            }
        }
    } else if text_before(key, m[from].0) {
        assert(r[from] == (key, value));
        assert forall|i: int, j: int| 0 <= i < j < r.len() implies text_before(
            (#[trigger] r[i]).0,
            (#[trigger] r[j]).0,
        ) by {
            let a = if i < from {
                i
            } else {
                i - 1
            };
            let b = if j < from {
                j
            } else {
                j - 1
            };
            if i == from {
                assert(r[j] == m[b]);
                if b > from {
                    assert(text_before(m[from].0, m[b].0));
                    lemma_text_order_transitive(key, m[from].0, m[b].0);
                }
            } else if j == from {
                assert(r[i] == m[i]);
            } else {
                assert(r[i] == m[a] && r[j] == m[b]);
            }
        }
        assert forall|k: Seq<char>, v: JsonView| k != key implies (#[trigger] has(r, k, v)
            <==> has(m, k, v)) by {
            if has(m, k, v) {
                let i = choose|i: int| 0 <= i < m.len() && #[trigger] m[i] == (k, v);
                let at = if i < from {
                    i
                } else {
                    i + 1
                };
                assert(r[at] == (k, v));
            }
            if has(r, k, v) {
                let i = choose|i: int| 0 <= i < r.len() && #[trigger] r[i] == (k, v);
                let at = if i < from {
                    i
                } else {
                    i - 1
                };
                assert(m[at] == (k, v));
            }
        }
    } else {
        lemma_text_order_total(key, m[from].0);
        law_setting_a_member(m, key, value, from + 1);
    }
}

/// The name and the value of a parameter, where it has both.
pub open spec fn sets(m: Seq<Option<Seq<char>>>, name: Seq<char>, value: Seq<char>) -> bool {
    m.len() > 2 && m[1] == Some(name) && m[2] == Some(value)
}

/// Of the parameters from `k` to `n` only the `k`th is of a name.
pub open spec fn last_of_name(
    list: Seq<Seq<Option<Seq<char>>>>,
    n: int,
    k: int,
    name: Seq<char>,
) -> bool {
    forall|j: int, v: Seq<char>| k < j < n ==> !#[trigger] sets(list[j], name, v)
}

/// Each parameter with a name and a value sets an argument of that name; of
/// several of one name the last counts. Nothing else is set.
pub proof fn law_parameters_set_arguments(list: Seq<Seq<Option<Seq<char>>>>, n: nat)
    requires
        n <= list.len(),
    ensures
        by_name(parameter_members(list, n)),
        forall|k: int, name: Seq<char>, value: Seq<char>|
            0 <= k < n && #[trigger] sets(list[k], name, value) && last_of_name(
                list,
                n as int,
                k,
                name,
            ) ==> has(parameter_members(list, n), name, read_as(trimmed(value))),
        forall|name: Seq<char>| #[trigger]
            named(parameter_members(list, n), name) ==> exists|k: int, value: Seq<char>|
                0 <= k < n && #[trigger] sets(list[k], name, value),
    decreases n,
{
    if n > 0 {
        law_parameters_set_arguments(list, (n - 1) as nat);
        let before = parameter_members(list, (n - 1) as nat);
        let after = parameter_members(list, n);
        let last = list[n - 1];
        let full = group(last, 1) is Some && group(last, 2) is Some;
        if full {
            let name = group(last, 1)->0;
            let value = group(last, 2)->0;
            law_setting_a_member(before, name, value_of(json_of_text(trimmed(value)), trimmed(value)), 0);
            assert(sets(last, name, value));
        }
        assert forall|k: int, name: Seq<char>, value: Seq<char>|
            0 <= k < n && #[trigger] sets(list[k], name, value) && last_of_name(
                list,
                n as int,
                k,
                name,
            ) implies has(after, name, read_as(trimmed(value))) by {
            if k < n - 1 {
                assert(last_of_name(list, n - 1, k, name));
                assert(has(before, name, read_as(trimmed(value))));
                if full {
                    let own = group(last, 1)->0;
                    if own == name {
                        assert(sets(list[n - 1], name, group(last, 2)->0));
                    }
                }
            }
        }
        assert forall|name: Seq<char>| #[trigger] named(after, name) implies exists|
            k: int,
            value: Seq<char>,
        | 0 <= k < n && #[trigger] sets(list[k], name, value) by {
            let i = choose|i: int| 0 <= i < after.len() && (#[trigger] after[i]).0 == name;
            assert(has(after, name, after[i].1));
            if full && name == group(last, 1)->0 {
                assert(sets(list[n - 1], name, group(last, 2)->0));
            } else {
                assert(has(before, name, after[i].1));
                let q = choose|q: int| 0 <= q < before.len() && #[trigger] before[q] == (
                    name,
                    after[i].1,
                );
                assert(named(before, name));
                let (k, value) = choose|k: int, value: Seq<char>|
                    0 <= k < n - 1 && #[trigger] sets(list[k], name, value);
                assert(sets(list[k], name, value));
            }
        }
    }
}

/// A simple tag that closes with its own name and names no wrapper.
pub open spec fn is_tag(m: Seq<Option<Seq<char>>>, name: Seq<char>, value: Seq<char>) -> bool {
    &&& m.len() > 3
    &&& m[1] == Some(name)
    &&& m[2] == Some(value)
    &&& m[3] == Some(name)
    &&& name != "invoke"@ && name != "tool_call"@ && name != "parameter"@ && name != "param"@
}

/// Simple tags never change an argument that is there; of those that name one that
/// is not, the first sets it.
pub proof fn law_tags_fill_in(start: Members, list: Seq<Seq<Option<Seq<char>>>>, n: nat)
    requires
        by_name(start),
        n <= list.len(),
    ensures
        by_name(tag_members(start, list, n)),
        forall|name: Seq<char>, v: JsonView| #[trigger]
            has(start, name, v) ==> has(tag_members(start, list, n), name, v),
        forall|k: int, name: Seq<char>, value: Seq<char>|
            0 <= k < n && #[trigger] is_tag(list[k], name, value) && !named(start, name) && (
            forall|j: int, v: Seq<char>| 0 <= j < k ==> !#[trigger] is_tag(list[j], name, v))
                ==> has(tag_members(start, list, n), name, read_as(trimmed(value))),
        forall|name: Seq<char>| #[trigger]
            named(tag_members(start, list, n), name) ==> named(start, name) || exists|
                k: int,
                value: Seq<char>,
            | 0 <= k < n && #[trigger] is_tag(list[k], name, value),
    decreases n,
{
    if n > 0 {
        law_tags_fill_in(start, list, (n - 1) as nat);
        let before = tag_members(start, list, (n - 1) as nat);
        let after = tag_members(start, list, n);
        let last = list[n - 1];
        let full = group(last, 1) is Some && group(last, 2) is Some && group(last, 3) is Some;
        let own = group(last, 1)->0;
        let given = group(last, 2)->0;
        let set = full && own == group(last, 3)->0 && !is_wrapper_tag(own) && lookup(
            before,
            own,
            0,
        ) is None;
        lemma_lookup(before, own);
        if set {
            law_setting_a_member(before, own, value_of(json_of_text(trimmed(given)), trimmed(given)), 0);
            assert(is_tag(last, own, given));
        } else {
            assert(after == before);
        }
        assert forall|name: Seq<char>, v: JsonView| #[trigger] has(start, name, v) implies has(
            after,
            name,
            v,
        ) by {
            assert(has(before, name, v));
            if set && name == own {
                let i = choose|i: int| 0 <= i < before.len() && #[trigger] before[i] == (name, v);
                assert(before[i].0 == name);
                assert(named(before, name));
            }
        }
        assert forall|k: int, name: Seq<char>, value: Seq<char>|
            0 <= k < n && #[trigger] is_tag(list[k], name, value) && !named(start, name) && (
            forall|j: int, v: Seq<char>| 0 <= j < k ==> !#[trigger] is_tag(list[j], name, v))
            implies has(after, name, read_as(trimmed(value))) by {
            if k < n - 1 {
                assert(has(before, name, read_as(trimmed(value))));
                if set && name == own {
                    let i = choose|i: int|
                        0 <= i < before.len() && #[trigger] before[i] == (
                            name,
                            read_as(trimmed(value)),
                        );
                    assert(before[i].0 == name);
                    assert(named(before, name));
                }
            } else {
                assert(own == name && given == value);
                if named(before, name) {
                    let (j, v) = choose|j: int, v: Seq<char>|
                        0 <= j < n - 1 && #[trigger] is_tag(list[j], name, v);
                    assert(is_tag(list[j], name, v));
                }
            }
        }
        assert forall|name: Seq<char>| #[trigger] named(after, name) implies named(start, name)
            || exists|k: int, value: Seq<char>|
            0 <= k < n && #[trigger] is_tag(list[k], name, value) by {
            let i = choose|i: int| 0 <= i < after.len() && (#[trigger] after[i]).0 == name;
            assert(has(after, name, after[i].1));
            if set && name == own {
                assert(is_tag(list[n - 1], name, given));
            } else {
                assert(has(before, name, after[i].1));
                let q = choose|q: int|
                    0 <= q < before.len() && #[trigger] before[q] == (name, after[i].1);
                assert(before[q].0 == name);
                assert(named(before, name));
                if !named(start, name) {
                    let (k, value) = choose|k: int, value: Seq<char>|
                        0 <= k < n - 1 && #[trigger] is_tag(list[k], name, value);
                    assert(is_tag(list[k], name, value));
                }
            }
        }
    }
}

/// The arguments of a block in tags hold, for each parameter with a name and a
/// value, a member of that name with the value of the last parameter of it.
pub proof fn law_blocks_hold_their_parameters(
    params: Seq<Seq<Option<Seq<char>>>>,
    tags: Seq<Seq<Option<Seq<char>>>>,
    k: int,
    name: Seq<char>,
    value: Seq<char>,
)
    requires
        0 <= k < params.len(),
        sets(params[k], name, value),
        last_of_name(params, params.len() as int, k, name),
    ensures
        ({
            let args = tag_members(parameter_members(params, params.len()), tags, tags.len());
            &&& has(args, name, read_as(trimmed(value)))
            &&& JsonView::Object(args).field(name) == Some(read_as(trimmed(value)))
        }),
{
    law_parameters_set_arguments(params, params.len());
    let start = parameter_members(params, params.len());
    assert(has(start, name, read_as(trimmed(value))));
    law_tags_fill_in(start, tags, tags.len());
    lemma_lookup(tag_members(start, tags, tags.len()), name);
}

/// The key and the value of an argument on a command line: the value is quoted
/// twice, quoted once or bare.
pub open spec fn gives(m: Seq<Option<Seq<char>>>, key: Seq<char>, value: Seq<char>) -> bool {
    &&& m.len() > 1 && m[1] == Some(key)
    &&& if m.len() > 2 && m[2] is Some {
        value == m[2]->0
    } else if m.len() > 3 && m[3] is Some {
        value == m[3]->0
    } else if m.len() > 4 && m[4] is Some {
        value == m[4]->0
    } else {
        value.len() == 0
    }
}

/// Arguments on a command line: where they replace, the last of a key counts; where
/// they do not, what is there stays and the first of a new key counts.
pub proof fn law_arguments_are_set(
    start: Members,
    list: Seq<Seq<Option<Seq<char>>>>,
    n: nat,
    replace: bool,
)
    requires
        by_name(start),
        n <= list.len(),
    ensures
        by_name(argument_members(start, list, n, replace)),
        !replace ==> forall|key: Seq<char>, v: JsonView| #[trigger]
            has(start, key, v) ==> has(argument_members(start, list, n, replace), key, v),
        replace ==> forall|k: int, key: Seq<char>, value: Seq<char>|
            0 <= k < n && #[trigger] gives(list[k], key, value) && (forall|
                j: int,
                v: Seq<char>,
            | k < j < n ==> !#[trigger] gives(list[j], key, v)) ==> has(
                argument_members(start, list, n, replace),
                key,
                read_as(value),
            ),
        !replace ==> forall|k: int, key: Seq<char>, value: Seq<char>|
            0 <= k < n && #[trigger] gives(list[k], key, value) && !named(start, key) && (forall|
                j: int,
                v: Seq<char>,
            | 0 <= j < k ==> !#[trigger] gives(list[j], key, v)) ==> has(
                argument_members(start, list, n, replace),
                key,
                read_as(value),
            ),
        forall|key: Seq<char>| #[trigger]
            named(argument_members(start, list, n, replace), key) ==> named(start, key) || exists|
                k: int,
                value: Seq<char>,
            | 0 <= k < n && #[trigger] gives(list[k], key, value),
    decreases n,
{
    if n > 0 {
        law_arguments_are_set(start, list, (n - 1) as nat, replace);
        let before = argument_members(start, list, (n - 1) as nat, replace);
        let after = argument_members(start, list, n, replace);
        let last = list[n - 1];
        let own = group(last, 1)->0;
        let given = argument_value(last);
        let set = group(last, 1) is Some && (replace || lookup(before, own, 0) is None);
        reveal_strlit("");
        assert(""@ =~= Seq::empty());
        if group(last, 1) is Some {
            assert(gives(list[n - 1], own, given));
        }
        assert forall|key: Seq<char>, v: Seq<char>| #[trigger] gives(list[n - 1], key, v) implies key
            == own && v == given && group(last, 1) is Some by {
            if v.len() == 0 {
                assert(v =~= ""@);
            }
        }
        lemma_lookup(before, own);
        if set {
            law_setting_a_member(before, own, value_of(json_of_text(given), given), 0);
        } else {
            assert(after == before);
        }
        assert forall|key: Seq<char>, v: JsonView| !(set && key == own) && has(before, key, v)
            implies #[trigger] has(after, key, v) by {}
        assert forall|key: Seq<char>, v: JsonView| #[trigger] has(before, key, v) implies named(
            before,
            key,
        ) by {
            let i = choose|i: int| 0 <= i < before.len() && #[trigger] before[i] == (key, v);
            assert(before[i].0 == key);
        }
        if replace {
            assert forall|k: int, key: Seq<char>, value: Seq<char>|
                0 <= k < n && #[trigger] gives(list[k], key, value) && (forall|
                    j: int,
                    v: Seq<char>,
                | k < j < n ==> !#[trigger] gives(list[j], key, v)) implies has(
                after,
                key,
                read_as(value),
            ) by {
                if k < n - 1 {
                    assert(has(before, key, read_as(value)));
                    if set && key == own {
                        assert(gives(list[n - 1], key, given));
                    }
                }
            }
        } else {
            assert forall|k: int, key: Seq<char>, value: Seq<char>|
                0 <= k < n && #[trigger] gives(list[k], key, value) && !named(start, key) && (
                forall|j: int, v: Seq<char>| 0 <= j < k ==> !#[trigger] gives(list[j], key, v))
                implies has(after, key, read_as(value)) by {
                if k < n - 1 {
                    assert(has(before, key, read_as(value)));
                } else if named(before, key) {
                    let (j, v) = choose|j: int, v: Seq<char>|
                        0 <= j < n - 1 && #[trigger] gives(list[j], key, v);
                    assert(gives(list[j], key, v));
                }
            }
        }
        assert forall|key: Seq<char>| #[trigger] named(after, key) implies named(start, key)
            || exists|k: int, value: Seq<char>|
            0 <= k < n && #[trigger] gives(list[k], key, value) by {
            let i = choose|i: int| 0 <= i < after.len() && (#[trigger] after[i]).0 == key;
            assert(has(after, key, after[i].1));
            if set && key == own {
                assert(gives(list[n - 1], key, given));
            } else {
                assert(has(before, key, after[i].1));
                assert(named(before, key));
                if !named(start, key) {
                    let (k, value) = choose|k: int, value: Seq<char>|
                        0 <= k < n - 1 && #[trigger] gives(list[k], key, value);
                    assert(gives(list[k], key, value));
                }
            }
        }
    }
}

// ---------------------------------------------------------------------------
// Calls
// ---------------------------------------------------------------------------

/// An object states a call exactly when it has a text under the first of three
/// keys that is there; that is the name. The arguments stand under the first of
/// four keys that is there, and there are none where none is.
pub proof fn law_objects_state_calls(json: JsonView)
    ensures
        ({
            let call = stated_call(json);
            let args = |c: FoundView|
                if json.field("args"@) is Some {
                    c.args == json.field("args"@)->0
                } else if json.field("arguments"@) is Some {
                    c.args == json.field("arguments"@)->0
                } else if json.field("input"@) is Some {
                    c.args == json.field("input"@)->0
                } else if json.field("parameters"@) is Some {
                    c.args == json.field("parameters"@)->0
                } else {
                    c.args == JsonView::Object(Seq::empty())
                };
            &&& call matches Some(c) ==> json is Object && !c.tagged && args(c)
            &&& json.field("tool"@) matches Some(v) ==> match v {
                JsonView::Str(name) => call is Some && call->0.name == name,
                _ => call is None,
            }
            &&& json.field("tool"@) is None ==> (json.field("name"@) matches Some(v) ==> match v {
                JsonView::Str(name) => call is Some && call->0.name == name,
                _ => call is None,
            })
            &&& json.field("tool"@) is None && json.field("name"@) is None ==> match json.field(
                "function"@,
            ) {
                Some(JsonView::Str(name)) => call is Some && call->0.name == name,
                _ => call is None,
            }
        }),
{
}

/// How often a character stands among the first `n`.
pub open spec fn count(s: Seq<char>, c: char, n: int) -> int
    decreases n,
{
    if n <= 0 {
        0
    } else {
        count(s, c, n - 1) + (if s[n - 1] == c {
            1int
        } else {
            0
        })
    }
}

/// More braces are open than closed behind the first `n` characters.
pub open spec fn open_at(s: Seq<char>, n: int) -> int {
    count(s, '{', n) - count(s, '}', n)
}

proof fn lemma_closing_brace(s: Seq<char>, i: int, open: int)
    requires
        0 <= i <= s.len(),
        open == open_at(s, i),
    ensures
        match closing_brace(s, i, open) {
            Some(k) => {
                &&& i <= k < s.len()
                &&& s[k] == '}'
                &&& open_at(s, k + 1) == 0
                &&& forall|j: int| i <= j < k && s[j] == '}' ==> #[trigger] open_at(s, j + 1) != 0
            },
            None => forall|j: int|
                i <= j < s.len() && s[j] == '}' ==> #[trigger] open_at(s, j + 1) != 0,
        },
    decreases s.len() - i,
{
    if i < s.len() {
        assert(open_at(s, i + 1) == open_at(s, i) + (if s[i] == '{' {
            1int
        } else if s[i] == '}' {
            -1int
        } else {
            0
        }));
        if s[i] == '}' && open - 1 == 0 {
        } else {
            lemma_closing_brace(s, i + 1, open_at(s, i + 1));
        }
    }
}

/// The brace that closes what opens at the start of a text is the first behind
/// which as many are closed as were opened; there is none where the text has none
/// such.
pub proof fn law_braces_close_evenly(s: Seq<char>)
    ensures
        match closing_brace(s, 0, 0) {
            Some(k) => {
                &&& 0 <= k < s.len()
                &&& s[k] == '}'
                &&& count(s, '{', k + 1) == count(s, '}', k + 1)
                &&& forall|j: int|
                    0 <= j < k && s[j] == '}' ==> #[trigger] open_at(s, j + 1) != 0
            },
            None => forall|j: int|
                0 <= j < s.len() && s[j] == '}' ==> #[trigger] open_at(s, j + 1) != 0,
        },
{
    lemma_closing_brace(s, 0, 0);
}

proof fn lemma_object_end_plain(s: Seq<char>, i: int, open: int)
    requires
        0 <= i <= s.len(),
        forall|j: int| 0 <= j < s.len() ==> #[trigger] s[j] != '"',
    ensures
        object_end(s, i, open, false, false) == closing_brace(s, i, open),
    decreases s.len() - i,
{
    if i < s.len() {
        assert(s[i] != '"');
        let next = if s[i] == '{' {
            open + 1
        } else if s[i] == '}' {
            open - 1
        } else {
            open
        };
        lemma_object_end_plain(s, i + 1, next);
    }
}

proof fn lemma_object_end_brace(s: Seq<char>, i: int, open: int, quoted: bool, escaped: bool)
    ensures
        object_end(s, i, open, quoted, escaped) matches Some(k) ==> i <= k < s.len() && s[k] == '}',
    decreases s.len() - i,
{
    if 0 <= i < s.len() {
        if quoted {
            if escaped {
                lemma_object_end_brace(s, i + 1, open, true, false);
            } else {
                lemma_object_end_brace(s, i + 1, open, s[i] != '"', s[i] == '\\');
            }
        } else if s[i] == '"' {
            lemma_object_end_brace(s, i + 1, open, true, false);
        } else if s[i] == '{' {
            lemma_object_end_brace(s, i + 1, open + 1, false, false);
        } else if s[i] == '}' {
            if open != 1 {
                lemma_object_end_brace(s, i + 1, open - 1, false, false);
            }
        } else {
            lemma_object_end_brace(s, i + 1, open, false, false);
        }
    }
}

proof fn lemma_quoted_text(s: Seq<char>, i: int, k: int, open: int)
    requires
        0 <= i <= k < s.len(),
        s[k] == '"',
        forall|j: int| i <= j < k ==> #[trigger] s[j] != '"' && s[j] != '\\',
    ensures
        object_end(s, i, open, true, false) == object_end(s, k + 1, open, false, false),
    decreases k - i,
{
    if i < k {
        assert(s[i] != '"' && s[i] != '\\');
        lemma_quoted_text(s, i + 1, k, open);
    }
}

/// Braces in quotes open and close nothing: a quoted stretch without escapes is
/// passed over whole. Where a text holds no quotes, its first object ends where its
/// braces close evenly; it always ends with a brace.
pub proof fn law_quotes_hide_braces(s: Seq<char>, i: int, k: int, open: int)
    requires
        0 <= i < k < s.len(),
        s[i] == '"',
        s[k] == '"',
        forall|j: int| i < j < k ==> #[trigger] s[j] != '"' && s[j] != '\\',
    ensures
        object_end(s, i, open, false, false) == object_end(s, k + 1, open, false, false),
        object_end(s, i, open, false, false) matches Some(e) ==> k < e < s.len() && s[e] == '}',
{
    lemma_quoted_text(s, i + 1, k, open);
    lemma_object_end_brace(s, k + 1, open, false, false);
}

/// The first object of a text without quotes reaches from its first opening brace
/// to where the braces close evenly.
pub proof fn law_first_object_is_read(text: Seq<char>, b: int)
    requires
        find_from(text, "{"@, 0) == Some(b),
        forall|j: int| 0 <= j < text.len() ==> #[trigger] text[j] != '"',
        0 <= b <= text.len(),
    ensures
        match closing_brace(text.skip(b), 0, 0) {
            Some(k) => object_in(text) == json_of_text(text.skip(b).take(k + 1)),
            None => object_in(text) is None,
        },
{
    let s = text.skip(b);
    assert forall|j: int| 0 <= j < s.len() implies #[trigger] s[j] != '"' by {
        assert(s[j] == text[b + j]);
    }
    lemma_object_end_plain(s, 0, 0);
}

/// The calls that blocks make: each comes from a block, in the order of the
/// blocks, and each block that makes one is there.
pub open spec fn from_blocks(
    calls: Seq<ParsedView>,
    list: Seq<Seq<Option<Seq<char>>>>,
    n: int,
    tags: bool,
    at: Seq<int>,
) -> bool {
    &&& at.len() == calls.len()
    &&& forall|i: int|
        0 <= i < at.len() ==> 0 <= #[trigger] at[i] < n && makes(
            list[at[i]],
            tags,
            calls[i].name,
            calls[i].args,
        )
    &&& forall|i: int, j: int| 0 <= i < j < at.len() ==> #[trigger] at[i] < #[trigger] at[j]
    &&& forall|k: int, name: Seq<char>, args: JsonView|
        0 <= k < n && #[trigger] makes(list[k], tags, name, args) ==> at.contains(k)
}

/// A block makes a call of a name with arguments.
pub open spec fn makes(
    m: Seq<Option<Seq<char>>>,
    tags: bool,
    name: Seq<char>,
    args: JsonView,
) -> bool {
    &&& m.len() > 1 && m[0] is Some && m[1] is Some
    &&& (if tags {
        tagged_call(trimmed(m[1]->0))
    } else {
        inner_call(trimmed(m[1]->0))
    }) matches Search::Found(c) && c.name == name && c.args == args
}

/// Each block that states a call adds that call behind those of the blocks before
/// it, and calls come from nowhere else.
pub proof fn law_blocks_give_their_calls(
    start: ParseView,
    list: Seq<Seq<Option<Seq<char>>>>,
    n: nat,
    tags: bool,
) -> (at: Seq<int>)
    requires
        n <= list.len(),
        after_blocks(start, list, n, tags) is Some,
    ensures
        ({
            let after = after_blocks(start, list, n, tags)->0;
            &&& after.calls.len() >= start.calls.len()
            &&& after.calls.take(start.calls.len() as int) == start.calls
            &&& from_blocks(
                after.calls.skip(start.calls.len() as int),
                list,
                n as int,
                tags,
                at,
            )
        }),
    decreases n,
{
    let first = start.calls.len() as int;
    if n == 0 {
        assert(start.calls.take(first) =~= start.calls);
        assert(start.calls.skip(first) =~= Seq::empty());
        Seq::empty()
    } else {
        let state = after_blocks(start, list, (n - 1) as nat, tags)->0;
        let at = law_blocks_give_their_calls(start, list, (n - 1) as nat, tags);
        let after = after_blocks(start, list, n, tags)->0;
        let last = list[n - 1];
        let old_calls = state.calls.skip(first);
        let new_calls = after.calls.skip(first);
        let found = if group(last, 0) is Some && group(last, 1) is Some {
            if tags {
                tagged_call(trimmed(group(last, 1)->0))
            } else {
                inner_call(trimmed(group(last, 1)->0))
            }
        } else {
            Search::Nothing
        };
        if let Search::Found(c) = found {
            let more = at.push(n - 1);
            assert(new_calls =~= old_calls.push(after.calls.last()));
            assert(after.calls.take(first) =~= state.calls.take(first));
            assert(makes(list[n - 1], tags, c.name, c.args));
            assert forall|i: int| 0 <= i < more.len() implies 0 <= #[trigger] more[i] < n && makes(
                list[more[i]],
                tags,
                new_calls[i].name,
                new_calls[i].args,
            ) by {
                if i < at.len() {
                    assert(more[i] == at[i] && new_calls[i] == old_calls[i]);
                }
            }
            assert forall|k: int, name: Seq<char>, args: JsonView|
                0 <= k < n && #[trigger] makes(list[k], tags, name, args) implies more.contains(
                k,
            ) by {
                if k == n - 1 {
                    assert(more[at.len() as int] == k);
                } else {
                    let i = choose|i: int| 0 <= i < at.len() && at[i] == k;
                    assert(more[i] == k);
                }
            }
            more
        } else {
            assert(after.calls == state.calls);
            assert forall|k: int, name: Seq<char>, args: JsonView|
                0 <= k < n && #[trigger] makes(list[k], tags, name, args) implies at.contains(
                k,
            ) by {}
            at
        }
    }
}

/// Each call in tags that stands alone is added behind those before it, with its
/// own name and the arguments of its own block.
pub proof fn law_lone_calls_are_added(
    start: ParseView,
    list: Seq<Seq<Option<Seq<char>>>>,
    n: nat,
)
    requires
        n <= list.len(),
        forall|k: int|
            0 <= k < n ==> (#[trigger] list[k]).len() > 2 && list[k][0] is Some && list[k][1] is Some
                && list[k][2] is Some,
    ensures
        ({
            let after = after_invokes(start, list, n);
            &&& after.calls.len() == start.calls.len() + n
            &&& after.calls.take(start.calls.len() as int) == start.calls
            &&& forall|k: int|
                0 <= k < n ==> {
                    let call = after.calls[start.calls.len() + k];
                    &&& call.name == (#[trigger] list[k])[1]->0
                    &&& call.args == tagged_arguments(list[k][2]->0)
                }
        }),
    decreases n,
{
    let first = start.calls.len() as int;
    if n == 0 {
        assert(start.calls.take(first) =~= start.calls);
    } else {
        law_lone_calls_are_added(start, list, (n - 1) as nat);
        let state = after_invokes(start, list, (n - 1) as nat);
        let after = after_invokes(start, list, n);
        assert(list[n - 1].len() > 2);
        assert(after.calls.take(first) =~= state.calls.take(first));
        assert forall|k: int| 0 <= k < n implies {
            let call = after.calls[first + k];
            &&& call.name == (#[trigger] list[k])[1]->0
            &&& call.args == tagged_arguments(list[k][2]->0)
        } by {
            if k < n - 1 {
                assert(after.calls[first + k] == state.calls[first + k]);
            }
        }
    }
}

// ---------------------------------------------------------------------------
// Texts with calls
// ---------------------------------------------------------------------------

/// A block that is an object states its call by its members; another is read for a name
/// before an arrow, and only where there is none for a name before a value.
pub proof fn law_calls_are_read_in_turn(inner: Seq<char>)
    ensures
        json_of_text(inner) matches Some(json) ==> match stated_call(json) {
            Some(c) => inner_call(inner) == Search::Found(c),
            None => inner_call(inner) == Search::<FoundView>::Nothing,
        },
        json_of_text(inner) is None ==> {
            let arrow = captured(ARROW_TOOL_PATTERN@, inner);
            let other = captured(FLEXIBLE_PATTERN@, inner);
            &&& arrow.len() > 0 && group(arrow[0], 1) is Some ==> (match arrow_arguments(inner) {
                Some(args) => inner_call(inner) matches Search::Found(c) && c.name == group(
                    arrow[0],
                    1,
                )->0 && c.args == args,
                None => inner_call(inner) is Broken,
            })
            &&& arrow.len() == 0 && other.len() > 0 && group(other[0], 1) is Some ==> (
            inner_call(inner) matches Search::Found(c) && c.name == group(other[0], 1)->0 && c.args
                == (match object_in(inner) {
                Some(v) => v,
                None => JsonView::Object(Seq::empty()),
            }))
            &&& arrow.len() == 0 && other.len() == 0 ==> inner_call(inner) is Nothing
        },
{
}

/// A block in tags is read for an invocation first, with the name it has and the
/// arguments inside it.
pub proof fn law_invocations_are_read_first(inner: Seq<char>)
    ensures
        ({
            let found = captured(INVOKE_PATTERN@, inner);
            &&& found.len() > 0 && group(found[0], 1) is Some && group(found[0], 2) is Some ==> (
            tagged_call(inner) matches Search::Found(c) && c.name == group(found[0], 1)->0 && c.args
                == tagged_arguments(group(found[0], 2)->0))
            &&& found.len() == 0 ==> tagged_call(inner) == inner_call(inner)
        }),
{
}

/// Behind an arrow stand the arguments: a value, or what stands in the first braces,
/// which is a value too or a list of words. Without an arrow there are none.
pub proof fn law_arrows_point_to_arguments(inner: Seq<char>)
    ensures
        find_from(inner, "args =>"@, 0) is None ==> arrow_arguments(inner) == Some(
            JsonView::Object(Seq::empty()),
        ),
        find_from(inner, "args =>"@, 0) matches Some(at) ==> {
            let text = trimmed(inner.skip(at + 7));
            &&& json_of_text(text) matches Some(v) ==> arrow_arguments(inner) == Some(v)
            &&& json_of_text(text) is None && find_from(text, "{"@, 0) is None ==> arrow_arguments(
                inner,
            ) == Some(JsonView::Object(Seq::empty()))
            &&& json_of_text(text) is None ==> (find_from(text, "{"@, 0) matches Some(b) ==> (
            closing_brace(text.skip(b), 0, 0) matches Some(k) ==> {
                let content = text.skip(b).subrange(1, k);
                &&& json_of_text("{"@ + content + "}"@) matches Some(v) ==> arrow_arguments(inner)
                    == Some(v)
                &&& json_of_text("{"@ + content + "}"@) is None ==> arrow_arguments(inner) == Some(
                    command_line_arguments(content),
                )
            }))
        },
{
}

/// What a text with calls leaves for the user has no blank lines, nor blanks around it.
#[verifier::rlimit(40)]
pub proof fn law_blank_lines_go(a: Seq<char>, b: Seq<char>)
    requires
        !a.contains('\n'),
    ensures
        trimmed(tidied(a)) == tidied(a),
        tidied(a) == trimmed(a),
        a.len() > 0 && a.last() != '\r' && trimmed(a).len() == 0 ==> tidied(
            a + seq!['\n'] + b,
        ) == tidied(b),
{
    let p = |line: Seq<char>| trimmed(line).len() > 0;
    crate::laws::texts::law_texts_are_cut_into_lines(a, b);
    crate::text::lemma_trimmed_once(a);
    reveal_with_fuel(Seq::filter, 3);
    let one = seq![a];
    assert(one.drop_last() =~= Seq::<Seq<char>>::empty());
    assert(one.last() == a);
    assert(one.drop_last().filter(p) =~= Seq::<Seq<char>>::empty());
    assert(Seq::<Seq<char>>::empty().push(a) =~= one);
    if a.len() == 0 {
        assert(a =~= Seq::<char>::empty());
        assert(lines_of(a).filter(p) =~= Seq::<Seq<char>>::empty());
        assert(joined(Seq::<Seq<char>>::empty(), "\n"@) =~= a);
    } else if trimmed(a).len() > 0 {
        assert(lines_of(a).filter(p) =~= one);
        assert(joined(one, "\n"@) == a);
    } else {
        assert(lines_of(a).filter(p) =~= Seq::<Seq<char>>::empty());
        assert(joined(Seq::<Seq<char>>::empty(), "\n"@) =~= Seq::<char>::empty());
        assert(trimmed(Seq::<char>::empty()) =~= Seq::<char>::empty());
        assert(trimmed(a) =~= Seq::<char>::empty());
    }
    crate::text::lemma_trimmed_once(joined(lines_of(a).filter(p), "\n"@));
    if a.len() > 0 && a.last() != '\r' && trimmed(a).len() == 0 {
        Seq::filter_distributes_over_add(one, lines_of(b), p);
        assert(one.filter(p) =~= Seq::<Seq<char>>::empty());
        assert(Seq::<Seq<char>>::empty() + lines_of(b).filter(p) =~= lines_of(b).filter(p));
    }
}

/// The calls of a text come in this order: those between marks, those in tags, and
/// those that stand alone in what is left. What is left without the marks of calls is
/// for the user.
#[verifier::rlimit(40)]
pub proof fn law_calls_come_in_order(text: Seq<char>)
    ensures
        parsed_calls(text) matches Some(out) ==> {
            let start = ParseView { clean: erased(THINKING_PATTERN@, text), calls: Seq::empty() };
            let marked = captured(TOOL_CALL_PATTERN@, text);
            let tagged = captured(XML_TOOL_CALL_PATTERN@, text);
            &&& after_blocks(start, marked, marked.len(), false) matches Some(first)
            &&& after_blocks(first, tagged, tagged.len(), true) matches Some(second)
            &&& first.calls.is_prefix_of(second.calls)
            &&& second.calls.is_prefix_of(out.calls)
            &&& trimmed(out.clean) == out.clean
            &&& marked.len() == 0 && tagged.len() == 0 && captured(
                INVOKE_PATTERN@,
                erased(THINKING_PATTERN@, text),
            ).len() == 0 ==> out.calls.len() == 0
        },
{
    if let Some(out) = parsed_calls(text) {
        let start = ParseView { clean: erased(THINKING_PATTERN@, text), calls: Seq::empty() };
        let marked = captured(TOOL_CALL_PATTERN@, text);
        let tagged = captured(XML_TOOL_CALL_PATTERN@, text);
        let first = after_blocks(start, marked, marked.len(), false)->0;
        let second = after_blocks(first, tagged, tagged.len(), true)->0;
        let _ = law_blocks_give_their_calls(first, tagged, tagged.len(), true);
        assert(first.calls =~= second.calls.take(first.calls.len() as int));
        let alone = captured(INVOKE_PATTERN@, second.clean);
        lemma_invokes_add(second, alone, alone.len());
        let third = after_invokes(second, alone, alone.len());
        let p = |line: Seq<char>| trimmed(line).len() > 0;
        crate::text::lemma_trimmed_once(
            joined(
                lines_of(erased(FAKE_TOOL_WRAPPER_PATTERN@, third.clean)).filter(p),
                "\n"@,
            ),
        );
    }
}

proof fn lemma_invokes_add(start: ParseView, list: Seq<Seq<Option<Seq<char>>>>, n: nat)
    requires
        n <= list.len(),
    ensures
        start.calls.is_prefix_of(after_invokes(start, list, n).calls),
    decreases n,
{
    if n > 0 {
        lemma_invokes_add(start, list, (n - 1) as nat);
    }
}

/// A text may hold a call exactly where it holds one of the marks that open one in a
/// stream.
pub proof fn law_marks_announce_calls(text: Seq<char>)
    ensures
        may_hold_call(text) <==> exists|k: int|
            0 <= k < 12 && #[trigger] contains_text(text, start_markers()[k]),
{
    let m = start_markers();
    assert(m[0] == "[TOOL_CALL]"@ && m[1] == "<codewhale:tool_call"@ && m[2] == "<tool_call"@ && m[3]
        == "<invoke "@ && m[4] == "<function_calls>"@ && m[5] == "<｜DSML｜tool_calls>"@ && m[6]
        == "<｜DSML｜invoke "@ && m[7] == "<|DSML|tool_calls>"@ && m[8] == "<|DSML|invoke "@ && m[9]
        == "<|dsml|tool_calls>"@ && m[10] == "<|dsml|invoke "@ && m[11] == "<|tool_calls>"@);
    if may_hold_call(text) {
        assert(contains_text(text, m[0]) || contains_text(text, m[1]) || contains_text(text, m[2])
            || contains_text(text, m[3]) || contains_text(text, m[4]) || contains_text(text, m[5])
            || contains_text(text, m[6]) || contains_text(text, m[7]) || contains_text(text, m[8])
            || contains_text(text, m[9]) || contains_text(text, m[10]) || contains_text(
            text,
            m[11],
        ));
    }
}

/// Of the arguments of a command line flags count before pairs: what a flag has set, no
/// pair changes.
pub proof fn law_flags_count_before_pairs(content: Seq<char>)
    ensures
        ({
            let flags = captured(CLI_ARGUMENT_PATTERN@, content);
            let first = argument_members(Seq::empty(), flags, flags.len(), true);
            &&& command_line_arguments(content) matches JsonView::Object(all)
            &&& by_name(all)
            &&& forall|key: Seq<char>, v: JsonView| #[trigger]
                has(first, key, v) ==> has(all, key, v)
        }),
{
    let flags = captured(CLI_ARGUMENT_PATTERN@, content);
    let pairs = captured(KEY_VALUE_PATTERN@, content);
    let first = argument_members(Seq::empty(), flags, flags.len(), true);
    law_arguments_are_set(Seq::empty(), flags, flags.len(), true);
    law_arguments_are_set(first, pairs, pairs.len(), false);
}

/// A block that was read is taken out of what is left for the user.
pub proof fn law_read_blocks_are_taken_out(
    start: ParseView,
    list: Seq<Seq<Option<Seq<char>>>>,
    n: nat,
    tags: bool,
)
    requires
        n < list.len(),
        list[n as int].len() > 2,
        list[n as int][0] is Some,
        list[n as int][1] is Some,
        list[n as int][2] is Some,
    ensures
        after_blocks(start, list, n + 1, tags) matches Some(after) ==> (after_blocks(
            start,
            list,
            n,
            tags,
        ) matches Some(before) && after.clean == without_all(
            before.clean,
            list[n as int][0]->0,
        )),
        after_invokes(start, list, n + 1).clean == without_all(
            after_invokes(start, list, n).clean,
            list[n as int][0]->0,
        ),
        after_blocks(start, list, 0, tags) == Some(start),
        after_invokes(start, list, 0) == start,
{
}

} // verus!
