//! The rules of a policy, in groups.

use crate::execpolicy::matcher::{pattern_fits, pattern_matches};
use crate::text::{
    comes_before, concat, lemma_text_order_total, lemma_text_order_transitive, same_text,
    text_before, texts,
};
use vstd::prelude::*;

verus! {

/// What the rules say of a command.
#[derive(Debug)]
pub enum ExecPolicyDecision {
    Allow,
    Deny(String),
    AskUser(String),
}

/// The patterns of one group of rules.
#[derive(Debug)]
pub struct RuleSet {
    pub allow: Vec<String>,
    pub deny: Vec<String>,
}

/// The patterns of one group of rules, as contracts see them.
#[verifier::ext_equal]
pub struct RuleSetView {
    pub allow: Seq<Seq<char>>,
    pub deny: Seq<Seq<char>>,
}

impl View for RuleSet {
    type V = RuleSetView;

    open spec fn view(&self) -> RuleSetView {
        RuleSetView { allow: texts(self.allow@), deny: texts(self.deny@) }
    }
}

/// A group of rules with its name.
pub type GroupView = (Seq<char>, RuleSetView);

/// The groups of a policy, in the order of their names.
#[derive(Debug)]
pub struct ExecPolicyConfig {
    rules: Vec<(String, RuleSet)>,
}

/// The views of a list of groups.
pub open spec fn group_views(list: Seq<(String, RuleSet)>) -> Seq<GroupView> {
    list.map_values(|g: (String, RuleSet)| (g.0@, g.1@))
}

impl View for ExecPolicyConfig {
    type V = Seq<GroupView>;

    closed spec fn view(&self) -> Seq<GroupView> {
        group_views(self.rules@)
    }
}

/// The groups after one was set.
pub open spec fn with_group(m: Seq<GroupView>, g: GroupView, from: int) -> Seq<GroupView>
    decreases m.len() - from,
{
    if from < 0 || from >= m.len() {
        m.push(g)
    } else if m[from].0 == g.0 {
        m.update(from, g)
    } else if text_before(g.0, m[from].0) {
        m.insert(from, g)
    } else {
        with_group(m, g, from + 1)
    }
}

/// The groups after the first `n` of a list were set, one after the other.
pub open spec fn groups_set(list: Seq<GroupView>, n: nat) -> Seq<GroupView>
    decreases n,
{
    if n == 0 {
        Seq::empty()
    } else {
        with_group(groups_set(list, (n - 1) as nat), list[n - 1], 0)
    }
}

/// Groups in the order of their names, no name twice.
pub open spec fn ordered(m: Seq<GroupView>) -> bool {
    forall|i: int, j: int|
        0 <= i < j < m.len() ==> text_before((#[trigger] m[i]).0, (#[trigger] m[j]).0)
}

proof fn lemma_with_group(m: Seq<GroupView>, g: GroupView, from: int)
    requires
        ordered(m),
        0 <= from <= m.len(),
        forall|i: int| 0 <= i < from ==> text_before((#[trigger] m[i]).0, g.0),
    ensures
        ordered(with_group(m, g, from)),
    decreases m.len() - from,
{
    let after = with_group(m, g, from);
    if from >= m.len() {
        assert forall|i: int, j: int| 0 <= i < j < after.len() implies text_before(
            (#[trigger] after[i]).0,
            (#[trigger] after[j]).0,
        ) by {
            assert(after[i] == m[i]);
            if j < m.len() {
                assert(after[j] == m[j]);
            }
        }
    } else if m[from].0 == g.0 {
        assert forall|i: int, j: int| 0 <= i < j < after.len() implies text_before(
            (#[trigger] after[i]).0,
            (#[trigger] after[j]).0,
        ) by {
            assert(after[i].0 == m[i].0);
            assert(after[j].0 == m[j].0);
        }
    } else if text_before(g.0, m[from].0) {
        assert forall|i: int, j: int| 0 <= i < j < after.len() implies text_before(
            (#[trigger] after[i]).0,
            (#[trigger] after[j]).0,
        ) by {
            if i < from {
                assert(after[i] == m[i]);
                if j < from {
                    assert(after[j] == m[j]);
                } else if j > from {
                    assert(after[j] == m[j - 1]);
                }
            } else if i == from {
                assert(after[j] == m[j - 1]);
                if j - 1 > from {
                    lemma_text_order_transitive(g.0, m[from].0, m[j - 1].0);
                }
            } else {
                assert(after[i] == m[i - 1]);
                assert(after[j] == m[j - 1]);
            }
        }
    } else {
        lemma_text_order_total(g.0, m[from].0);
        lemma_with_group(m, g, from + 1);
    }
}

/// However the groups are given, they stand in the order of their names, and no
/// name stands twice.
pub proof fn law_groups_are_ordered(list: Seq<GroupView>, n: nat)
    requires
        n <= list.len(),
    ensures
        ordered(groups_set(list, n)),
    decreases n,
{
    if n > 0 {
        law_groups_are_ordered(list, (n - 1) as nat);
        lemma_with_group(groups_set(list, (n - 1) as nat), list[n - 1], 0);
    }
}

/// The first pattern of a list, from the `from`th on, that matches a command.
pub open spec fn first_fit(patterns: Seq<Seq<char>>, command: Seq<char>, from: int) -> Option<int>
    decreases patterns.len() - from,
{
    if from < 0 || from >= patterns.len() {
        None
    } else if pattern_fits(patterns[from], command) {
        Some(from)
    } else {
        first_fit(patterns, command, from + 1)
    }
}

/// The first group and pattern that deny a command.
pub open spec fn denial(rules: Seq<GroupView>, command: Seq<char>, from: int) -> Option<
    (Seq<char>, Seq<char>),
>
    decreases rules.len() - from,
{
    if from < 0 || from >= rules.len() {
        None
    } else {
        match first_fit(rules[from].1.deny, command, 0) {
            Some(k) => Some((rules[from].0, rules[from].1.deny[k])),
            None => denial(rules, command, from + 1),
        }
    }
}

/// `prefix_allows` may say of a pattern that a command begins with it.
pub open spec fn may_say<F: Fn(&str, &str) -> bool>(
    prefix_allows: F,
    pattern: &str,
    command: &str,
    answer: bool,
) -> bool {
    call_ensures(prefix_allows, (pattern, command), answer)
}

/// A pattern allows a command: it matches it, or `prefix_allows` may say so.
pub open spec fn may_allow<F: Fn(&str, &str) -> bool>(
    prefix_allows: F,
    pattern: &str,
    command: &str,
) -> bool {
    pattern_fits(pattern@, command@) || may_say(prefix_allows, pattern, command, true)
}

impl ExecPolicyConfig {
    /// A policy with the groups of a list, set one after the other.
    pub fn new(list: Vec<(String, RuleSet)>) -> (r: Self)
        ensures
            r@ == groups_set(group_views(list@), list@.len()),
            ordered(r@),
    {
        let ghost all = group_views(list@);
        let mut rest = list;
        let mut reversed: Vec<(String, RuleSet)> = Vec::new();
        while rest.len() > 0
            invariant
                all.len() == rest@.len() + reversed@.len(),
                group_views(rest@) == all.take(rest@.len() as int),
                forall|i: int|
                    0 <= i < reversed@.len() ==> all[all.len() - 1 - i] == (
                        (#[trigger] reversed@[i]).0@,
                        reversed@[i].1@,
                    ),
            decreases rest@.len(),
        {
            let ghost n = rest@.len() as int;
            assert(group_views(rest@)[n - 1] == all[n - 1]);
            if let Some(g) = rest.pop() {
                reversed.push(g);
            }
            assert(group_views(rest@) =~= all.take(n - 1));
        }
        let mut rules: Vec<(String, RuleSet)> = Vec::new();
        let ghost mut done: int = 0;
        proof {
            assert(group_views(rules@) =~= Seq::empty());
        }
        while reversed.len() > 0
            invariant
                0 <= done,
                all.len() == done + reversed@.len(),
                forall|i: int|
                    0 <= i < reversed@.len() ==> all[all.len() - 1 - i] == (
                        (#[trigger] reversed@[i]).0@,
                        reversed@[i].1@,
                    ),
                group_views(rules@) == groups_set(all, done as nat),
            decreases reversed@.len(),
        {
            let ghost n = reversed@.len() as int;
            assert(all[done] == (reversed@[n - 1].0@, reversed@[n - 1].1@));
            if let Some(g) = reversed.pop() {
                set_group(&mut rules, g);
            }
            proof {
                done = done + 1;
            }
        }
        proof {
            law_groups_are_ordered(all, all.len());
        }
        ExecPolicyConfig { rules }
    }

    /// What the rules say of a command. A pattern that denies it outranks all
    /// that allow it; where none of either matches, the user is asked.
    /// `prefix_allows` tells whether a command begins with a pattern.
    pub fn evaluate<F: Fn(&str, &str) -> bool>(&self, command: &str, prefix_allows: F) -> (r:
        ExecPolicyDecision)
        requires
            forall|p: &str| #[trigger] call_requires(prefix_allows, (p, command)),
        ensures
            match r {
                ExecPolicyDecision::Deny(reason) => match denial(self@, command@, 0) {
                    Some((group, pattern)) => reason@ == "execpolicy denied by "@ + group + ": "@
                        + pattern,
                    None => false,
                },
                ExecPolicyDecision::Allow => denial(self@, command@, 0) is None && exists|
                    g: int,
                    k: int,
                    p: &str,
                |
                    0 <= g < self@.len() && 0 <= k < self@[g].1.allow.len() && p@
                        == #[trigger] self@[g].1.allow[k] && #[trigger] may_allow(
                        prefix_allows,
                        p,
                        command,
                    ),
                ExecPolicyDecision::AskUser(reason) => denial(self@, command@, 0) is None
                    && reason@ == "execpolicy: no matching allow rule"@ && forall|g: int, k: int|
                    0 <= g < self@.len() && 0 <= k < self@[g].1.allow.len() ==> !pattern_fits(
                        #[trigger] self@[g].1.allow[k],
                        command@,
                    ) && exists|p: &str|
                        p@ == self@[g].1.allow[k] && #[trigger] may_say(
                            prefix_allows,
                            p,
                            command,
                            false,
                        ),
            },
    {
        let ghost all = self@;
        let mut i: usize = 0;
        while i < self.rules.len()
            invariant
                i <= self.rules@.len(),
                all == self@,
                all == group_views(self.rules@),
                denial(all, command@, 0) == denial(all, command@, i as int),
            decreases self.rules@.len() - i,
        {
            let deny = &self.rules[i].1.deny;
            let ghost list = all[i as int].1.deny;
            assert(list == texts(deny@));
            let mut k: usize = 0;
            while k < deny.len()
                invariant
                    k <= deny@.len(),
                    i < self.rules@.len(),
                    all == group_views(self.rules@),
                    all == self@,
                    *deny == self.rules@[i as int].1.deny,
                    list == texts(deny@),
                    list == all[i as int].1.deny,
                    denial(all, command@, 0) == denial(all, command@, i as int),
                    first_fit(list, command@, 0) == first_fit(list, command@, k as int),
                decreases deny@.len() - k,
            {
                assert(list[k as int] == deny@[k as int]@);
                if pattern_matches(deny[k].as_str(), command) {
                    let mut reason = concat("execpolicy denied by ", self.rules[i].0.as_str());
                    reason.append(": ");
                    reason.append(deny[k].as_str());
                    return ExecPolicyDecision::Deny(reason);
                }
                k += 1;
            }
            i += 1;
        }
        let mut g: usize = 0;
        while g < self.rules.len()
            invariant
                g <= self.rules@.len(),
                all == self@,
                all == group_views(self.rules@),
                denial(all, command@, 0) is None,
                forall|p: &str| #[trigger] call_requires(prefix_allows, (p, command)),
                forall|h: int, k: int|
                    0 <= h < g && 0 <= k < all[h].1.allow.len() ==> !pattern_fits(
                        #[trigger] all[h].1.allow[k],
                        command@,
                    ) && exists|p: &str|
                        p@ == all[h].1.allow[k] && #[trigger] may_say(
                            prefix_allows,
                            p,
                            command,
                            false,
                        ),
            decreases self.rules@.len() - g,
        {
            let allow = &self.rules[g].1.allow;
            let ghost list = all[g as int].1.allow;
            assert(list == texts(allow@));
            let mut k: usize = 0;
            while k < allow.len()
                invariant
                    k <= allow@.len(),
                    g < self.rules@.len(),
                    all == group_views(self.rules@),
                    all == self@,
                    list == texts(allow@),
                    list == all[g as int].1.allow,
                    denial(all, command@, 0) is None,
                    forall|p: &str| #[trigger] call_requires(prefix_allows, (p, command)),
                    forall|j: int|
                        0 <= j < k ==> !pattern_fits(#[trigger] list[j], command@) && exists|
                            p: &str,
                        |
                            p@ == list[j] && #[trigger] may_say(prefix_allows, p, command, false),
                decreases allow@.len() - k,
            {
                assert(list[k as int] == allow@[k as int]@);
                let pattern = allow[k].as_str();
                let prefixed = prefix_allows(pattern, command);
                assert(may_say(prefix_allows, pattern, command, prefixed));
                assert(pattern@ == all[g as int].1.allow[k as int]);
                if prefixed || pattern_matches(pattern, command) {
                    proof {
                        let gi = g as int;
                        let ki = k as int;
                        assert(gi < self@.len() && ki < self@[gi].1.allow.len());
                        assert(pattern@ == self@[gi].1.allow[ki]);
                        assert(may_allow(prefix_allows, pattern, command));
                    }
                    return ExecPolicyDecision::Allow;
                }
                k += 1;
            }
            proof {
                assert(list.len() == allow@.len());
            }
            g += 1;
        }
        ExecPolicyDecision::AskUser("execpolicy: no matching allow rule".to_owned())
    }
}

fn set_group(rules: &mut Vec<(String, RuleSet)>, g: (String, RuleSet))
    ensures
        group_views(final(rules)@) == with_group(group_views(old(rules)@), (g.0@, g.1@), 0),
{
    let ghost before = rules@;
    let ghost views = group_views(before);
    let ghost gv = (g.0@, g.1@);
    let mut i: usize = 0;
    while i < rules.len()
        invariant
            i <= rules@.len(),
            rules@ == before,
            before == old(rules)@,
            views == group_views(before),
            gv == (g.0@, g.1@),
            with_group(views, gv, 0) == with_group(views, gv, i as int),
        decreases rules@.len() - i,
    {
        assert(views[i as int] == (before[i as int].0@, before[i as int].1@));
        if same_text(rules[i].0.as_str(), g.0.as_str()) {
            rules.set(i, g);
            assert(group_views(rules@) =~= views.update(i as int, gv));
            return;
        }
        if comes_before(g.0.as_str(), rules[i].0.as_str()) {
            rules.insert(i, g);
            assert(group_views(rules@) =~= views.insert(i as int, gv));
            return;
        }
        i += 1;
    }
    rules.push(g);
    assert(group_views(rules@) =~= views.push(gv));
}

/// What denies a command is found wherever it stands: a command is denied exactly
/// when some pattern of some group denies it.
pub proof fn law_any_denial_counts(rules: Seq<GroupView>, command: Seq<char>)
    ensures
        denial(rules, command, 0) is Some <==> exists|g: int, k: int|
            0 <= g < rules.len() && 0 <= k < rules[g].1.deny.len() && pattern_fits(
                #[trigger] rules[g].1.deny[k],
                command,
            ),
{
    lemma_denial(rules, command, 0);
}

proof fn lemma_denial(rules: Seq<GroupView>, command: Seq<char>, from: int)
    requires
        0 <= from,
    ensures
        denial(rules, command, from) is Some <==> exists|g: int, k: int|
            from <= g < rules.len() && 0 <= k < rules[g].1.deny.len() && pattern_fits(
                #[trigger] rules[g].1.deny[k],
                command,
            ),
    decreases rules.len() - from,
{
    if from < rules.len() {
        lemma_first_fit(rules[from].1.deny, command, 0);
        lemma_denial(rules, command, from + 1);
        match first_fit(rules[from].1.deny, command, 0) {
            Some(k) => {
                assert(pattern_fits(rules[from].1.deny[k], command));
            },
            None => {},
        }
    }
}

proof fn lemma_first_fit(patterns: Seq<Seq<char>>, command: Seq<char>, from: int)
    requires
        0 <= from,
    ensures
        match first_fit(patterns, command, from) {
            Some(i) => from <= i < patterns.len() && pattern_fits(patterns[i], command),
            None => forall|j: int|
                from <= j < patterns.len() ==> !pattern_fits(#[trigger] patterns[j], command),
        },
    decreases patterns.len() - from,
{
    if from < patterns.len() && !pattern_fits(patterns[from], command) {
        lemma_first_fit(patterns, command, from + 1);
    }
}

} // verus!
