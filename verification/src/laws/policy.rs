//! What a turn may do, and what is asked about before it does it.

use crate::authority::{
    input_policy, mode_policy, sandbox_of, session_approval, shell_of, ApprovalMode,
    ModeSessionPrefs, SandboxView, ShellPolicy,
};
use crate::engine::rules::{
    answer_outcome, answers_outcome, edited_paths, found_in, from_root, permission_paths,
    review_outcome, total_in, with_prompt, AskRuleView, AutoReviewAction, PolicyAnswer, ReviewView,
};
use crate::engine::shell::{
    next_turn, record_of, shell_id, shell_input, shell_step_of, shell_unavailable, ShellStepView,
    ShellToolFacts,
};
use crate::execpolicy::matcher::{
    behind_body, escaped, expression, fits, last_delimiter, normalized, pattern_fits, redacted,
    respaced_words, shell_words, without_bodies, HEREDOC_PATTERN,
};
use crate::execpolicy::rules::{
    denial, first_fit, groups_set, ordered, with_group, GroupView,
};
use crate::json::{law_single_members_are_read, JsonView};
use crate::lsp::diagnostics::DiagnosticBlock;
use crate::models::{AppMode, ToolErrorView};
use crate::ops::UserInputProvenance;
use crate::text::{contains_text, decimal, joined, trimmed};
use crate::tool_catalog::{regex_matches, regex_refusal};
use crate::tool_parser::captured;
use vstd::prelude::*;

verus! {

// ---------------------------------------------------------------------------
// Authority
// ---------------------------------------------------------------------------

/// What the user, the runtime or a sub-agent hands in runs as it was requested, and
/// nothing is said of it.
pub proof fn law_own_input_keeps_its_authority(
    provenance: UserInputProvenance,
    mode: AppMode,
    allow_shell: bool,
    trust_mode: bool,
    auto_approve: bool,
    approval_mode: ApprovalMode,
)
    requires
        provenance == UserInputProvenance::ExternalUser || provenance
            == UserInputProvenance::Runtime || provenance == UserInputProvenance::SubAgentHandoff,
    ensures
        ({
            let p = input_policy(
                provenance,
                mode,
                allow_shell,
                trust_mode,
                auto_approve,
                approval_mode,
            );
            &&& p.mode == mode
            &&& p.allow_shell == allow_shell
            &&& p.trust_mode == trust_mode
            &&& p.auto_approve == auto_approve
            &&& p.approval_mode == approval_mode
            &&& p.dynamic_active_tools.len() == 0
            &&& p.status is None
        }),
{
}

/// What a transcript, a memory or a model hands in runs without trust and without
/// consent given beforehand, in no mode that has all. What it asked for else, it
/// keeps; and it is told whenever something was taken from it.
pub proof fn law_foreign_input_is_narrowed(
    provenance: UserInputProvenance,
    mode: AppMode,
    allow_shell: bool,
    trust_mode: bool,
    auto_approve: bool,
    approval_mode: ApprovalMode,
)
    requires
        provenance == UserInputProvenance::ImportedTranscript || provenance
            == UserInputProvenance::MemoryRecall || provenance
            == UserInputProvenance::AssistantGenerated,
    ensures
        ({
            let p = input_policy(
                provenance,
                mode,
                allow_shell,
                trust_mode,
                auto_approve,
                approval_mode,
            );
            &&& !p.trust_mode
            &&& !p.auto_approve
            &&& p.approval_mode != ApprovalMode::Auto && p.approval_mode != ApprovalMode::Bypass
            &&& approval_mode == ApprovalMode::Never ==> p.approval_mode == ApprovalMode::Never
            &&& mode == AppMode::Yolo ==> p.mode == AppMode::Agent
            &&& mode != AppMode::Yolo ==> p.mode == mode
            &&& p.allow_shell == allow_shell
            &&& trust_mode || auto_approve || mode == AppMode::Yolo || approval_mode
                == ApprovalMode::Bypass ==> p.status is Some
            &&& !trust_mode && !auto_approve && mode != AppMode::Yolo && approval_mode
                != ApprovalMode::Bypass ==> p.status is None
        }),
{
}

/// Planning runs without trust and asks; the mode of full authority has all and asks
/// nothing; the others have what the session prefers, and no more.
pub proof fn law_modes_have_their_permissions(mode: AppMode, prefs: ModeSessionPrefs)
    ensures
        ({
            let p = mode_policy(mode, prefs);
            &&& p.mode == mode
            &&& mode == AppMode::Plan ==> !p.trust_mode && p.approval_mode == ApprovalMode::Suggest
            &&& mode == AppMode::Yolo ==> p.trust_mode && p.allow_shell && p.approval_mode
                == ApprovalMode::Bypass
            &&& mode != AppMode::Plan && mode != AppMode::Yolo ==> p.allow_shell
                == prefs.agent_allow_shell && p.trust_mode == prefs.agent_trust_mode
                && p.approval_mode == prefs.agent_approval_mode
        }),
{
}

/// Commands write everywhere in the mode of full authority alone, nowhere while the
/// user plans, and else below the workspace and nowhere besides it.
pub proof fn law_commands_are_confined(mode: AppMode, workspace: Seq<char>)
    ensures
        sandbox_of(mode, workspace) is DangerFullAccess <==> mode == AppMode::Yolo,
        sandbox_of(mode, workspace) is ReadOnly <==> mode == AppMode::Plan,
        sandbox_of(mode, workspace) matches SandboxView::WorkspaceWrite {
            roots,
            network_access,
            exclude_tmpdir,
            exclude_slash_tmp,
        } ==> roots.len() == 1 && roots[0] == workspace && network_access && !exclude_tmpdir
            && !exclude_slash_tmp,
{
}

/// The shell is offered exactly where the session allows it and the user does not
/// plan. Consent given beforehand makes a session ask nothing; without it, it
/// asks as it was set.
pub proof fn law_shell_needs_leave(
    mode: AppMode,
    allow_shell: bool,
    auto_approve: bool,
    approval_mode: ApprovalMode,
)
    ensures
        shell_of(mode, allow_shell) == ShellPolicy::Full <==> allow_shell && mode != AppMode::Plan,
        shell_of(mode, allow_shell) != ShellPolicy::Full ==> shell_of(mode, allow_shell)
            == ShellPolicy::Disabled,
        auto_approve ==> session_approval(auto_approve, approval_mode) == ApprovalMode::Bypass,
        !auto_approve ==> session_approval(auto_approve, approval_mode) == approval_mode,
{
}

// ---------------------------------------------------------------------------
// Shell commands
// ---------------------------------------------------------------------------

/// A command can run exactly where the user does not plan, the shell is switched on
/// and there is a tool for it. Planning is named before anything else.
pub proof fn law_commands_that_can_run(mode: AppMode, shell_on: bool, has_tool: bool)
    ensures
        shell_unavailable(mode, shell_on, has_tool) is None <==> mode != AppMode::Plan && shell_on
            && has_tool,
        mode == AppMode::Plan ==> shell_unavailable(mode, shell_on, has_tool)
            matches Some(ToolErrorView::PermissionDenied(_)),
        mode != AppMode::Plan ==> !(shell_unavailable(mode, shell_on, has_tool)
            matches Some(ToolErrorView::PermissionDenied(_))),
{
}

/// A command runs unasked exactly where no rule refuses it, no rule wants consent
/// that the session has not given, and the tool needs none or was given it. What is
/// asked is the rule's reason where a rule asks, and the user is then asked in any
/// case.
pub proof fn law_commands_run_with_consent(
    facts: ShellToolFacts,
    rule: Option<AskRuleView>,
    session_auto_approve: bool,
)
    ensures
        shell_step_of(facts, rule, session_auto_approve) is Refused <==> rule
            matches Some(AskRuleView::Block(_)),
        rule matches Some(AskRuleView::Block(reason)) ==> shell_step_of(
            facts,
            rule,
            session_auto_approve,
        ) == ShellStepView::Refused(ToolErrorView::PermissionDenied(reason)),
        rule matches Some(AskRuleView::Prompt(reason)) ==> !session_auto_approve ==> shell_step_of(
            facts,
            rule,
            session_auto_approve,
        ) == ShellStepView::Ask(reason, true),
        rule is None && facts.needs_approval && !facts.auto_approve ==> shell_step_of(
            facts,
            rule,
            session_auto_approve,
        ) == ShellStepView::Ask(facts.description@, false),
        rule is None && (!facts.needs_approval || facts.auto_approve) ==> shell_step_of(
            facts,
            rule,
            session_auto_approve,
        ) is Run,
        shell_step_of(facts, rule, session_auto_approve) is Run ==> !facts.needs_approval
            || facts.auto_approve,
{
}

/// The shell is handed the command, and told that it is the user's.
pub proof fn law_commands_are_handed_on(command: Seq<char>)
    ensures
        shell_input(command).text_field("command"@) == Some(command),
        shell_input(command).text_field("source"@) == Some("user"@),
{
    reveal_strlit("command");
    reveal_strlit("source");
    let m = seq![("command"@, JsonView::Str(command)), ("source"@, JsonView::Str("user"@))];
    assert("command"@.len() == 7 && "source"@.len() == 6);
    law_single_members_are_read(m, 0);
    law_single_members_are_read(m, 1);
}

/// A line of the record tells what happened to which call, and what was decided.
#[verifier::rlimit(40)]
pub proof fn law_records_tell_the_call(
    tool_id: Seq<char>,
    event: Seq<char>,
    decision: Option<Seq<char>>,
    path: Option<Seq<char>>,
    policy: Option<Seq<char>>,
)
    ensures
        ({
            let r = record_of(tool_id, event, decision, path, policy);
            &&& r.text_field("event"@) == Some(event)
            &&& r.text_field("tool_id"@) == Some(tool_id)
            &&& r.text_field("tool_name"@) == Some("exec_shell"@)
            &&& decision is Some ==> r.text_field("decision"@) == decision
            &&& path is Some ==> r.text_field("path"@) == path
            &&& policy is Some ==> r.text_field("policy"@) == policy
        }),
{
    reveal_strlit("decision");
    reveal_strlit("event");
    reveal_strlit("path");
    reveal_strlit("policy");
    reveal_strlit("source");
    reveal_strlit("tool_id");
    reveal_strlit("tool_name");
    assert("decision"@.len() == 8 && "event"@.len() == 5 && "path"@.len() == 4 && "policy"@.len()
        == 6 && "source"@.len() == 6 && "tool_id"@.len() == 7 && "tool_name"@.len() == 9);
    assert("policy"@[0] != "source"@[0]);
    let r = record_of(tool_id, event, decision, path, policy);
    let m = r->Object_0;
    let d: int = if decision is Some {
        1
    } else {
        0
    };
    let p: int = if path is Some {
        d + 2
    } else {
        d + 1
    };
    let q: int = if policy is Some {
        p + 1
    } else {
        p
    };
    if decision is Some {
        law_single_members_are_read(m, 0);
    }
    law_single_members_are_read(m, d);
    if path is Some {
        law_single_members_are_read(m, d + 1);
    }
    if policy is Some {
        law_single_members_are_read(m, p);
    }
    law_single_members_are_read(m, q + 1);
    law_single_members_are_read(m, q + 2);
}

/// A turn's number is one above the last, up to the largest; so two turns in a row
/// have commands of different names.
pub proof fn law_turns_are_numbered(counter: u64)
    ensures
        counter < u64::MAX ==> next_turn(counter) == counter + 1,
        counter == u64::MAX ==> next_turn(counter) == counter,
        decimal(counter as nat).is_suffix_of(shell_id(counter)),
{
    let id = shell_id(counter);
    assert(id.skip(id.len() - decimal(counter as nat).len()) =~= decimal(counter as nat));
}

// ---------------------------------------------------------------------------
// Rules and reviews
// ---------------------------------------------------------------------------

/// A review that blocks blocks, whatever the user set; what it holds back needs
/// consent, or is blocked where the user is never asked; else it changes nothing.
pub proof fn law_reviews_hold_back(
    action: AutoReviewAction,
    reason: Seq<char>,
    tool_name: Seq<char>,
    approval_mode: ApprovalMode,
)
    ensures
        action == AutoReviewAction::Block ==> review_outcome(
            action,
            reason,
            tool_name,
            approval_mode,
        ) is Block,
        action == AutoReviewAction::HoldForReview && approval_mode == ApprovalMode::Never
            ==> review_outcome(action, reason, tool_name, approval_mode) is Block,
        action == AutoReviewAction::HoldForReview && approval_mode != ApprovalMode::Never
            ==> review_outcome(action, reason, tool_name, approval_mode) is ForcePrompt,
        action == AutoReviewAction::Allow || action == AutoReviewAction::AskUser ==> review_outcome(
            action,
            reason,
            tool_name,
            approval_mode,
        ) is NoChange,
        match review_outcome(action, reason, tool_name, approval_mode) {
            ReviewView::Block(text) => reason.is_suffix_of(text),
            ReviewView::ForcePrompt(text) => reason.is_suffix_of(text),
            ReviewView::NoChange => true,
        },
{
    match review_outcome(action, reason, tool_name, approval_mode) {
        ReviewView::Block(text) => {
            assert(text.skip(text.len() - reason.len()) =~= reason);
        },
        ReviewView::ForcePrompt(text) => {
            assert(text.skip(text.len() - reason.len()) =~= reason);
        },
        ReviewView::NoChange => {},
    }
}

/// What the policy does not allow is blocked, even where it asks for consent too;
/// what needs consent is asked about; what it allows freely, or has nothing to say
/// of, is left alone.
pub proof fn law_answers_are_heeded(answer: PolicyAnswer)
    ensures
        !answer.allow ==> answer_outcome(Some(answer)) == Some(AskRuleView::Block(answer.reason@)),
        answer.allow && answer.requires_approval ==> answer_outcome(Some(answer)) == Some(
            AskRuleView::Prompt(answer.reason@),
        ),
        answer.allow && !answer.requires_approval ==> answer_outcome(Some(answer)) is None,
        answer_outcome(None) is None,
{
}

/// What comes of several answers is one of theirs: it blocks exactly where one of them
/// blocks, and changes nothing exactly where none of them does.
pub proof fn law_strictest_answer_counts(answers: Seq<Option<PolicyAnswer>>, from: int)
    requires
        0 <= from <= answers.len(),
    ensures
        match answers_outcome(answers, from) {
            None => forall|i: int|
                from <= i < answers.len() ==> answer_outcome(#[trigger] answers[i]) is None,
            Some(AskRuleView::Prompt(reason)) => {
                &&& exists|i: int|
                    from <= i < answers.len() && answer_outcome(#[trigger] answers[i]) == Some(
                        AskRuleView::Prompt(reason),
                    )
                &&& forall|i: int|
                    from <= i < answers.len() ==> !(answer_outcome(#[trigger] answers[i])
                        matches Some(AskRuleView::Block(_)))
            },
            Some(AskRuleView::Block(reason)) => exists|i: int|
                from <= i < answers.len() && answer_outcome(#[trigger] answers[i]) == Some(
                    AskRuleView::Block(reason),
                ),
        },
    decreases answers.len() - from,
{
    if from < answers.len() {
        law_strictest_answer_counts(answers, from + 1);
        let here = answers[from];
        match answers_outcome(answers, from + 1) {
            Some(r) => {
                let i = choose|i: int|
                    from + 1 <= i < answers.len() && answer_outcome(#[trigger] answers[i]) == Some(
                        r,
                    );
                assert(answer_outcome(answers[i]) == Some(r));
            },
            None => {},
        }
    }
}

/// Tools that work on a file are asked about that file, and a patch about every file
/// it touches; a listing without a directory is asked about the one it runs in.
pub proof fn law_files_are_asked_about(
    tool_name: Seq<char>,
    input: JsonView,
    path: Seq<char>,
    patched: Seq<Seq<char>>,
)
    requires
        crate::context::clean_field(input, "path"@) == Some(path),
    ensures
        tool_name == "read_file"@ || tool_name == "write_file"@ || tool_name == "edit_file"@
            || tool_name == "file_search"@ || tool_name == "grep_files"@ || tool_name
            == "list_dir"@ ==> permission_paths(tool_name, input, Some(patched)) == Some(
            seq![path],
        ),
        tool_name == "apply_patch"@ ==> permission_paths(tool_name, input, Some(patched)) == Some(
            patched,
        ),
        tool_name == "exec_shell"@ || tool_name == "web_search"@ ==> permission_paths(
            tool_name,
            input,
            Some(patched),
        ) is None,
        input.text_field("path"@) == Some(path) && (tool_name == "write_file"@ || tool_name
            == "edit_file"@) ==> edited_paths(tool_name, input, Some(patched)) == seq![path],
        tool_name == "apply_patch"@ ==> edited_paths(tool_name, input, Some(patched)) == patched,
        tool_name == "read_file"@ || tool_name == "grep_files"@ || tool_name == "list_dir"@
            ==> edited_paths(tool_name, input, Some(patched)).len() == 0,
{
    reveal_strlit("read_file");
    reveal_strlit("write_file");
    reveal_strlit("edit_file");
    reveal_strlit("file_search");
    reveal_strlit("grep_files");
    reveal_strlit("list_dir");
    reveal_strlit("apply_patch");
    reveal_strlit("exec_shell");
    reveal_strlit("web_search");
    assert("read_file"@.len() == 9 && "write_file"@.len() == 10 && "edit_file"@.len() == 9
        && "file_search"@.len() == 11 && "grep_files"@.len() == 10 && "list_dir"@.len() == 8
        && "apply_patch"@.len() == 11 && "exec_shell"@.len() == 10 && "web_search"@.len() == 10);
    assert("read_file"@[0] == 'r' && "edit_file"@[0] == 'e' && "write_file"@[0] == 'w'
        && "grep_files"@[0] == 'g' && "exec_shell"@[0] == 'e' && "web_search"@[1] == 'e'
        && "write_file"@[1] == 'r' && "file_search"@[0] == 'f' && "apply_patch"@[0] == 'a');
}

/// A path from the root is taken as it is; another is looked for in the workspace.
pub proof fn law_paths_start_in_the_workspace(workspace: Seq<char>, path: Seq<char>)
    ensures
        path.len() > 0 && path[0] == '/' ==> from_root(workspace, path) == path,
        (path.len() == 0 || path[0] != '/') && workspace.len() > 0 && workspace.last() != '/'
            ==> from_root(workspace, path) == workspace + seq!['/'] + path,
{
    reveal_strlit("/");
    assert("/"@ =~= seq!['/']);
    if path.len() > 0 {
        assert(path.subrange(0, 1)[0] == path[0]);
        if path[0] == '/' {
            assert(path.subrange(0, 1) =~= "/"@);
        }
    }
    if workspace.len() > 0 {
        assert(workspace.subrange(workspace.len() - 1, workspace.len() as int)[0]
            == workspace.last());
    }
}

/// The number of diagnostics is that of all blocks together, as far as it can be
/// counted.
pub proof fn law_diagnostics_are_counted(blocks: Seq<DiagnosticBlock>, n: nat)
    requires
        n <= blocks.len(),
    ensures
        total_in(blocks, n) <= usize::MAX ==> found_in(blocks, n) == total_in(blocks, n),
        total_in(blocks, n) > usize::MAX ==> found_in(blocks, n) == usize::MAX,
        forall|i: int| 0 <= i < n ==> (#[trigger] blocks[i]).items@.len() <= total_in(blocks, n),
        total_in(blocks, 0) == 0,
        n > 0 ==> total_in(blocks, n) == total_in(blocks, (n - 1) as nat) + blocks[n
            - 1].items@.len(),
    decreases n,
{
    if n > 0 {
        law_diagnostics_are_counted(blocks, (n - 1) as nat);
    }
}

// ---------------------------------------------------------------------------
// The rules for commands
// ---------------------------------------------------------------------------

/// The group of a name.
pub open spec fn has_group(m: Seq<GroupView>, g: GroupView) -> bool {
    exists|i: int| 0 <= i < m.len() && #[trigger] m[i] == g
}

proof fn lemma_group_is_set(m: Seq<GroupView>, g: GroupView, from: int)
    requires
        0 <= from <= m.len(),
        ordered(m),
        forall|i: int| 0 <= i < from ==> (#[trigger] m[i]).0 != g.0,
    ensures
        has_group(with_group(m, g, from), g),
        forall|h: GroupView| h.0 != g.0 ==> (#[trigger] has_group(with_group(m, g, from), h)
            <==> has_group(m, h)),
    decreases m.len() - from,
{
    let after = with_group(m, g, from);
    if from >= m.len() {
        assert(after[m.len() as int] == g);
        assert forall|h: GroupView| h.0 != g.0 implies (#[trigger] has_group(after, h) <==> has_group(
            m,
            h,
        )) by {
            if has_group(m, h) {
                let i = choose|i: int| 0 <= i < m.len() && #[trigger] m[i] == h;
                assert(after[i] == h);
            }
        }
    } else if m[from].0 == g.0 {
        assert(after[from] == g);
        assert forall|h: GroupView| h.0 != g.0 implies (#[trigger] has_group(after, h) <==> has_group(
            m,
            h,
        )) by {
            if has_group(m, h) {
                let i = choose|i: int| 0 <= i < m.len() && #[trigger] m[i] == h;
                assert(after[i] == h);
            }
        }
    } else if crate::text::text_before(g.0, m[from].0) {
        assert(after[from] == g);
        assert forall|h: GroupView| h.0 != g.0 implies (#[trigger] has_group(after, h) <==> has_group(
            m,
            h,
        )) by {
            if has_group(m, h) {
                let i = choose|i: int| 0 <= i < m.len() && #[trigger] m[i] == h;
                if i < from {
                    assert(after[i] == h);
                } else {
                    assert(after[i + 1] == h);
                }
            }
            if has_group(after, h) {
                let i = choose|i: int| 0 <= i < after.len() && #[trigger] after[i] == h;
                if i < from {
                    assert(m[i] == h);
                } else {
                    assert(m[i - 1] == h);
                }
            }
        }
    } else {
        lemma_group_is_set(m, g, from + 1);
    }
}

/// A policy has the groups that it was given: of each name the last one, and no
/// other.
#[verifier::rlimit(40)]
pub proof fn law_last_group_of_a_name_counts(list: Seq<GroupView>, n: nat, g: GroupView)
    requires
        n <= list.len(),
    ensures
        has_group(groups_set(list, n), g) <==> exists|i: int|
            0 <= i < n && #[trigger] list[i] == g && forall|j: int|
                i < j < n ==> (#[trigger] list[j]).0 != g.0,
    decreases n,
{
    if n > 0 {
        let k = (n - 1) as nat;
        law_last_group_of_a_name_counts(list, k, g);
        crate::execpolicy::rules::law_groups_are_ordered(list, k);
        crate::execpolicy::rules::law_groups_are_ordered(list, n);
        let before = groups_set(list, k);
        let after = groups_set(list, n);
        lemma_group_is_set(before, list[k as int], 0);
        if g == list[k as int] {
            assert(has_group(after, g));
        } else if g.0 == list[k as int].0 {
            if has_group(after, g) {
                let i = choose|i: int| 0 <= i < after.len() && #[trigger] after[i] == g;
                let j = choose|j: int| 0 <= j < after.len() && #[trigger] after[j] == list[k as int];
                crate::text::lemma_text_order_total(g.0, g.0);
                assert(i != j);
                assert(crate::text::text_before(g.0, g.0));
                assert(false);
            }
        } else {
            if has_group(before, g) {
                let i = choose|i: int|
                    0 <= i < k && #[trigger] list[i] == g && forall|j: int|
                        i < j < k ==> (#[trigger] list[j]).0 != g.0;
                assert(list[i] == g);
            }
        }
    }
}

/// What denies a command is the first pattern of the first group that does, and it
/// does match the command.
pub proof fn law_first_denial_is_named(rules: Seq<GroupView>, command: Seq<char>, from: int)
    requires
        0 <= from <= rules.len(),
    ensures
        denial(rules, command, from) matches Some((group, pattern)) ==> pattern_fits(
            pattern,
            command,
        ) && exists|g: int, k: int|
            from <= g < rules.len() && 0 <= k < rules[g].1.deny.len() && rules[g].0 == group
                && #[trigger] rules[g].1.deny[k] == pattern && (forall|i: int|
                0 <= i < k ==> !pattern_fits(#[trigger] rules[g].1.deny[i], command)) && (forall|
                h: int,
                i: int,
            |
                from <= h < g && 0 <= i < rules[h].1.deny.len() ==> !pattern_fits(
                    #[trigger] rules[h].1.deny[i],
                    command,
                )),
    decreases rules.len() - from,
{
    if from < rules.len() {
        law_first_fit_is_found(rules[from].1.deny, command, 0);
        law_first_denial_is_named(rules, command, from + 1);
        match first_fit(rules[from].1.deny, command, 0) {
            Some(k) => {
                assert(rules[from].1.deny[k] == rules[from].1.deny[k]);
            },
            None => {
                if let Some((group, pattern)) = denial(rules, command, from + 1) {
                    let (g, k) = choose|g: int, k: int|
                        from + 1 <= g < rules.len() && 0 <= k < rules[g].1.deny.len() && rules[g].0
                            == group && #[trigger] rules[g].1.deny[k] == pattern && (forall|i: int|
                            0 <= i < k ==> !pattern_fits(#[trigger] rules[g].1.deny[i], command))
                            && (forall|h: int, i: int|
                            from + 1 <= h < g && 0 <= i < rules[h].1.deny.len() ==> !pattern_fits(
                                #[trigger] rules[h].1.deny[i],
                                command,
                            ));
                    assert(rules[g].1.deny[k] == pattern);
                }
            },
        }
    }
}

/// The first pattern that matches a command is found where there is one.
pub proof fn law_first_fit_is_found(patterns: Seq<Seq<char>>, command: Seq<char>, from: int)
    requires
        0 <= from <= patterns.len(),
    ensures
        match first_fit(patterns, command, from) {
            Some(k) => {
                &&& from <= k < patterns.len()
                &&& pattern_fits(patterns[k], command)
                &&& forall|i: int| from <= i < k ==> !pattern_fits(#[trigger] patterns[i], command)
            },
            None => forall|i: int|
                from <= i < patterns.len() ==> !pattern_fits(#[trigger] patterns[i], command),
        },
    decreases patterns.len() - from,
{
    if from < patterns.len() {
        law_first_fit_is_found(patterns, command, from + 1);
    }
}

/// The body of a here-document ends with the first line that is its delimiter alone:
/// what stands behind that line is kept, and nothing where there is no such line.
pub proof fn law_bodies_end_at_their_delimiter(lines: Seq<Seq<char>>, delim: Seq<char>)
    ensures
        (forall|i: int| 0 <= i < lines.len() ==> trimmed(#[trigger] lines[i]) != delim)
            ==> behind_body(lines, delim).len() == 0,
        forall|k: int|
            0 <= k < lines.len() && trimmed(#[trigger] lines[k]) == delim && (forall|i: int|
                0 <= i < k ==> trimmed(#[trigger] lines[i]) != delim) ==> behind_body(lines, delim)
                == lines.skip(k + 1),
    decreases lines.len(),
{
    if lines.len() > 0 {
        let rest = lines.skip(1);
        law_bodies_end_at_their_delimiter(rest, delim);
        assert forall|i: int| 0 <= i < rest.len() implies #[trigger] rest[i] == lines[i + 1] by {}
        if trimmed(lines[0]) != delim {
            assert forall|k: int|
                0 <= k < lines.len() && trimmed(#[trigger] lines[k]) == delim && (forall|i: int|
                    0 <= i < k ==> trimmed(#[trigger] lines[i]) != delim) implies behind_body(
                lines,
                delim,
            ) == lines.skip(k + 1) by {
                assert(rest[k - 1] == lines[k]);
                assert(rest.skip(k) =~= lines.skip(k + 1));
            }
        }
    }
}

/// The words that a shell reads stand with single spaces between them; in their
/// absence, those between blanks.
pub proof fn law_words_are_respaced(stripped: Seq<char>, a: Seq<char>, b: Seq<char>)
    ensures
        respaced_words(stripped, Some(seq![a])) == a,
        respaced_words(stripped, Some(seq![a, b])) == a + " "@ + b,
        respaced_words(stripped, Some(Seq::empty())).len() == 0,
        respaced_words(stripped, None) == joined(crate::text::words_of(stripped), " "@),
{
    let two = seq![a, b];
    assert(two.drop_last() =~= seq![a]);
    assert(joined(seq![a], " "@) == a);
}

/// A text in which every character that means something to a regular expression is
/// marked holds its characters in order, each marked or bare; so the text of a
/// pattern without stars is compared as it is, from one end to the other.
pub proof fn law_marked_characters_stay(text: Seq<char>, c: char)
    ensures
        escaped(text.push(c)) == (if crate::execpolicy::matcher::is_meta(c) {
            escaped(text) + seq!['\\', c]
        } else {
            escaped(text) + seq![c]
        }),
        ("(?s)^"@).is_prefix_of(expression(text)),
        ("$"@).is_suffix_of(expression(text)),
{
    assert(text.push(c).drop_last() =~= text);
    assert(escaped(text.push(c)) =~= (if crate::execpolicy::matcher::is_meta(c) {
        escaped(text) + seq!['\\', c]
    } else {
        escaped(text) + seq![c]
    }));
    let e = expression(text);
    assert(e.skip(e.len() - "$"@.len()) =~= "$"@);
}

/// The last of several here-documents on a line is the one whose body comes last.
pub proof fn law_last_delimiter_counts(
    ops: Seq<Seq<Option<Seq<char>>>>,
    whole: Seq<char>,
    delim: Seq<char>,
)
    ensures
        last_delimiter(ops.push(seq![Some(whole), Some(delim)])) == Some(delim),
        last_delimiter(Seq::empty()) is None,
{
}

/// A star matches every command; another pattern matches by its own expression, both in
/// the form in which commands are compared.
pub proof fn law_patterns_match_commands(pattern: Seq<char>, command: Seq<char>)
    ensures
        fits("*"@, command),
        pattern != "*"@ && fits(pattern, command) ==> regex_matches(expression(pattern), command),
        regex_refusal(expression(pattern)) is None && regex_matches(expression(pattern), command)
            ==> fits(pattern, command),
        pattern_fits(pattern, command) == fits(normalized(pattern), normalized(command)),
        !contains_text(command, "<<"@) ==> (shell_words(command) matches Some(words) ==> normalized(
            command,
        ) == joined(words, " "@)),
        !contains_text(command, "<<"@) && shell_words(command) is None ==> normalized(command)
            == joined(crate::text::words_of(command), " "@),
{
}

/// The operators of here-documents are taken out of a line, all of them; one that does
/// not stand in it changes nothing.
pub proof fn law_operators_are_taken_out(
    line: Seq<char>,
    ops: Seq<Seq<Option<Seq<char>>>>,
    whole: Seq<char>,
    delim: Option<Seq<char>>,
)
    ensures
        redacted(line, Seq::empty(), 0) == line,
        redacted(line, ops.push(seq![Some(whole), delim]), ops.len() + 1)
            == crate::text::without_all(redacted(line, ops, ops.len()), whole),
        !contains_text(line, whole) && whole.len() > 0 ==> redacted(
            line,
            seq![seq![Some(whole), delim]],
            1,
        ) == line,
{
    let more = ops.push(seq![Some(whole), delim]);
    lemma_redacted_same(line, ops, more, ops.len());
    assert(more[ops.len() as int] == seq![Some(whole), delim]);
    reveal_with_fuel(redacted, 2);
    let one = seq![seq![Some(whole), delim]];
    assert(redacted(line, one, 0) == line);
    crate::text::lemma_find_from(line, whole, 0);
}

proof fn lemma_redacted_same(
    line: Seq<char>,
    a: Seq<Seq<Option<Seq<char>>>>,
    b: Seq<Seq<Option<Seq<char>>>>,
    n: nat,
)
    requires
        n <= a.len(),
        n <= b.len(),
        forall|i: int| 0 <= i < n ==> #[trigger] a[i] == b[i],
    ensures
        redacted(line, a, n) == redacted(line, b, n),
    decreases n,
{
    if n > 0 {
        lemma_redacted_same(line, a, b, (n - 1) as nat);
    }
}

/// A line of a command is kept, without its operators; what follows it is kept from
/// behind the body of the here-document that it opens.
pub proof fn law_lines_around_bodies_stay(lines: Seq<Seq<char>>)
    requires
        lines.len() > 0,
    ensures
        ({
            let ops = captured(HEREDOC_PATTERN@, lines[0]);
            let rest = match last_delimiter(ops) {
                Some(d) => behind_body(lines.skip(1), d),
                None => lines.skip(1),
            };
            without_bodies(lines) == joined(
                crate::text::words_of(redacted(lines[0], ops, ops.len())),
                " "@,
            ) + "\n"@ + without_bodies(rest)
        }),
        without_bodies(Seq::empty()).len() == 0,
{
}

/// Between the rules of several parts: what blocks counts before what asks, and what
/// asked first is what the user is asked.
pub proof fn law_earlier_wishes_count(
    prompt: Seq<char>,
    reason: Seq<char>,
    rest: Option<AskRuleView>,
)
    ensures
        with_prompt(Some(prompt), Some(AskRuleView::Block(reason))) == Some(
            AskRuleView::Block(reason),
        ),
        with_prompt(Some(prompt), Some(AskRuleView::Prompt(reason))) == Some(
            AskRuleView::Prompt(prompt),
        ),
        with_prompt(Some(prompt), None) == Some(AskRuleView::Prompt(prompt)),
        with_prompt(None, rest) == rest,
{
}

} // verus!
