//! The rules under which a tool call is blocked or needs the user's consent.

use crate::authority::ApprovalMode;
use crate::context::{clean_field, json_field_text};
use crate::events::{event_views, no_events, tell, Event, EventView};
use crate::json::{Json, JsonView};
use crate::lsp::diagnostics::{bundle, diagnostic_block_views, render_blocks, DiagnosticBlock};
use crate::paths::{below, path_below};
use crate::text::{
    begins_with, concat, copy_texts, opt_text, opt_texts, push_line, same_text, starts_with, texts,
};
use vstd::prelude::*;

verus! {

/// How a run came about.
#[derive(Debug, Clone, Copy, PartialEq, Eq, Structural)]
pub enum RunOrigin {
    Background,
    Interactive,
}

/// How the run of a plan came about.
pub fn auto_review_run_origin_for_plan(detached_start: bool) -> (r: RunOrigin)
    ensures
        r == (if detached_start {
            RunOrigin::Background
        } else {
            RunOrigin::Interactive
        }),
{
    if detached_start {
        RunOrigin::Background
    } else {
        RunOrigin::Interactive
    }
}

/// What an automatic review came to.
#[derive(Debug, Clone, Copy, PartialEq, Eq, Structural)]
pub enum AutoReviewAction {
    Allow,
    AskUser,
    HoldForReview,
    Block,
}

/// What an automatic review means for a tool call.
#[derive(Debug)]
pub enum AutoReviewPlanDecision {
    NoChange,
    ForcePrompt(String),
    Block(String),
}

/// What an automatic review means for a tool call, as contracts see it.
#[verifier::ext_equal]
pub enum ReviewView {
    NoChange,
    ForcePrompt(Seq<char>),
    Block(Seq<char>),
}

impl View for AutoReviewPlanDecision {
    type V = ReviewView;

    open spec fn view(&self) -> ReviewView {
        match self {
            AutoReviewPlanDecision::NoChange => ReviewView::NoChange,
            AutoReviewPlanDecision::ForcePrompt(s) => ReviewView::ForcePrompt(s@),
            AutoReviewPlanDecision::Block(s) => ReviewView::Block(s@),
        }
    }
}

/// What an automatic review means for a tool call. What is held for review needs
/// the user's consent, and is blocked where the user is never asked.
pub open spec fn review_outcome(
    action: AutoReviewAction,
    reason: Seq<char>,
    tool_name: Seq<char>,
    approval_mode: ApprovalMode,
) -> ReviewView {
    match action {
        AutoReviewAction::Allow => ReviewView::NoChange,
        AutoReviewAction::AskUser => ReviewView::NoChange,
        AutoReviewAction::HoldForReview => {
            let text = "Built-in safety gate requires approval: "@ + reason;
            if approval_mode == ApprovalMode::Never {
                ReviewView::Block(text)
            } else {
                ReviewView::ForcePrompt(text)
            }
        },
        AutoReviewAction::Block => ReviewView::Block(
            "Auto-review policy blocked tool '"@ + tool_name + "': "@ + reason,
        ),
    }
}

/// What an automatic review means for a tool call, given what the review came to
/// and why.
pub fn auto_review_plan_decision(
    action: AutoReviewAction,
    reason: &str,
    tool_name: &str,
    approval_mode: ApprovalMode,
) -> (r: AutoReviewPlanDecision)
    ensures
        r@ == review_outcome(action, reason@, tool_name@, approval_mode),
{
    match action {
        AutoReviewAction::Allow | AutoReviewAction::AskUser => AutoReviewPlanDecision::NoChange,
        AutoReviewAction::HoldForReview => {
            let text = concat("Built-in safety gate requires approval: ", reason);
            if approval_mode == ApprovalMode::Never {
                AutoReviewPlanDecision::Block(text)
            } else {
                AutoReviewPlanDecision::ForcePrompt(text)
            }
        },
        AutoReviewAction::Block => {
            let mut text = concat("Auto-review policy blocked tool '", tool_name);
            text.append("': ");
            text.append(reason);
            AutoReviewPlanDecision::Block(text)
        },
    }
}

/// When a policy asks for consent.
#[derive(Debug, Clone, Copy, PartialEq, Eq, Structural)]
pub enum AskForApproval {
    Never,
    OnFailure,
}

/// When a policy is to ask for consent in an approval mode.
pub fn ask_for_approval(approval_mode: ApprovalMode) -> (r: AskForApproval)
    ensures
        r == (if approval_mode == ApprovalMode::Never {
            AskForApproval::Never
        } else {
            AskForApproval::OnFailure
        }),
{
    match approval_mode {
        ApprovalMode::Never => AskForApproval::Never,
        ApprovalMode::Auto | ApprovalMode::Bypass | ApprovalMode::Suggest => {
            AskForApproval::OnFailure
        },
    }
}

/// What a policy says of a tool call.
#[derive(Debug)]
pub struct PolicyAnswer {
    pub allow: bool,
    pub requires_approval: bool,
    pub reason: String,
}

/// What the rules mean for a tool call.
#[derive(Debug)]
pub enum ToolAskRuleDecision {
    Prompt(String),
    Block(String),
}

/// What the rules mean for a tool call, as contracts see it.
#[verifier::ext_equal]
pub enum AskRuleView {
    Prompt(Seq<char>),
    Block(Seq<char>),
}

impl View for ToolAskRuleDecision {
    type V = AskRuleView;

    open spec fn view(&self) -> AskRuleView {
        match self {
            ToolAskRuleDecision::Prompt(s) => AskRuleView::Prompt(s@),
            ToolAskRuleDecision::Block(s) => AskRuleView::Block(s@),
        }
    }
}

/// The view of an optional decision.
pub open spec fn opt_rule(d: Option<ToolAskRuleDecision>) -> Option<AskRuleView> {
    match d {
        Some(r) => Some(r@),
        None => None,
    }
}

/// What an answer of the policy means: what is not allowed is blocked, what
/// needs consent is asked about, and a policy that could not be asked changes
/// nothing.
pub open spec fn answer_outcome(answer: Option<PolicyAnswer>) -> Option<AskRuleView> {
    match answer {
        None => None,
        Some(a) => if !a.allow {
            Some(AskRuleView::Block(a.reason@))
        } else if a.requires_approval {
            Some(AskRuleView::Prompt(a.reason@))
        } else {
            None
        },
    }
}

/// What an answer of the policy means.
pub fn tool_ask_rule_decision(answer: &Option<PolicyAnswer>) -> (r: Option<ToolAskRuleDecision>)
    ensures
        opt_rule(r) == answer_outcome(*answer),
{
    match answer {
        None => None,
        Some(a) => {
            if !a.allow {
                Some(ToolAskRuleDecision::Block(a.reason.clone()))
            } else if a.requires_approval {
                Some(ToolAskRuleDecision::Prompt(a.reason.clone()))
            } else {
                None
            }
        },
    }
}

/// The command about which the policy is asked before a tool runs.
pub fn exec_shell_question<'a>(tool_name: &str, tool_input: &'a Json) -> (r: Option<&'a str>)
    ensures
        crate::text::opt_str(r) == (if tool_name@ == "exec_shell"@ {
            tool_input@.text_field("command"@)
        } else {
            None
        }),
{
    if !same_text(tool_name, "exec_shell") {
        return None;
    }
    tool_input.get_str("command")
}

/// What the rules mean for a shell command, given the policy's answer about it.
pub fn exec_shell_ask_rule_decision(
    tool_name: &str,
    tool_input: &Json,
    answer: &Option<PolicyAnswer>,
) -> (r: Option<ToolAskRuleDecision>)
    ensures
        opt_rule(r) == (if tool_name@ == "exec_shell"@ && tool_input@.text_field("command"@)
            is Some {
            answer_outcome(*answer)
        } else {
            None
        }),
{
    match exec_shell_question(tool_name, tool_input) {
        Some(_) => tool_ask_rule_decision(answer),
        None => None,
    }
}

/// A tool that works on the file or directory under `path`.
pub open spec fn works_on_path(name: Seq<char>) -> bool {
    name == "read_file"@ || name == "write_file"@ || name == "edit_file"@ || name
        == "file_search"@ || name == "grep_files"@
}

/// The paths about which the policy is asked before a tool runs. `patched` are
/// the files that a patch touches, where the patch can be read.
pub open spec fn permission_paths(
    tool_name: Seq<char>,
    input: JsonView,
    patched: Option<Seq<Seq<char>>>,
) -> Option<Seq<Seq<char>>> {
    if works_on_path(tool_name) {
        Some(
            match clean_field(input, "path"@) {
                Some(p) => seq![p],
                None => Seq::empty(),
            },
        )
    } else if tool_name == "list_dir"@ {
        Some(
            seq![
                match clean_field(input, "path"@) {
                    Some(p) => p,
                    None => "."@,
                },
            ],
        )
    } else if tool_name == "apply_patch"@ {
        Some(
            match patched {
                Some(list) => list,
                None => Seq::empty(),
            },
        )
    } else {
        None
    }
}

fn copied(list: &Option<Vec<String>>) -> (r: Vec<String>)
    ensures
        texts(r@) == (match opt_texts(*list) {
            Some(l) => l,
            None => Seq::empty(),
        }),
{
    match list {
        Some(l) => copy_texts(l),
        None => {
            let r: Vec<String> = Vec::new();
            assert(texts(r@) =~= Seq::empty());
            r
        },
    }
}

/// The paths about which the policy is asked before a tool runs.
pub fn file_tool_permission_paths(
    tool_name: &str,
    input: &Json,
    patched: &Option<Vec<String>>,
) -> (r: Option<Vec<String>>)
    ensures
        opt_texts(r) == permission_paths(tool_name@, input@, opt_texts(*patched)),
{
    if same_text(tool_name, "read_file") || same_text(tool_name, "write_file") || same_text(
        tool_name,
        "edit_file",
    ) || same_text(tool_name, "file_search") || same_text(tool_name, "grep_files") {
        let mut out: Vec<String> = Vec::new();
        proof {
            assert(texts(out@) =~= Seq::empty());
        }
        if let Some(p) = json_field_text(input, "path") {
            push_line(&mut out, p);
        }
        proof {
            assert(texts(out@) =~= match clean_field(input@, "path"@) {
                Some(p) => seq![p],
                None => Seq::empty(),
            });
        }
        return Some(out);
    }
    if same_text(tool_name, "list_dir") {
        let mut out: Vec<String> = Vec::new();
        proof {
            assert(texts(out@) =~= Seq::empty());
        }
        let path = match json_field_text(input, "path") {
            Some(p) => p,
            None => ".".to_owned(),
        };
        push_line(&mut out, path);
        proof {
            assert(texts(out@) =~= seq![path@]);
        }
        return Some(out);
    }
    if same_text(tool_name, "apply_patch") {
        return Some(copied(patched));
    }
    None
}

/// What the rules mean for a tool that works on files: the first answer that
/// blocks, else the first that wants consent.
pub open spec fn answers_outcome(answers: Seq<Option<PolicyAnswer>>, from: int) -> Option<
    AskRuleView,
>
    decreases answers.len() - from,
{
    if from < 0 || from >= answers.len() {
        None
    } else {
        let rest = answers_outcome(answers, from + 1);
        match answer_outcome(answers[from]) {
            Some(AskRuleView::Block(reason)) => Some(AskRuleView::Block(reason)),
            Some(AskRuleView::Prompt(reason)) => match rest {
                Some(AskRuleView::Block(later)) => Some(AskRuleView::Block(later)),
                _ => Some(AskRuleView::Prompt(reason)),
            },
            None => rest,
        }
    }
}

/// What the rules mean for a tool that works on files, given the policy's
/// answers about its paths in order, or the one answer about the tool where it
/// names no path.
pub fn file_tool_ask_rule_decision(
    tool_name: &str,
    input: &Json,
    patched: &Option<Vec<String>>,
    answers: &Vec<Option<PolicyAnswer>>,
) -> (r: Option<ToolAskRuleDecision>)
    ensures
        opt_rule(r) == (if permission_paths(tool_name@, input@, opt_texts(*patched)) is None {
            None
        } else {
            answers_outcome(answers@, 0)
        }),
{
    if file_tool_permission_paths(tool_name, input, patched).is_none() {
        return None;
    }
    let ghost goal = answers_outcome(answers@, 0);
    let mut prompt: Option<String> = None;
    let mut i: usize = 0;
    while i < answers.len()
        invariant
            i <= answers@.len(),
            goal == answers_outcome(answers@, 0),
            permission_paths(tool_name@, input@, opt_texts(*patched)) is Some,
            goal == with_prompt(opt_text(prompt), answers_outcome(answers@, i as int)),
        decreases answers@.len() - i,
    {
        match tool_ask_rule_decision(&answers[i]) {
            Some(ToolAskRuleDecision::Block(reason)) => {
                return Some(ToolAskRuleDecision::Block(reason));
            },
            Some(ToolAskRuleDecision::Prompt(reason)) => {
                if prompt.is_none() {
                    prompt = Some(reason);
                }
            },
            None => {},
        }
        i += 1;
    }
    match prompt {
        Some(reason) => Some(ToolAskRuleDecision::Prompt(reason)),
        None => None,
    }
}

/// An earlier wish for consent counts unless something later blocks.
pub open spec fn with_prompt(prompt: Option<Seq<char>>, rest: Option<AskRuleView>) -> Option<
    AskRuleView,
> {
    match rest {
        Some(AskRuleView::Block(reason)) => Some(AskRuleView::Block(reason)),
        _ => match prompt {
            Some(reason) => Some(AskRuleView::Prompt(reason)),
            None => rest,
        },
    }
}

/// One answer that blocks blocks the call, whatever the others say.
pub proof fn law_one_block_is_enough(answers: Seq<Option<PolicyAnswer>>, from: int, i: int)
    requires
        0 <= from <= i < answers.len(),
        answer_outcome(answers[i]) is Some,
        answer_outcome(answers[i])->0 is Block,
    ensures
        answers_outcome(answers, from) is Some,
        answers_outcome(answers, from)->0 is Block,
    decreases i - from,
{
    if from < i {
        law_one_block_is_enough(answers, from + 1, i);
    }
}

// ---------------------------------------------------------------------------
// After an edit
// ---------------------------------------------------------------------------

/// The files that a tool changed.
pub open spec fn edited_paths(
    tool_name: Seq<char>,
    input: JsonView,
    patched: Option<Seq<Seq<char>>>,
) -> Seq<Seq<char>> {
    if tool_name == "edit_file"@ || tool_name == "write_file"@ {
        match input.text_field("path"@) {
            Some(p) => seq![p],
            None => Seq::empty(),
        }
    } else if tool_name == "apply_patch"@ {
        match patched {
            Some(list) => list,
            None => Seq::empty(),
        }
    } else {
        Seq::empty()
    }
}

/// The files that a tool changed. `patched` are the files that a patch touches,
/// where the patch can be read.
pub fn edited_paths_for_tool(
    tool_name: &str,
    input: &Json,
    patched: &Option<Vec<String>>,
) -> (r: Vec<String>)
    ensures
        texts(r@) == edited_paths(tool_name@, input@, opt_texts(*patched)),
{
    if same_text(tool_name, "edit_file") || same_text(tool_name, "write_file") {
        let mut out: Vec<String> = Vec::new();
        proof {
            assert(texts(out@) =~= Seq::empty());
        }
        if let Some(p) = input.get_str("path") {
            push_line(&mut out, p.to_owned());
        }
        proof {
            assert(texts(out@) =~= edited_paths(tool_name@, input@, opt_texts(*patched)));
        }
        return out;
    }
    if same_text(tool_name, "apply_patch") {
        return copied(patched);
    }
    let none: Vec<String> = Vec::new();
    assert(texts(none@) =~= Seq::empty());
    none
}

/// A path of a tool, from the root.
pub open spec fn from_root(workspace: Seq<char>, path: Seq<char>) -> Seq<char> {
    if begins_with(path, "/"@) {
        path
    } else {
        below(workspace, path)
    }
}

/// The files about which language servers are asked after a tool ran; none where
/// diagnostics are off.
pub fn files_to_check(
    enabled: bool,
    workspace: &str,
    tool_name: &str,
    input: &Json,
    patched: &Option<Vec<String>>,
) -> (r: Vec<String>)
    ensures
        texts(r@) == (if enabled {
            edited_paths(tool_name@, input@, opt_texts(*patched)).map_values(
                |p: Seq<char>| from_root(workspace@, p),
            )
        } else {
            Seq::empty()
        }),
{
    let mut out: Vec<String> = Vec::new();
    proof {
        assert(texts(out@) =~= Seq::empty());
    }
    if !enabled {
        return out;
    }
    let paths = edited_paths_for_tool(tool_name, input, patched);
    let ghost all = texts(paths@);
    let ghost place = |p: Seq<char>| from_root(workspace@, p);
    let mut i: usize = 0;
    proof {
        assert(texts(out@) =~= all.take(0).map_values(place));
    }
    while i < paths.len()
        invariant
            i <= paths@.len(),
            all == texts(paths@),
            place == (|p: Seq<char>| from_root(workspace@, p)),
            texts(out@) == all.take(i as int).map_values(place),
        decreases paths@.len() - i,
    {
        assert(all[i as int] == paths@[i as int]@);
        let p = paths[i].as_str();
        let full = if starts_with(p, "/") {
            p.to_owned()
        } else {
            path_below(workspace, p)
        };
        push_line(&mut out, full);
        proof {
            assert(all.take(i + 1).map_values(place) =~= all.take(i as int).map_values(place).push(
                place(all[i as int]),
            ));
        }
        i += 1;
    }
    proof {
        assert(all.take(all.len() as int) =~= all);
    }
    out
}

/// How many diagnostics the first `n` blocks hold, as far as they can be counted.
pub open spec fn found_in(blocks: Seq<DiagnosticBlock>, n: nat) -> nat
    decreases n,
{
    if n == 0 {
        0
    } else {
        let sum = found_in(blocks, (n - 1) as nat) + blocks[n - 1].items@.len();
        if sum > usize::MAX {
            usize::MAX as nat
        } else {
            sum
        }
    }
}

/// Keeps the blocks that language servers gave after an edit for the next
/// request, and tells how much was found.
pub fn keep_diagnostics(pending: &mut Vec<DiagnosticBlock>, blocks: Vec<DiagnosticBlock>) -> (r:
    Vec<Event>)
    ensures
        final(pending)@ == old(pending)@ + blocks@,
        event_views(r@) == (if found_in(blocks@, blocks@.len()) > 0 {
            seq![
                EventView::LspRepairUpdate {
                    diagnostics_found: found_in(blocks@, blocks@.len()) as usize,
                    files: blocks@.len() as usize,
                    injected: false,
                },
            ]
        } else {
            Seq::empty()
        }),
{
    let files: usize = blocks.len();
    let mut found: usize = 0;
    let mut i: usize = 0;
    while i < blocks.len()
        invariant
            i <= blocks@.len(),
            found == found_in(blocks@, i as nat),
        decreases blocks@.len() - i,
    {
        found = found.saturating_add(blocks[i].items.len());
        i += 1;
    }
    let mut given = blocks;
    pending.append(&mut given);
    let mut events = no_events();
    if found > 0 {
        tell(
            &mut events,
            Event::LspRepairUpdate { diagnostics_found: found, files, injected: false },
        );
        proof {
            assert(event_views(events@) =~= seq![
                EventView::LspRepairUpdate { diagnostics_found: found, files, injected: false },
            ]);
        }
    }
    events
}

/// How many diagnostics the first `n` blocks hold.
pub open spec fn total_in(blocks: Seq<DiagnosticBlock>, n: nat) -> nat
    decreases n,
{
    if n == 0 {
        0
    } else {
        total_in(blocks, (n - 1) as nat) + blocks[n - 1].items@.len()
    }
}

/// What a model is told of blocks of diagnostics.
pub open spec fn diagnostics_text(blocks: Seq<DiagnosticBlock>) -> Seq<char> {
    bundle(diagnostic_block_views(blocks))
}

/// What the host is told when diagnostics are put before a model.
pub open spec fn diagnostics_told(blocks: Seq<DiagnosticBlock>) -> EventView {
    EventView::LspRepairUpdate {
        diagnostics_found: total_in(blocks, blocks.len()) as usize,
        files: blocks.len() as usize,
        injected: true,
    }
}

/// Takes the diagnostics that are kept: the text that is put before the model,
/// and how much it tells of. Nothing is put where no block says anything.
pub fn flush_diagnostics(pending: &mut Vec<DiagnosticBlock>) -> (r: Option<(String, Event)>)
    requires
        total_in(old(pending)@, old(pending)@.len()) <= usize::MAX,
    ensures
        final(pending)@.len() == 0,
        match r {
            Some((rendered, event)) => {
                &&& diagnostics_text(old(pending)@).len() > 0
                &&& rendered@ == diagnostics_text(old(pending)@)
                &&& event@ == diagnostics_told(old(pending)@)
            },
            None => diagnostics_text(old(pending)@).len() == 0,
        },
{
    let mut blocks: Vec<DiagnosticBlock> = Vec::new();
    std::mem::swap(&mut blocks, pending);
    let files: usize = blocks.len();
    let mut found: usize = 0;
    let mut i: usize = 0;
    while i < blocks.len()
        invariant
            i <= blocks@.len(),
            found == total_in(blocks@, i as nat),
            total_in(blocks@, blocks@.len()) <= usize::MAX,
        decreases blocks@.len() - i,
    {
        proof {
            lemma_total_grows(blocks@, (i + 1) as nat, blocks@.len());
        }
        found = found + blocks[i].items.len();
        i += 1;
    }
    let rendered = render_blocks(&blocks);
    if rendered.as_str().is_empty() {
        return None;
    }
    Some((rendered, Event::LspRepairUpdate { diagnostics_found: found, files, injected: true }))
}

proof fn lemma_total_grows(blocks: Seq<DiagnosticBlock>, i: nat, n: nat)
    requires
        i <= n,
    ensures
        total_in(blocks, i) <= total_in(blocks, n),
    decreases n - i,
{
    if i < n {
        lemma_total_grows(blocks, i, (n - 1) as nat);
    }
}

} // verus!
