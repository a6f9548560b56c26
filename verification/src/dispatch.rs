//! Which tool calls run, in what company, and what is said when one fails.

use crate::context::first_some;
use crate::json::{
    json_of_text, json_views, lemma_json_views, lemma_member_views, member_views, opt_json,
    parse_json, Json, JsonView,
};
use crate::models::{
    AppMode, Tool, ToolCaller, ToolError, ToolErrorView, ToolResult, ToolResultView,
};
use crate::text::{
    ascii_lower, begins_with, chars_of, code_of, concat, consts, contains, contains_any,
    contains_any_text, contains_text, decimal, find_chars, find_from, join, joined, lemma_find_from,
    lines_of, matches_at, occurs_at, one_of, opt_text, push_decimal, push_line, same_text,
    split_lines, starts_with, strip_prefix, text_of, texts, to_ascii_lowercase, trim, trim_front,
    trim_start, trimmed, without_prefix,
};
use vstd::prelude::*;

verus! {

// ---------------------------------------------------------------------------
// Batches
// ---------------------------------------------------------------------------

/// One tool call of a turn with what was found out about it.
#[derive(Debug)]
pub struct ToolExecutionPlan {
    pub index: usize,
    pub id: String,
    pub name: String,
    pub input: Json,
    pub caller: Option<ToolCaller>,
    pub interactive: bool,
    pub approval_required: bool,
    pub approval_description: String,
    pub approval_force_prompt: bool,
    pub supports_parallel: bool,
    pub read_only: bool,
    pub detached_start: bool,
    pub blocked_error: Option<ToolError>,
    pub guard_result: Option<ToolResult>,
}

/// Calls that run together, or one that runs alone.
#[derive(Debug)]
pub enum ToolExecutionBatch {
    Parallel(Vec<ToolExecutionPlan>),
    Serial(Box<ToolExecutionPlan>),
}

/// The calls of a batch, in order.
pub open spec fn batch_plans(batch: ToolExecutionBatch) -> Seq<ToolExecutionPlan> {
    match batch {
        ToolExecutionBatch::Parallel(plans) => plans@,
        ToolExecutionBatch::Serial(plan) => seq![*plan],
    }
}

/// The calls of a list of batches, in order.
pub open spec fn flattened(batches: Seq<ToolExecutionBatch>) -> Seq<ToolExecutionPlan>
    decreases batches.len(),
{
    if batches.len() == 0 {
        Seq::empty()
    } else {
        flattened(batches.drop_last()) + batch_plans(batches.last())
    }
}

/// A call that only reads, needs nobody's consent and may share the floor.
pub open spec fn parallel_safe(plan: ToolExecutionPlan) -> bool {
    plan.read_only && plan.supports_parallel && !plan.approval_required && !plan.interactive
}

/// A call that may run together with its neighbours.
pub open spec fn joinable(plan: ToolExecutionPlan) -> bool {
    plan.blocked_error is None && (parallel_safe(plan) || (plan.detached_start
        && !plan.approval_required && !plan.interactive))
}

/// Whether a call only reads, needs nobody's consent and may share the floor.
pub fn tool_plan_is_parallel_safe(plan: &ToolExecutionPlan) -> (r: bool)
    ensures
        r == parallel_safe(*plan),
{
    plan.read_only && plan.supports_parallel && !plan.approval_required && !plan.interactive
}

/// Whether a call may run together with its neighbours.
pub fn tool_plan_can_join_parallel_batch(plan: &ToolExecutionPlan) -> (r: bool)
    ensures
        r == joinable(*plan),
{
    plan.blocked_error.is_none() && (tool_plan_is_parallel_safe(plan) || (plan.detached_start
        && !plan.approval_required && !plan.interactive))
}

/// Whether all calls of a turn may run together.
pub fn should_parallelize_tool_batch(plans: &Vec<ToolExecutionPlan>) -> (r: bool)
    ensures
        r == (plans@.len() > 0 && forall|i: int|
            0 <= i < plans@.len() ==> joinable(#[trigger] plans@[i])),
{
    let mut i: usize = 0;
    while i < plans.len()
        invariant
            i <= plans@.len(),
            forall|j: int| 0 <= j < i ==> joinable(#[trigger] plans@[j]),
        decreases plans@.len() - i,
    {
        if !tool_plan_can_join_parallel_batch(&plans[i]) {
            assert(!joinable(plans@[i as int]));
            return false;
        }
        i += 1;
    }
    plans.len() > 0
}

/// A batch of a turn: calls that run together are all joinable, and there is at
/// least one; a call that runs alone is not joinable.
pub open spec fn good_batch(batch: ToolExecutionBatch) -> bool {
    match batch {
        ToolExecutionBatch::Parallel(plans) => plans@.len() > 0 && forall|i: int|
            0 <= i < plans@.len() ==> joinable(#[trigger] plans@[i]),
        ToolExecutionBatch::Serial(plan) => !joinable(*plan),
    }
}

/// The batches of a turn's calls: together they are the calls in their order,
/// each is good, and two parallel batches are never neighbours.
pub open spec fn batches_of(
    batches: Seq<ToolExecutionBatch>,
    plans: Seq<ToolExecutionPlan>,
) -> bool {
    &&& flattened(batches) == plans
    &&& forall|i: int| 0 <= i < batches.len() ==> good_batch(#[trigger] batches[i])
    &&& forall|i: int|
        0 < i < batches.len() ==> !(batches[i - 1] is Parallel && #[trigger] batches[i] is Parallel)
}

proof fn lemma_flattened_push(batches: Seq<ToolExecutionBatch>, b: ToolExecutionBatch)
    ensures
        flattened(batches.push(b)) == flattened(batches) + batch_plans(b),
{
    assert(batches.push(b).drop_last() =~= batches);
}

/// Divides the calls of a turn into batches: neighbours that are all joinable
/// run together, any other call runs alone, and the order is kept.
pub fn plan_tool_execution_batches(plans: Vec<ToolExecutionPlan>) -> (r: Vec<ToolExecutionBatch>)
    ensures
        batches_of(r@, plans@),
{
    let ghost all = plans@;
    let mut batches: Vec<ToolExecutionBatch> = Vec::new();
    let mut chunk: Vec<ToolExecutionPlan> = Vec::new();
    proof {
        assert(flattened(batches@) + chunk@ =~= all.take(0));
    }
    for plan in it: plans
        invariant
            it.seq() == all,
            flattened(batches@) + chunk@ == all.take(it.index() as int),
            forall|i: int| 0 <= i < batches@.len() ==> good_batch(#[trigger] batches@[i]),
            forall|i: int| 0 <= i < chunk@.len() ==> joinable(#[trigger] chunk@[i]),
            forall|i: int|
                0 < i < batches@.len() ==> !(batches@[i - 1] is Parallel
                    && #[trigger] batches@[i] is Parallel),
            batches@.len() > 0 ==> batches@.last() is Serial,
    {
        let ghost k = it.index() as int;
        let ghost before = all.take(k);
        proof {
            assert(all.take(k + 1) =~= before.push(plan));
        }
        if tool_plan_can_join_parallel_batch(&plan) {
            let ghost old_chunk = chunk@;
            chunk.push(plan);
            proof {
                assert(flattened(batches@) + chunk@ =~= (flattened(batches@) + old_chunk).push(
                    plan,
                ));
            }
        } else {
            let ghost start = batches@;
            if chunk.len() > 0 {
                let full = chunk;
                chunk = Vec::new();
                let b = ToolExecutionBatch::Parallel(full);
                proof {
                    lemma_flattened_push(batches@, b);
                    assert(good_batch(b));
                }
                batches.push(b);
            }
            proof {
                assert(flattened(batches@) =~= before);
            }
            let s = ToolExecutionBatch::Serial(Box::new(plan));
            proof {
                lemma_flattened_push(batches@, s);
                assert(good_batch(s));
                assert(flattened(batches@) + seq![plan] =~= before.push(plan));
            }
            batches.push(s);
            proof {
                assert(chunk@ =~= Seq::empty());
                assert(flattened(batches@) + chunk@ =~= flattened(batches@));
            }
        }
    }
    proof {
        assert(all.take(all.len() as int) =~= all);
    }
    if chunk.len() > 0 {
        let b = ToolExecutionBatch::Parallel(chunk);
        proof {
            lemma_flattened_push(batches@, b);
            assert(good_batch(b));
        }
        batches.push(b);
    } else {
        proof {
            assert(flattened(batches@) + chunk@ =~= flattened(batches@));
        }
    }
    batches
}

/// The last call of a list of batches is the last call of its last batch.
proof fn lemma_last_plan(batches: Seq<ToolExecutionBatch>, plans: Seq<ToolExecutionPlan>)
    requires
        batches_of(batches, plans),
        plans.len() > 0,
    ensures
        batches.len() > 0,
        batch_plans(batches.last()).len() > 0,
        batch_plans(batches.last()).last() == plans.last(),
        batch_plans(batches.last()).len() <= plans.len(),
        flattened(batches.drop_last()) == plans.take(
            plans.len() - batch_plans(batches.last()).len(),
        ),
        batch_plans(batches.last()) == plans.skip(
            plans.len() - batch_plans(batches.last()).len(),
        ),
        joinable(plans.last()) <==> batches.last() is Parallel,
        batches_of(batches.drop_last(), flattened(batches.drop_last())),
{
    let front = flattened(batches.drop_last());
    let back = batch_plans(batches.last());
    assert(good_batch(batches[batches.len() - 1]));
    assert(plans == front + back);
    assert(plans.take(plans.len() - back.len()) =~= front);
    assert(plans.skip(plans.len() - back.len()) =~= back);
    match batches.last() {
        ToolExecutionBatch::Parallel(v) => {
            assert(joinable(v@[v@.len() - 1]));
        },
        ToolExecutionBatch::Serial(s) => {},
    }
    let rest = batches.drop_last();
    assert forall|i: int| 0 <= i < rest.len() implies good_batch(#[trigger] rest[i]) by {
        assert(rest[i] == batches[i]);
    }
    assert forall|i: int| 0 < i < rest.len() implies !(rest[i - 1] is Parallel
        && #[trigger] rest[i] is Parallel) by {
        assert(rest[i] == batches[i] && rest[i - 1] == batches[i - 1]);
    }
}

/// Where each batch begins in the list of all calls.
pub open spec fn batch_starts(batches: Seq<ToolExecutionBatch>, n: nat) -> int
    decreases n,
{
    if n == 0 {
        0
    } else {
        batch_starts(batches, (n - 1) as nat) + batch_plans(batches[n - 1]).len()
    }
}

/// Calls run together only where none of them is blocked, needs the user's
/// consent or talks to the user, and where each either starts something that runs
/// on its own, or only reads and may share the floor. There is always one.
pub proof fn law_calls_that_run_together_are_safe(
    batches: Seq<ToolExecutionBatch>,
    plans: Seq<ToolExecutionPlan>,
    i: int,
)
    requires
        batches_of(batches, plans),
        0 <= i < batches.len(),
    ensures
        batches[i] matches ToolExecutionBatch::Parallel(v) ==> v@.len() > 0 && forall|j: int|
            0 <= j < v@.len() ==> {
                let call = #[trigger] v@[j];
                &&& !call.approval_required
                &&& !call.interactive
                &&& call.blocked_error is None
                &&& call.detached_start || (call.read_only && call.supports_parallel)
            },
{
    assert(good_batch(batches[i]));
    if let ToolExecutionBatch::Parallel(v) = batches[i] {
        assert forall|j: int| 0 <= j < v@.len() implies {
            let call = #[trigger] v@[j];
            &&& !call.approval_required
            &&& !call.interactive
            &&& call.blocked_error is None
            &&& call.detached_start || (call.read_only && call.supports_parallel)
        } by {
            assert(joinable(v@[j]));
        }
    }
}

/// A call that could run together with others never runs alone: one that does is
/// blocked, needs consent, talks to the user, or writes or shares nothing without
/// being a start.
pub proof fn law_calls_that_run_alone_must(
    batches: Seq<ToolExecutionBatch>,
    plans: Seq<ToolExecutionPlan>,
    i: int,
)
    requires
        batches_of(batches, plans),
        0 <= i < batches.len(),
    ensures
        batches[i] matches ToolExecutionBatch::Serial(call) ==> {
            ||| call.approval_required
            ||| call.interactive
            ||| call.blocked_error is Some
            ||| !call.detached_start && !(call.read_only && call.supports_parallel)
        },
        i > 0 && batches[i] is Parallel ==> batches[i - 1] is Serial,
{
    assert(good_batch(batches[i]));
}

/// The batches hold the calls in their order, each once: each batch is the stretch
/// of calls behind those of the batches before it, and together they are all.
pub proof fn law_batches_keep_the_order(
    batches: Seq<ToolExecutionBatch>,
    plans: Seq<ToolExecutionPlan>,
)
    requires
        batches_of(batches, plans),
    ensures
        batch_starts(batches, batches.len()) == plans.len(),
        forall|i: int|
            0 <= i < batches.len() ==> {
                let start = batch_starts(batches, i as nat);
                let own = match #[trigger] batches[i] {
                    ToolExecutionBatch::Parallel(v) => v@,
                    ToolExecutionBatch::Serial(call) => seq![*call],
                };
                &&& 0 <= start <= start + own.len() <= plans.len()
                &&& own == plans.subrange(start, start + own.len())
            },
    decreases batches.len(),
{
    if batches.len() > 0 {
        let rest = batches.drop_last();
        let front = flattened(rest);
        let n = rest.len();
        assert forall|i: int| 0 <= i < n implies good_batch(#[trigger] rest[i]) by {
            assert(rest[i] == batches[i]);
        }
        assert forall|i: int| 0 < i < n implies !(rest[i - 1] is Parallel
            && #[trigger] rest[i] is Parallel) by {
            assert(rest[i] == batches[i] && rest[i - 1] == batches[i - 1]);
        }
        law_batches_keep_the_order(rest, front);
        lemma_batch_starts(rest, batches, n);
        let last = batch_plans(batches.last());
        assert(plans == front + last);
        assert forall|i: int| 0 <= i < batches.len() implies {
            let start = batch_starts(batches, i as nat);
            let own = match #[trigger] batches[i] {
                ToolExecutionBatch::Parallel(v) => v@,
                ToolExecutionBatch::Serial(call) => seq![*call],
            };
            &&& 0 <= start <= start + own.len() <= plans.len()
            &&& own == plans.subrange(start, start + own.len())
        } by {
            if i < n {
                assert(rest[i] == batches[i]);
                lemma_batch_starts(rest, batches, i as nat);
                let start = batch_starts(rest, i as nat);
                let own = batch_plans(batches[i]);
                assert(own =~= plans.subrange(start, start + own.len()));
            } else {
                assert(last =~= plans.subrange(front.len() as int, plans.len() as int));
            }
        }
    }
}

proof fn lemma_batch_starts(a: Seq<ToolExecutionBatch>, b: Seq<ToolExecutionBatch>, n: nat)
    requires
        n <= a.len() <= b.len(),
        forall|i: int| 0 <= i < a.len() ==> #[trigger] a[i] == b[i],
    ensures
        batch_starts(a, n) == batch_starts(b, n),
    decreases n,
{
    if n > 0 {
        lemma_batch_starts(a, b, (n - 1) as nat);
        assert(a[n - 1] == b[n - 1]);
    }
}

/// There is one way only to divide the calls of a turn into batches.
pub proof fn law_batches_determined(
    a: Seq<ToolExecutionBatch>,
    b: Seq<ToolExecutionBatch>,
    plans: Seq<ToolExecutionPlan>,
)
    requires
        batches_of(a, plans),
        batches_of(b, plans),
    ensures
        a.len() == b.len(),
        forall|i: int|
            0 <= i < a.len() ==> batch_plans(#[trigger] a[i]) == batch_plans(b[i]) && (
            a[i] is Parallel <==> b[i] is Parallel),
    decreases a.len(),
{
    if plans.len() == 0 {
        assert(plans =~= Seq::empty());
        lemma_no_batches(a);
        lemma_no_batches(b);
    } else {
        lemma_last_plan(a, plans);
        lemma_last_plan(b, plans);
        let pa = batch_plans(a.last());
        let pb = batch_plans(b.last());
        lemma_not_shorter(a, b, plans);
        lemma_not_shorter(b, a, plans);
        law_batches_determined(a.drop_last(), b.drop_last(), flattened(a.drop_last()));
        assert forall|i: int| 0 <= i < a.len() implies batch_plans(#[trigger] a[i]) == batch_plans(
            b[i],
        ) && (a[i] is Parallel <==> b[i] is Parallel) by {
            if i < a.len() - 1 {
                assert(a[i] == a.drop_last()[i]);
                assert(b[i] == b.drop_last()[i]);
            }
        }
    }
}

proof fn lemma_no_batches(a: Seq<ToolExecutionBatch>)
    requires
        batches_of(a, Seq::empty()),
    ensures
        a.len() == 0,
{
    if a.len() > 0 {
        assert(good_batch(a[a.len() - 1]));
        assert(batch_plans(a.last()).len() > 0);
        assert(flattened(a) == flattened(a.drop_last()) + batch_plans(a.last()));
        assert(flattened(a).len() > 0);
    }
}

/// The last batch of one division is not shorter than that of another.
proof fn lemma_not_shorter(
    a: Seq<ToolExecutionBatch>,
    b: Seq<ToolExecutionBatch>,
    plans: Seq<ToolExecutionPlan>,
)
    requires
        batches_of(a, plans),
        batches_of(b, plans),
        plans.len() > 0,
    ensures
        batch_plans(a.last()).len() >= batch_plans(b.last()).len(),
{
    lemma_last_plan(a, plans);
    lemma_last_plan(b, plans);
    let pa = batch_plans(a.last());
    let pb = batch_plans(b.last());
    if pa.len() < pb.len() {
        let k = plans.len() - pa.len() - 1;
        let front = flattened(a.drop_last());
        assert(front.len() == plans.len() - pa.len());
        assert(front.last() == plans[k]);
        lemma_last_plan(a.drop_last(), front);
        match b.last() {
            ToolExecutionBatch::Parallel(v) => {
                let j = k - (plans.len() - pb.len());
                assert(v@ == plans.skip(plans.len() - pb.len()));
                assert(v@[j] == plans[k]);
                assert(good_batch(b[b.len() - 1]));
                assert(joinable(v@[j]));
            },
            ToolExecutionBatch::Serial(s) => {},
        }
        assert(a.drop_last().last() == a[a.len() - 2]);
        assert(a[a.len() - 1 - 1] is Parallel && a[a.len() - 1] is Parallel);
    }
}

// ---------------------------------------------------------------------------
// Approval stamps
// ---------------------------------------------------------------------------

/// How a call that needed consent came to run.
#[derive(Debug, Clone, Copy, PartialEq, Eq, Structural)]
pub enum ToolApprovalStamp {
    ApprovedByUser,
    ApprovedWithPolicy,
}

impl ToolApprovalStamp {
    /// The word for the decision.
    pub open spec fn decision_text(self) -> Seq<char> {
        match self {
            ToolApprovalStamp::ApprovedByUser => "approved_by_user"@,
            ToolApprovalStamp::ApprovedWithPolicy => "approved_with_policy"@,
        }
    }

    /// The note that the model reads in front of the output.
    pub open spec fn note_text(self) -> Seq<char> {
        match self {
            ToolApprovalStamp::ApprovedByUser =>
            "[approval] 此工具调用需要审批并已在执行前由用户批准。"@,
            ToolApprovalStamp::ApprovedWithPolicy =>
            "[approval] 此工具调用需要审批并已在执行前由用户使用调整后的执行策略批准。"@,
        }
    }

    /// The word for the decision.
    pub fn decision(self) -> (r: &'static str)
        ensures
            r@ == self.decision_text(),
    {
        match self {
            ToolApprovalStamp::ApprovedByUser => "approved_by_user",
            ToolApprovalStamp::ApprovedWithPolicy => "approved_with_policy",
        }
    }

    /// The note that the model reads in front of the output.
    pub fn model_visible_note(self) -> (r: &'static str)
        ensures
            r@ == self.note_text(),
    {
        match self {
            ToolApprovalStamp::ApprovedByUser =>
            "[approval] 此工具调用需要审批并已在执行前由用户批准。",
            ToolApprovalStamp::ApprovedWithPolicy =>
            "[approval] 此工具调用需要审批并已在执行前由用户使用调整后的执行策略批准。",
        }
    }
}

/// The members of an object after one of them was set: the first of that name
/// gets the value, or a member is added at the end.
pub open spec fn with_member(
    members: Seq<(Seq<char>, JsonView)>,
    key: Seq<char>,
    value: JsonView,
    from: int,
) -> Seq<(Seq<char>, JsonView)>
    decreases members.len() - from,
{
    if from < 0 || from >= members.len() {
        members.push((key, value))
    } else if members[from].0 == key {
        members.update(from, (key, value))
    } else {
        with_member(members, key, value, from + 1)
    }
}

/// What is remembered of an approval in a result's metadata.
pub open spec fn approval_record(approval: ToolApprovalStamp) -> JsonView {
    JsonView::Object(
        seq![
            ("decision"@, JsonView::Str(approval.decision_text())),
            ("model_visible"@, JsonView::Bool(true)),
            ("required"@, JsonView::Bool(true)),
        ],
    )
}

/// Metadata with the approval in it: metadata that is not an object is kept
/// under `_prior`.
pub open spec fn stamped_metadata(
    metadata: Option<JsonView>,
    approval: ToolApprovalStamp,
) -> JsonView {
    let record = approval_record(approval);
    match metadata {
        None => JsonView::Object(seq![("approval"@, record)]),
        Some(JsonView::Object(members)) => JsonView::Object(
            with_member(members, "approval"@, record, 0),
        ),
        Some(prior) => JsonView::Object(seq![("_prior"@, prior), ("approval"@, record)]),
    }
}

/// Output with the note in front of it, once.
pub open spec fn stamped_content(content: Seq<char>, approval: ToolApprovalStamp) -> Seq<char> {
    if begins_with(content, "[approval] "@) {
        content
    } else if content.len() == 0 {
        approval.note_text()
    } else {
        approval.note_text() + "\n\n"@ + content
    }
}

fn set_member(members: &mut Vec<(String, Json)>, key: &str, value: Json)
    ensures
        member_views(final(members)@) == with_member(
            member_views(old(members)@),
            key@,
            value@,
            0,
        ),
{
    let ghost views = member_views(members@);
    let mut i: usize = 0;
    proof {
        lemma_member_views(members@);
    }
    while i < members.len()
        invariant
            i <= members@.len(),
            members@ == old(members)@,
            views == member_views(members@),
            views.len() == members@.len(),
            forall|j: int|
                0 <= j < members@.len() ==> #[trigger] views[j] == (
                    members@[j].0@,
                    members@[j].1.view(),
                ),
            with_member(views, key@, value@, 0) == with_member(views, key@, value@, i as int),
        decreases members@.len() - i,
    {
        if same_text(members[i].0.as_str(), key) {
            let k = members[i].0.clone();
            members.set(i, (k, value));
            proof {
                lemma_member_views(members@);
                assert(member_views(members@) =~= views.update(i as int, (key@, value@)));
            }
            return ;
        }
        i += 1;
    }
    members.push((key.to_owned(), value));
    proof {
        lemma_member_views(members@);
        assert(member_views(members@) =~= views.push((key@, value@)));
    }
}

/// Notes in a result that its call was approved: in its metadata, and in front
/// of its output.
pub fn stamp_tool_result_approval(result: &mut ToolResult, approval: ToolApprovalStamp)
    ensures
        final(result)@ == (ToolResultView {
            content: stamped_content(old(result)@.content, approval),
            success: old(result)@.success,
            metadata: Some(stamped_metadata(old(result)@.metadata, approval)),
        }),
{
    let fields = vec![
        ("decision".to_owned(), Json::Str(approval.decision().to_owned())),
        ("model_visible".to_owned(), Json::Bool(true)),
        ("required".to_owned(), Json::Bool(true)),
    ];
    proof {
        lemma_member_views(fields@);
        assert(member_views(fields@) =~= seq![
            ("decision"@, JsonView::Str(approval.decision_text())),
            ("model_visible"@, JsonView::Bool(true)),
            ("required"@, JsonView::Bool(true)),
        ]);
    }
    let record = Json::Object(fields);
    let prior = result.metadata.take();
    let stamped = match prior {
        None => {
            let members = vec![("approval".to_owned(), record)];
            proof {
                lemma_member_views(members@);
                assert(member_views(members@) =~= seq![("approval"@, approval_record(approval))]);
            }
            Json::Object(members)
        },
        Some(Json::Object(m)) => {
            let mut members = m;
            set_member(&mut members, "approval", record);
            Json::Object(members)
        },
        Some(other) => {
            let members = vec![("_prior".to_owned(), other), ("approval".to_owned(), record)];
            proof {
                lemma_member_views(members@);
                assert(member_views(members@) =~= seq![
                    ("_prior"@, other@),
                    ("approval"@, approval_record(approval)),
                ]);
            }
            Json::Object(members)
        },
    };
    result.metadata = Some(stamped);
    if starts_with(result.content.as_str(), "[approval] ") {
        return ;
    }
    let note = approval.model_visible_note();
    if result.content.as_str().is_empty() {
        result.content = note.to_owned();
    } else {
        let mut content = note.to_owned();
        content.append("\n\n");
        content.append(result.content.as_str());
        result.content = content;
    }
}

/// An output is stamped once: a second stamp leaves it as it is.
pub proof fn law_stamp_once(content: Seq<char>, a: ToolApprovalStamp, b: ToolApprovalStamp)
    ensures
        stamped_content(stamped_content(content, a), b) == stamped_content(content, a),
{
    reveal_strlit("[approval] ");
    reveal_strlit("[approval] 此工具调用需要审批并已在执行前由用户批准。");
    reveal_strlit("[approval] 此工具调用需要审批并已在执行前由用户使用调整后的执行策略批准。");
    let s = stamped_content(content, a);
    if !begins_with(content, "[approval] "@) {
        let note = a.note_text();
        assert(note.subrange(0, 11) =~= "[approval] "@);
        assert(s.subrange(0, 11) =~= note.subrange(0, 11));
        assert(begins_with(s, "[approval] "@));
    }
}

// ---------------------------------------------------------------------------
// Callers
// ---------------------------------------------------------------------------

/// The kind of caller; the model itself is `direct`.
pub open spec fn caller_text(caller: Option<&ToolCaller>) -> Seq<char> {
    match caller {
        Some(c) => c.caller_type@,
        None => "direct"@,
    }
}

/// The kind of caller; the model itself is `direct`.
pub fn caller_type_for_tool_use<'a>(caller: Option<&'a ToolCaller>) -> (r: &'a str)
    ensures
        r@ == caller_text(caller),
{
    match caller {
        Some(c) => c.caller_type.as_str(),
        None => "direct",
    }
}

/// A caller may use a tool that lists its kind; where a tool lists none, or is
/// not known, only the model itself may.
pub open spec fn caller_allowed(requested: Seq<char>, allowed: Option<Seq<Seq<char>>>) -> bool {
    match allowed {
        Some(list) => if list.len() == 0 {
            requested == "direct"@
        } else {
            list.contains(requested)
        },
        None => requested == "direct"@,
    }
}

/// The kinds of caller that a tool lists.
pub open spec fn listed_callers(tool_def: Option<&Tool>) -> Option<Seq<Seq<char>>> {
    match tool_def {
        Some(def) => match def.allowed_callers {
            Some(list) => Some(texts(list@)),
            None => None,
        },
        None => None,
    }
}

/// Whether a caller may use a tool.
pub fn caller_allowed_for_tool(caller: Option<&ToolCaller>, tool_def: Option<&Tool>) -> (r: bool)
    ensures
        r == caller_allowed(caller_text(caller), listed_callers(tool_def)),
{
    let requested = caller_type_for_tool_use(caller);
    match tool_def {
        Some(def) => match &def.allowed_callers {
            Some(list) => {
                if list.len() == 0 {
                    return same_text(requested, "direct");
                }
                one_of(list, requested)
            },
            None => same_text(requested, "direct"),
        },
        None => same_text(requested, "direct"),
    }
}

// ---------------------------------------------------------------------------
// Failures in words
// ---------------------------------------------------------------------------

/// An ASCII letter or digit.
pub open spec fn is_word_char(c: char) -> bool {
    ||| 48 <= c as int <= 57
    ||| 65 <= c as int <= 90
    ||| 97 <= c as int <= 122
}

fn char_is_word(c: char) -> (r: bool)
    ensures
        r == is_word_char(c),
{
    let n = code_of(c);
    (48 <= n && n <= 57) || (65 <= n && n <= 90) || (97 <= n && n <= 122)
}

/// `word` stands in `s` at `i` with no letter or digit on either side.
pub open spec fn word_at(s: Seq<char>, word: Seq<char>, i: int) -> bool {
    &&& occurs_at(s, word, i)
    &&& (i == 0 || !is_word_char(s[i - 1]))
    &&& (i + word.len() == s.len() || !is_word_char(s[i + word.len()]))
}

/// `word` stands in `s` as a word.
pub open spec fn has_word(s: Seq<char>, word: Seq<char>) -> bool {
    exists|i: int| word_at(s, word, i)
}

fn holds_word(s: &Vec<char>, word: &Vec<char>) -> (r: bool)
    ensures
        r == has_word(s@, word@),
{
    if word.len() > s.len() {
        proof {
            assert forall|i: int| !word_at(s@, word@, i) by {}
        }
        return false;
    }
    let mut i: usize = 0;
    while i <= s.len() - word.len()
        invariant
            word@.len() <= s.len(),
            i <= s@.len() - word@.len() + 1,
            forall|j: int| 0 <= j < i ==> !word_at(s@, word@, j),
        decreases s@.len() + 1 - i,
    {
        if matches_at(s, word, i) && (i == 0 || !char_is_word(s[i - 1])) && (i + word.len()
            == s.len() || !char_is_word(s[i + word.len()])) {
            assert(word_at(s@, word@, i as int));
            return true;
        }
        if i == s.len() - word.len() {
            proof {
                assert forall|j: int| !word_at(s@, word@, j) by {
                    if word_at(s@, word@, j) {
                        assert(0 <= j <= i);
                    }
                }
            }
            return false;
        }
        i += 1;
    }
    false
}

/// The text speaks of a mode, or of modes.
pub open spec fn speaks_of_mode(lower: Seq<char>) -> bool {
    has_word(lower, "mode"@) || has_word(lower, "modes"@)
}

/// Whether a text speaks of a mode, or of modes.
pub fn mentions_mode_word(lower: &str) -> (r: bool)
    ensures
        r == speaks_of_mode(lower@),
{
    let s = chars_of(lower);
    let one = chars_of("mode");
    let many = chars_of("modes");
    holds_word(&s, &one) || holds_word(&s, &many)
}

/// What is said of an error before any advice.
pub open spec fn error_message(err: ToolErrorView, tool_name: Seq<char>) -> Seq<char> {
    match err {
        ToolErrorView::InvalidInput(message) => "工具 '"@ + tool_name + "' 的输入无效: "@ + message,
        ToolErrorView::MissingField(field) => "工具 '"@ + tool_name + "' 缺少必需字段 '"@ + field
            + "'"@,
        ToolErrorView::PathEscape(path) => "路径逃逸工作空间: "@ + path
            + "。请使用工作空间相对路径或启用信任模式。"@,
        ToolErrorView::ExecutionFailed(message) => message,
        ToolErrorView::Timeout(seconds) => "工具 '"@ + tool_name + "' 在 "@ + decimal(
            seconds as nat,
        ) + " 秒后超时。尝试更窄的范围或更长的超时时间。"@,
        ToolErrorView::NotAvailable(message) => {
            let lower = ascii_lower(message);
            if contains_text(lower, "current tool catalog"@) || contains_text(
                lower,
                "did you mean:"@,
            ) || speaks_of_mode(lower) || contains_text(lower, "allow_shell"@) || contains_text(
                lower,
                "feature flag"@,
            ) {
                message
            } else {
                "工具 '"@ + tool_name + "' 不可用: "@ + message
                    + "。检查模式、特性标志或工具名称。"@
            }
        },
        ToolErrorView::PermissionDenied(message) => {
            let lower = ascii_lower(message);
            if speaks_of_mode(lower) || contains_text(lower, "allow_shell"@) || contains_text(
                lower,
                "denied by user"@,
            ) {
                message
            } else {
                "工具 '"@ + tool_name + "' 被拒绝: "@ + message
                    + "。调整审批模式或请求权限。"@
            }
        },
    }
}

/// The message already advises what to do.
pub open spec fn has_advice(message: Seq<char>) -> bool {
    contains_text(ascii_lower(message), "recovery:"@) || contains_text(
        ascii_lower(message),
        "fallback:"@,
    )
}

/// Words that mark a failure as one that may pass.
pub open spec fn transient_words() -> Seq<Seq<char>> {
    seq![
        "timeout"@,
        "timed out"@,
        "request failed"@,
        "connection"@,
        "network"@,
        "http 429"@,
        "rate limit"@,
        "http 5"@,
        "anti-bot"@,
        "captcha"@,
    ]
}

/// A failure that may pass: a timeout, or a failed run whose message says so.
pub open spec fn is_transient(err: ToolErrorView, message: Seq<char>) -> bool {
    match err {
        ToolErrorView::Timeout(_) => true,
        ToolErrorView::ExecutionFailed(_) => contains_any_text(
            ascii_lower(message),
            transient_words(),
        ),
        _ => false,
    }
}

/// The advice for a tool whose failure may pass.
pub open spec fn advice_for(tool_name: Seq<char>) -> Seq<char> {
    let lower = ascii_lower(tool_name);
    if contains_text(lower, "web_search"@) || contains_text(lower, "web_run"@) || lower
        == "web.run"@ {
        "重试一次后，切换到直接的 URL/open/fetch 路径或缓存上下文，而不是重复相同的搜索。"@
    } else if contains_text(lower, "fetch_url"@) {
        "重试一次后，尝试更窄的 URL/来源、使用搜索结果或缓存上下文，或说明访问限制，而不是重复相同的请求。"@
    } else if contains_text(lower, "file_search"@) || contains_text(lower, "grep"@) {
        "重试一次后，缩小查询/路径或直接检查可能文件，而不是不变地重复相同的搜索。"@
    } else if contains_text(lower, "exec_shell"@) || contains_text(lower, "run_tests"@)
        || contains_text(lower, "run_verifiers"@) {
        "重试一次后，缩小命令/范围、仅为预期长时间运行增加超时，或切换到文件级别证据。"@
    } else if contains_text(lower, "agent"@) {
        "重试一次后，减少委派范围或在父上下文继续，而不是重复生成相同代理。"@
    } else {
        "重试一次后，选择不同工具或更窄策略，而不是不变地重复相同调用。"@
    }
}

/// What the model is told when a tool fails.
pub open spec fn tool_error_text(err: ToolErrorView, tool_name: Seq<char>) -> Seq<char> {
    let message = error_message(err, tool_name);
    if has_advice(message) || !is_transient(err, message) {
        message
    } else {
        message + " 回退方案: "@ + advice_for(tool_name)
    }
}

/// Whether a message already advises what to do.
pub fn message_already_has_recovery_hint(message: &str) -> (r: bool)
    ensures
        r == has_advice(message@),
{
    let lower = to_ascii_lowercase(message);
    contains(lower.as_str(), "recovery:") || contains(lower.as_str(), "fallback:")
}

/// Whether a failure may pass.
pub fn is_transient_tool_failure(err: &ToolError, formatted_message: &str) -> (r: bool)
    ensures
        r == is_transient(err@, formatted_message@),
{
    match err {
        ToolError::Timeout { .. } => true,
        ToolError::ExecutionFailed { .. } => {
            let lower = to_ascii_lowercase(formatted_message);
            let words: Vec<&'static str> =
                vec![
                "timeout",
                "timed out",
                "request failed",
                "connection",
                "network",
                "http 429",
                "rate limit",
                "http 5",
                "anti-bot",
                "captcha",
            ];
            proof {
                assert(consts(words@) =~= transient_words());
            }
            contains_any(lower.as_str(), &words)
        },
        _ => false,
    }
}

/// The advice for a failure that may pass; none for one that will not.
pub fn transient_tool_fallback_hint(
    err: &ToolError,
    tool_name: &str,
    formatted_message: &str,
) -> (r: Option<&'static str>)
    ensures
        match r {
            Some(hint) => is_transient(err@, formatted_message@) && hint@ == advice_for(tool_name@),
            None => !is_transient(err@, formatted_message@),
        },
{
    if !is_transient_tool_failure(err, formatted_message) {
        return None;
    }
    let lower_tool = to_ascii_lowercase(tool_name);
    let t = lower_tool.as_str();
    if contains(t, "web_search") || contains(t, "web_run") || same_text(t, "web.run") {
        return Some(
            "重试一次后，切换到直接的 URL/open/fetch 路径或缓存上下文，而不是重复相同的搜索。",
        );
    }
    if contains(t, "fetch_url") {
        return Some(
            "重试一次后，尝试更窄的 URL/来源、使用搜索结果或缓存上下文，或说明访问限制，而不是重复相同的请求。",
        );
    }
    if contains(t, "file_search") || contains(t, "grep") {
        return Some(
            "重试一次后，缩小查询/路径或直接检查可能文件，而不是不变地重复相同的搜索。",
        );
    }
    if contains(t, "exec_shell") || contains(t, "run_tests") || contains(t, "run_verifiers") {
        return Some(
            "重试一次后，缩小命令/范围、仅为预期长时间运行增加超时，或切换到文件级别证据。",
        );
    }
    if contains(t, "agent") {
        return Some(
            "重试一次后，减少委派范围或在父上下文继续，而不是重复生成相同代理。",
        );
    }
    Some("重试一次后，选择不同工具或更窄策略，而不是不变地重复相同调用。")
}

/// A message with advice behind it, where the failure may pass and nothing was
/// advised yet.
pub fn with_transient_tool_fallback_hint(message: String, err: &ToolError, tool_name: &str) -> (r:
    String)
    ensures
        r@ == if has_advice(message@) || !is_transient(err@, message@) {
            message@
        } else {
            message@ + " 回退方案: "@ + advice_for(tool_name@)
        },
{
    if message_already_has_recovery_hint(message.as_str()) {
        return message;
    }
    match transient_tool_fallback_hint(err, tool_name, message.as_str()) {
        None => message,
        Some(hint) => {
            let mut out = message;
            out.append(" 回退方案: ");
            out.append(hint);
            out
        },
    }
}

/// What the model is told when a tool fails.
pub fn format_tool_error(err: &ToolError, tool_name: &str) -> (r: String)
    ensures
        r@ == tool_error_text(err@, tool_name@),
{
    let message = match err {
        ToolError::InvalidInput { message } => {
            let mut out = concat("工具 '", tool_name);
            out.append("' 的输入无效: ");
            out.append(message.as_str());
            out
        },
        ToolError::MissingField { field } => {
            let mut out = concat("工具 '", tool_name);
            out.append("' 缺少必需字段 '");
            out.append(field.as_str());
            out.append("'");
            out
        },
        ToolError::PathEscape { path } => {
            let mut out = concat("路径逃逸工作空间: ", path.as_str());
            out.append("。请使用工作空间相对路径或启用信任模式。");
            out
        },
        ToolError::ExecutionFailed { message } => message.clone(),
        ToolError::Timeout { seconds } => {
            let mut out = concat("工具 '", tool_name);
            out.append("' 在 ");
            push_decimal(&mut out, *seconds);
            out.append(" 秒后超时。尝试更窄的范围或更长的超时时间。");
            out
        },
        ToolError::NotAvailable { message } => {
            let lower = to_ascii_lowercase(message.as_str());
            let l = lower.as_str();
            if contains(l, "current tool catalog") || contains(l, "did you mean:")
                || mentions_mode_word(l) || contains(l, "allow_shell") || contains(
                l,
                "feature flag",
            ) {
                message.clone()
            } else {
                let mut out = concat("工具 '", tool_name);
                out.append("' 不可用: ");
                out.append(message.as_str());
                out.append("。检查模式、特性标志或工具名称。");
                out
            }
        },
        ToolError::PermissionDenied { message } => {
            let lower = to_ascii_lowercase(message.as_str());
            let l = lower.as_str();
            if mentions_mode_word(l) || contains(l, "allow_shell") || contains(
                l,
                "denied by user",
            ) {
                message.clone()
            } else {
                let mut out = concat("工具 '", tool_name);
                out.append("' 被拒绝: ");
                out.append(message.as_str());
                out.append("。调整审批模式或请求权限。");
                out
            }
        },
    };
    with_transient_tool_fallback_hint(message, err, tool_name)
}

// ---------------------------------------------------------------------------
// Arguments
// ---------------------------------------------------------------------------

/// The lines of a text that open or close no code fence.
pub open spec fn unfenced(lines: Seq<Seq<char>>) -> Seq<Seq<char>> {
    lines.filter(|l: Seq<char>| !begins_with(trim_front(l), "```"@))
}

/// A text without its code fences, where it has any and something is left.
pub open spec fn without_fences(text: Seq<char>) -> Option<Seq<char>> {
    if !contains_text(text, "```"@) {
        None
    } else {
        let body = trimmed(joined(unfenced(lines_of(text)), "\n"@));
        if body.len() == 0 {
            None
        } else {
            Some(body)
        }
    }
}

/// A text without its code fences, where it has any and something is left.
pub fn strip_code_fences(text: &str) -> (r: Option<String>)
    ensures
        opt_text(r) == without_fences(text@),
{
    if !contains(text, "```") {
        return None;
    }
    let lines = split_lines(text);
    let ghost all = texts(lines@);
    let ghost keep = |l: Seq<char>| !begins_with(trim_front(l), "```"@);
    let mut kept: Vec<String> = Vec::new();
    let mut i: usize = 0;
    proof {
        reveal(Seq::filter);
        assert(all.take(0) =~= Seq::empty());
        assert(texts(kept@) =~= all.take(0).filter(keep));
    }
    while i < lines.len()
        invariant
            i <= lines@.len(),
            all == texts(lines@),
            keep == (|l: Seq<char>| !begins_with(trim_front(l), "```"@)),
            texts(kept@) == all.take(i as int).filter(keep),
        decreases lines@.len() - i,
    {
        proof {
            reveal(Seq::filter);
            assert(all.take(i + 1).drop_last() =~= all.take(i as int));
            assert(all.take(i + 1).last() == lines@[i as int]@);
        }
        let body = trim_start(lines[i].as_str());
        if !starts_with(body.as_str(), "```") {
            push_line(&mut kept, lines[i].clone());
        }
        i += 1;
    }
    proof {
        assert(all.take(all.len() as int) =~= all);
    }
    let whole = join(&kept, "\n");
    let body = trim(whole.as_str());
    if body.as_str().is_empty() {
        None
    } else {
        Some(body)
    }
}

/// Where the bracket that is open `depth` deep at position `i` is closed: one
/// past its closing character.
pub open spec fn balanced_end(s: Seq<char>, i: int, depth: int, open: char, close: char) -> Option<
    int,
>
    decreases s.len() - i,
{
    if i < 0 || i >= s.len() {
        None
    } else if s[i] == open {
        balanced_end(s, i + 1, depth + 1, open, close)
    } else if s[i] == close {
        if depth == 1 {
            Some(i + 1)
        } else {
            balanced_end(s, i + 1, depth - 1, open, close)
        }
    } else {
        balanced_end(s, i + 1, depth, open, close)
    }
}

/// The first bracketed part of a text, from its opening character to the one
/// that closes it.
pub open spec fn balanced_segment(s: Seq<char>, open: char, close: char) -> Option<Seq<char>> {
    match find_from(s, seq![open], 0) {
        None => None,
        Some(start) => match balanced_end(s, start, 0, open, close) {
            None => None,
            Some(end) => Some(s.subrange(start, end)),
        },
    }
}

proof fn lemma_balanced_end(s: Seq<char>, i: int, depth: int, open: char, close: char)
    requires
        0 <= i,
    ensures
        balanced_end(s, i, depth, open, close) matches Some(e) ==> i < e <= s.len() && s[e - 1]
            == close,
        open == close ==> balanced_end(s, i, depth, open, close) is None,
    decreases s.len() - i,
{
    if i < s.len() {
        if s[i] == open {
            lemma_balanced_end(s, i + 1, depth + 1, open, close);
        } else if s[i] == close {
            if depth != 1 {
                lemma_balanced_end(s, i + 1, depth - 1, open, close);
            }
        } else {
            lemma_balanced_end(s, i + 1, depth, open, close);
        }
    }
}

/// The first bracketed part of a text.
pub fn extract_balanced_segment(text: &str, open: char, close: char) -> (r: Option<String>)
    ensures
        opt_text(r) == balanced_segment(text@, open, close),
{
    let s = chars_of(text);
    let pat: Vec<char> = vec![open];
    proof {
        assert(pat@ =~= seq![open]);
        lemma_find_from(s@, seq![open], 0);
    }
    let start = match find_chars(&s, &pat, 0) {
        Some(i) => i,
        None => return None,
    };
    let mut depth: usize = 0;
    let mut i: usize = start;
    proof {
        assert(s@.subrange(start as int, start + 1)[0] == open);
        assert(s@[start as int] == open);
    }
    while i < s.len()
        invariant
            start < s@.len(),
            s@[start as int] == open,
            start <= i <= s@.len(),
            depth <= i - start,
            i > start ==> depth >= 1,
            balanced_end(s@, start as int, 0, open, close) == balanced_end(
                s@,
                i as int,
                depth as int,
                open,
                close,
            ),
            find_from(s@, seq![open], 0) == Some(start as int),
            s@ == text@,
        decreases s@.len() - i,
    {
        if s[i] == open {
            depth += 1;
        } else if s[i] == close {
            if depth == 1 {
                return Some(text_of(&s, start, i + 1));
            }
            depth -= 1;
        }
        i += 1;
    }
    None
}

/// How often `c` stands in `s`.
pub open spec fn occurrences(s: Seq<char>, c: char) -> int
    decreases s.len(),
{
    if s.len() == 0 {
        0
    } else {
        occurrences(s.drop_last(), c) + if s.last() == c {
            1int
        } else {
            0
        }
    }
}

proof fn lemma_balanced_counts(
    s: Seq<char>,
    start: int,
    i: int,
    depth: int,
    open: char,
    close: char,
)
    requires
        0 <= start <= i <= s.len(),
        open != close ==> occurrences(s.subrange(start, i), open) - occurrences(
            s.subrange(start, i),
            close,
        ) == depth,
    ensures
        balanced_end(s, i, depth, open, close) matches Some(e) ==> occurrences(
            s.subrange(start, e),
            open,
        ) == occurrences(s.subrange(start, e), close),
    decreases s.len() - i,
{
    if i < s.len() {
        assert(s.subrange(start, i + 1).drop_last() =~= s.subrange(start, i));
        assert(s.subrange(start, i + 1).last() == s[i]);
        if s[i] == open {
            lemma_balanced_counts(s, start, i + 1, depth + 1, open, close);
        } else if s[i] == close {
            if depth != 1 {
                lemma_balanced_counts(s, start, i + 1, depth - 1, open, close);
            }
        } else {
            lemma_balanced_counts(s, start, i + 1, depth, open, close);
        }
    }
}

/// A bracketed part is a part of the text, begins and ends with its brackets,
/// and opens as many as it closes.
pub proof fn law_segment_balanced(s: Seq<char>, open: char, close: char)
    ensures
        balanced_segment(s, open, close) matches Some(part) ==> {
            &&& contains_text(s, part)
            &&& part.len() >= 2
            &&& part[0] == open
            &&& part.last() == close
            &&& occurrences(part, open) == occurrences(part, close)
        },
{
    lemma_find_from(s, seq![open], 0);
    if let Some(start) = find_from(s, seq![open], 0) {
        assert(s.subrange(start, start + 1)[0] == open);
        lemma_balanced_end(s, start, 0, open, close);
        assert(s.subrange(start, start) =~= Seq::empty());
        lemma_balanced_counts(s, start, start, 0, open, close);
        if let Some(end) = balanced_end(s, start, 0, open, close) {
            let part = s.subrange(start, end);
            assert(occurs_at(s, part, start));
            assert(part[0] == s[start]);
            assert(part.last() == s[end - 1]);
        }
    }
}

/// The first part in braces, or the first in square brackets.
pub open spec fn json_segment(text: Seq<char>) -> Option<Seq<char>> {
    first_some(balanced_segment(text, '{', '}'), balanced_segment(text, '[', ']'))
}

/// The first part in braces, or the first in square brackets.
pub fn extract_json_segment(text: &str) -> (r: Option<String>)
    ensures
        opt_text(r) == json_segment(text@),
{
    match extract_balanced_segment(text, '{', '}') {
        Some(s) => Some(s),
        None => extract_balanced_segment(text, '[', ']'),
    }
}

/// What an optional text denotes as JSON.
pub open spec fn json_of_opt(text: Option<Seq<char>>) -> Option<JsonView> {
    match text {
        Some(t) => json_of_text(t),
        None => None,
    }
}

/// What a JSON string denotes when its content is JSON in turn.
pub open spec fn json_inside_string(outer: Option<JsonView>) -> Option<JsonView> {
    match outer {
        Some(JsonView::Str(inner)) => json_of_text(inner),
        _ => None,
    }
}

/// The arguments in a model's text: as repaired, else without code fences, else
/// as JSON in a JSON string, else the first bracketed part. `repaired` is what
/// repairing the trimmed text gave.
pub open spec fn tool_input_of(buffer: Seq<char>, repaired: Option<JsonView>) -> Option<JsonView> {
    let t = trimmed(buffer);
    if t.len() == 0 {
        None
    } else {
        first_some(
            repaired,
            first_some(
                json_of_opt(without_fences(t)),
                first_some(json_inside_string(json_of_text(t)), json_of_opt(json_segment(t))),
            ),
        )
    }
}

fn parse_opt(text: Option<String>) -> (r: Option<Json>)
    ensures
        opt_json(r) == json_of_opt(opt_text(text)),
{
    match text {
        Some(t) => parse_json(t.as_str()),
        None => None,
    }
}

/// The arguments in a model's text. `repaired` is what repairing the trimmed
/// text gave, if it gave anything.
pub fn parse_tool_input(buffer: &str, repaired: Option<Json>) -> (r: Option<Json>)
    ensures
        opt_json(r) == tool_input_of(buffer@, opt_json(repaired)),
{
    let t = trim(buffer);
    if t.as_str().is_empty() {
        return None;
    }
    if repaired.is_some() {
        return repaired;
    }
    if let Some(v) = parse_opt(strip_code_fences(t.as_str())) {
        return Some(v);
    }
    if let Some(Json::Str(inner)) = parse_json(t.as_str()) {
        if let Some(v) = parse_json(inner.as_str()) {
            return Some(v);
        }
    }
    parse_opt(extract_json_segment(t.as_str()))
}

/// The input that stands for arguments that could not be read.
pub fn malformed_tool_arguments_input(buffer: &str) -> (r: Json)
    ensures
        r@ == JsonView::Object(seq![("raw_arguments"@, JsonView::Str(buffer@))]),
{
    let members = vec![("raw_arguments".to_owned(), Json::Str(buffer.to_owned()))];
    proof {
        lemma_member_views(members@);
        assert(member_views(members@) =~= seq![("raw_arguments"@, JsonView::Str(buffer@))]);
    }
    Json::Object(members)
}

/// The text as Rust's debug notation writes it, in quotes and with escapes.
pub uninterp spec fn debug_text(s: Seq<char>) -> Seq<char>;

/// `{:?}` on `str`: the text in quotes and with escapes, a function of the text
/// alone.
#[verifier::external_body]
fn debug_notation(s: &str) -> (r: String)
    ensures
        r@ == debug_text(s@),
{
    format!("{s:?}")
}

/// What is said of arguments that could not be read.
pub fn malformed_tool_arguments_error(buffer: &str) -> (r: String)
    ensures
        r@ == "模型的工具参数格式错误：预期有效 JSON，收到 "@ + debug_text(buffer@),
{
    let quoted = debug_notation(buffer);
    concat("模型的工具参数格式错误：预期有效 JSON，收到 ", quoted.as_str())
}

/// A tool call while its arguments stream in.
#[derive(Debug)]
pub struct ToolUseState {
    pub id: String,
    pub name: String,
    pub input: Json,
    pub caller: Option<ToolCaller>,
    pub input_buffer: String,
    pub input_parse_error: Option<String>,
}

/// The input a call runs with: what its buffer holds, or the input it started
/// with; arguments known to be malformed are handed on as they came.
pub open spec fn input_of_state(
    buffer: Seq<char>,
    malformed: bool,
    initial: JsonView,
    repaired: Option<JsonView>,
) -> JsonView {
    if malformed {
        JsonView::Object(seq![("raw_arguments"@, JsonView::Str(buffer))])
    } else {
        match tool_input_of(buffer, repaired) {
            Some(v) => v,
            None => initial,
        }
    }
}

/// The input a call runs with. `repaired` is what repairing the trimmed buffer
/// gave.
pub fn final_tool_input(state: &ToolUseState, repaired: Option<Json>) -> (r: Json)
    ensures
        r@ == input_of_state(
            state.input_buffer@,
            state.input_parse_error is Some,
            state.input@,
            opt_json(repaired),
        ),
{
    if state.input_parse_error.is_some() {
        return malformed_tool_arguments_input(state.input_buffer.as_str());
    }
    match parse_tool_input(state.input_buffer.as_str(), repaired) {
        Some(v) => v,
        None => state.input.clone(),
    }
}

// ---------------------------------------------------------------------------
// Several calls in one
// ---------------------------------------------------------------------------

/// The name of a tool without the prefix that some models put before it.
pub open spec fn plain_tool_name(raw: Seq<char>) -> Seq<char> {
    let t = trimmed(raw);
    match without_prefix(t, "functions."@) {
        Some(rest) => rest,
        None => match without_prefix(t, "tools."@) {
            Some(rest) => rest,
            None => match without_prefix(t, "tool."@) {
                Some(rest) => rest,
                None => t,
            },
        },
    }
}

/// The name of a tool without the prefix that some models put before it.
pub fn normalize_parallel_tool_name(raw: &str) -> (r: String)
    ensures
        r@ == plain_tool_name(raw@),
{
    let t = trim(raw);
    if let Some(rest) = strip_prefix(t.as_str(), "functions.") {
        return rest;
    }
    if let Some(rest) = strip_prefix(t.as_str(), "tools.") {
        return rest;
    }
    if let Some(rest) = strip_prefix(t.as_str(), "tool.") {
        return rest;
    }
    t
}

/// The member that names the tool of a call.
pub open spec fn call_name(item: JsonView) -> Option<Seq<char>> {
    match first_some(
        item.field("recipient_name"@),
        first_some(
            item.field("tool_name"@),
            first_some(item.field("name"@), item.field("tool"@)),
        ),
    ) {
        Some(v) => v.text(),
        None => None,
    }
}

/// The arguments of a call: an empty object where none are given.
pub open spec fn call_params(item: JsonView) -> JsonView {
    match first_some(
        item.field("parameters"@),
        first_some(
            item.field("input"@),
            first_some(item.field("args"@), item.field("arguments"@)),
        ),
    ) {
        Some(v) => v,
        None => JsonView::Object(Seq::empty()),
    }
}

/// The calls in a list of items, or the error at the first item without a name.
pub open spec fn parallel_calls(items: Seq<JsonView>, n: nat) -> Result<
    Seq<(Seq<char>, JsonView)>,
    ToolErrorView,
>
    decreases n,
{
    if n == 0 {
        Ok(Seq::empty())
    } else {
        match parallel_calls(items, (n - 1) as nat) {
            Err(e) => Err(e),
            Ok(calls) => match call_name(items[n - 1]) {
                None => Err(ToolErrorView::MissingField("recipient_name"@)),
                Some(name) => Ok(
                    calls.push((plain_tool_name(name), call_params(items[n - 1]))),
                ),
            },
        }
    }
}

/// The calls that one parallel call bundles.
pub open spec fn bundled_calls(input: JsonView) -> Result<
    Seq<(Seq<char>, JsonView)>,
    ToolErrorView,
> {
    match input.items_field("tool_uses"@) {
        None => Err(ToolErrorView::MissingField("tool_uses"@)),
        Some(items) => if items.len() == 0 {
            Err(
                ToolErrorView::InvalidInput("multi_tool_use.parallel 需要至少一个工具调用"@),
            )
        } else {
            parallel_calls(items, items.len())
        },
    }
}

/// The views of a list of calls.
pub open spec fn call_views(calls: Seq<(String, Json)>) -> Seq<(Seq<char>, JsonView)> {
    calls.map_values(|c: (String, Json)| (c.0@, c.1@))
}

/// An error at one item is the error of the list.
proof fn lemma_parallel_error(items: Seq<JsonView>, i: nat, n: nat)
    requires
        i <= n,
        parallel_calls(items, i) is Err,
    ensures
        parallel_calls(items, n) == parallel_calls(items, i),
    decreases n - i,
{
    if i < n {
        lemma_parallel_error(items, i, (n - 1) as nat);
    }
}

fn first_member<'a>(item: &'a Json, a: &str, b: &str, c: &str, d: &str) -> (r: Option<&'a Json>)
    ensures
        match r {
            Some(v) => Some(v@),
            None => None,
        } == first_some(
            item@.field(a@),
            first_some(item@.field(b@), first_some(item@.field(c@), item@.field(d@))),
        ),
{
    if let Some(v) = item.get(a) {
        return Some(v);
    }
    if let Some(v) = item.get(b) {
        return Some(v);
    }
    if let Some(v) = item.get(c) {
        return Some(v);
    }
    item.get(d)
}

/// The calls that one parallel call bundles, or why it bundles none.
pub fn parse_parallel_tool_calls(input: &Json) -> (r: Result<Vec<(String, Json)>, ToolError>)
    ensures
        match r {
            Ok(calls) => bundled_calls(input@) == Ok::<_, ToolErrorView>(call_views(calls@)),
            Err(e) => bundled_calls(input@) == Err::<Seq<(Seq<char>, JsonView)>, _>(e@),
        },
{
    let items = match input.get_array("tool_uses") {
        Some(v) => v,
        None => return Err(ToolError::MissingField { field: "tool_uses".to_owned() }),
    };
    proof {
        lemma_json_views(items@);
    }
    if items.len() == 0 {
        return Err(
            ToolError::InvalidInput {
                message: "multi_tool_use.parallel 需要至少一个工具调用".to_owned(),
            },
        );
    }
    let ghost all = json_views(items@);
    let mut calls: Vec<(String, Json)> = Vec::new();
    let mut i: usize = 0;
    proof {
        assert(call_views(calls@) =~= Seq::empty());
    }
    while i < items.len()
        invariant
            i <= items@.len(),
            all == json_views(items@),
            all.len() == items@.len(),
            all.len() > 0,
            input@.items_field("tool_uses"@) == Some(all),
            forall|j: int| 0 <= j < items@.len() ==> #[trigger] all[j] == items@[j].view(),
            parallel_calls(all, i as nat) == Ok::<_, ToolErrorView>(call_views(calls@)),
        decreases items@.len() - i,
    {
        let item = &items[i];
        assert(all[i as int] == item@);
        let named = first_member(item, "recipient_name", "tool_name", "name", "tool");
        let name = match named {
            Some(v) => v.as_str(),
            None => None,
        };
        let raw = match name {
            Some(s) => s,
            None => {
                proof {
                    lemma_parallel_error(all, (i + 1) as nat, all.len());
                }
                return Err(ToolError::MissingField { field: "recipient_name".to_owned() });
            },
        };
        let params = match first_member(item, "parameters", "input", "args", "arguments") {
            Some(v) => v.clone(),
            None => {
                let empty: Vec<(String, Json)> = Vec::new();
                Json::Object(empty)
            },
        };
        let plain = normalize_parallel_tool_name(raw);
        let ghost before = call_views(calls@);
        let ghost pair = (plain@, params@);
        calls.push((plain, params));
        proof {
            assert(call_views(calls@) =~= before.push(pair));
        }
        i += 1;
    }
    Ok(calls)
}

// ---------------------------------------------------------------------------
// Plan mode and remote tools
// ---------------------------------------------------------------------------

/// In plan mode a turn ends once the plan was updated.
pub fn should_stop_after_plan_tool(mode: AppMode, tool_name: &str, succeeded: bool) -> (r: bool)
    ensures
        r == (mode == AppMode::Plan && tool_name@ == "update_plan"@ && succeeded),
{
    mode == AppMode::Plan && same_text(tool_name, "update_plan") && succeeded
}

/// Words by which a user asks for a plan at once.
pub open spec fn direct_plan_words() -> Seq<Seq<char>> {
    seq![
        "quick plan"@,
        "short plan"@,
        "simple plan"@,
        "3-step plan"@,
        "3 step plan"@,
        "three-step plan"@,
        "three step plan"@,
        "high-level plan"@,
        "high level plan"@,
    ]
}

/// Words by which a user asks that the project be looked at first.
pub open spec fn exploration_words() -> Seq<Seq<char>> {
    seq![
        "inspect the repo"@,
        "inspect the code"@,
        "explore the repo"@,
        "search the repo"@,
        "read the code"@,
        "review the code"@,
        "analyze the code"@,
        "investigate"@,
        "figure out"@,
        "figuring out"@,
        "look through"@,
        "understand the current"@,
        "current state"@,
        "ground it in the codebase"@,
        "based on the codebase"@,
        "repo"@,
        "codebase"@,
        "version"@,
        "ver "@,
        "release"@,
        "build"@,
        "benchmark"@,
        "api server"@,
        "github.com"@,
        "http://"@,
        "https://"@,
    ]
}

/// In plan mode the plan is written first where the user asks for a plan at
/// once and does not ask that the project be looked at.
pub fn should_force_update_plan_first(mode: AppMode, content: &str) -> (r: bool)
    ensures
        r == (mode == AppMode::Plan && contains_any_text(ascii_lower(content@), direct_plan_words())
            && !contains_any_text(ascii_lower(content@), exploration_words())),
{
    if mode != AppMode::Plan {
        return false;
    }
    let lower = to_ascii_lowercase(content);
    let plan_words: Vec<&'static str> =
        vec![
        "quick plan",
        "short plan",
        "simple plan",
        "3-step plan",
        "3 step plan",
        "three-step plan",
        "three step plan",
        "high-level plan",
        "high level plan",
    ];
    proof {
        assert(consts(plan_words@) =~= direct_plan_words());
    }
    if !contains_any(lower.as_str(), &plan_words) {
        return false;
    }
    let look_words: Vec<&'static str> =
        vec![
        "inspect the repo",
        "inspect the code",
        "explore the repo",
        "search the repo",
        "read the code",
        "review the code",
        "analyze the code",
        "investigate",
        "figure out",
        "figuring out",
        "look through",
        "understand the current",
        "current state",
        "ground it in the codebase",
        "based on the codebase",
        "repo",
        "codebase",
        "version",
        "ver ",
        "release",
        "build",
        "benchmark",
        "api server",
        "github.com",
        "http://",
        "https://",
    ];
    proof {
        assert(consts(look_words@) =~= exploration_words());
    }
    !contains_any(lower.as_str(), &look_words)
}

/// The tools of remote servers that only read.
pub open spec fn is_reading_mcp_tool(name: Seq<char>) -> bool {
    ||| name == "list_mcp_resources"@
    ||| name == "list_mcp_resource_templates"@
    ||| name == "mcp_read_resource"@
    ||| name == "read_mcp_resource"@
    ||| name == "mcp_get_prompt"@
}

/// Whether a tool of a remote server may run together with others.
pub fn mcp_tool_is_parallel_safe(name: &str) -> (r: bool)
    ensures
        r == is_reading_mcp_tool(name@),
{
    mcp_tool_is_read_only(name)
}

/// Whether a tool of a remote server only reads.
pub fn mcp_tool_is_read_only(name: &str) -> (r: bool)
    ensures
        r == is_reading_mcp_tool(name@),
{
    same_text(name, "list_mcp_resources") || same_text(name, "list_mcp_resource_templates")
        || same_text(name, "mcp_read_resource") || same_text(name, "read_mcp_resource")
        || same_text(name, "mcp_get_prompt")
}

/// What the user is asked to approve when a tool of a remote server is called.
pub fn mcp_tool_approval_description(name: &str) -> (r: String)
    ensures
        r@ == if is_reading_mcp_tool(name@) {
            "只读 MCP 工具 '"@ + name@ + "'"@
        } else {
            "MCP 工具 '"@ + name@ + "' 可能有副作用"@
        },
{
    if mcp_tool_is_read_only(name) {
        let mut out = concat("只读 MCP 工具 '", name);
        out.append("'");
        out
    } else {
        let mut out = concat("MCP 工具 '", name);
        out.append("' 可能有副作用");
        out
    }
}

} // verus!
