//! How the calls of a model are read, and what comes back of them.

use crate::dispatch::{
    advice_for, balanced_end, balanced_segment, bundled_calls, call_name, call_params,
    caller_allowed, error_message, has_advice, has_word, input_of_state, is_transient, is_word_char,
    json_segment, parallel_calls, plain_tool_name, stamped_content, stamped_metadata,
    tool_error_text, tool_input_of, unfenced, with_member, without_fences, word_at,
    ToolApprovalStamp,
};
use crate::json::{law_single_members_are_read, JsonView};
use crate::laws::results::{lemma_holds_between, lemma_holds_within};
use crate::laws::search::holds;
use crate::laws::texts::lemma_first_mark;
use crate::models::ToolErrorView;
use crate::text::{
    begins_with, contains_text, occurs_at, trim_front, trimmed,
    without_prefix,
};
use vstd::prelude::*;

verus! {

// ---------------------------------------------------------------------------
// Consent
// ---------------------------------------------------------------------------

/// The output of a call that was approved ends with what the call gave, and begins
/// with a note, which is put there once; which note tells how it was approved.
pub proof fn law_notes_stand_before_outputs(content: Seq<char>, approval: ToolApprovalStamp)
    ensures
        content.is_suffix_of(stamped_content(content, approval)),
        begins_with(stamped_content(content, approval), "[approval] "@),
        !begins_with(content, "[approval] "@) ==> approval.note_text().is_prefix_of(
            stamped_content(content, approval),
        ),
        begins_with(content, "[approval] "@) ==> stamped_content(content, approval) == content,
        ToolApprovalStamp::ApprovedByUser.note_text()
            != ToolApprovalStamp::ApprovedWithPolicy.note_text(),
        ToolApprovalStamp::ApprovedByUser.decision_text()
            != ToolApprovalStamp::ApprovedWithPolicy.decision_text(),
{
    let told = stamped_content(content, approval);
    let note = approval.note_text();
    assert(told.skip(told.len() - content.len()) =~= content);
    reveal_strlit("[approval] ");
    reveal_strlit("[approval] 此工具调用需要审批并已在执行前由用户批准。");
    reveal_strlit("[approval] 此工具调用需要审批并已在执行前由用户使用调整后的执行策略批准。");
    assert(note.subrange(0, "[approval] "@.len() as int) =~= "[approval] "@);
    if !begins_with(content, "[approval] "@) {
        assert(told.subrange(0, "[approval] "@.len() as int) =~= note.subrange(
            0,
            "[approval] "@.len() as int,
        ));
        assert(begins_with(told, "[approval] "@));
    }
    assert("[approval] 此工具调用需要审批并已在执行前由用户批准。"@.len()
        != "[approval] 此工具调用需要审批并已在执行前由用户使用调整后的执行策略批准。"@.len());
    reveal_strlit("approved_by_user");
    reveal_strlit("approved_with_policy");
    assert("approved_by_user"@.len() != "approved_with_policy"@.len());
}

proof fn lemma_members_are_kept(m: Seq<(Seq<char>, JsonView)>, key: Seq<char>, v: JsonView, from: int)
    requires
        0 <= from <= m.len(),
        forall|i: int| 0 <= i < from ==> (#[trigger] m[i]).0 != key,
    ensures
        with_member(m, key, v, from).len() >= m.len(),
        forall|i: int|
            0 <= i < m.len() && (#[trigger] m[i]).0 != key ==> with_member(m, key, v, from)[i]
                == m[i],
        exists|i: int|
            0 <= i < with_member(m, key, v, from).len() && #[trigger] with_member(
                m,
                key,
                v,
                from,
            )[i] == (key, v) && forall|j: int|
                0 <= j < i ==> (#[trigger] with_member(m, key, v, from)[j]).0 != key,
    decreases m.len() - from,
{
    let after = with_member(m, key, v, from);
    if from >= m.len() {
        assert(after[m.len() as int] == (key, v));
    } else if m[from].0 == key {
        assert(after[from] == (key, v));
    } else {
        lemma_members_are_kept(m, key, v, from + 1);
    }
}

/// The metadata of a call that was approved says that consent was needed and how it
/// was given, and keeps what it said before.
pub proof fn law_consent_is_remembered(metadata: Option<JsonView>, approval: ToolApprovalStamp)
    ensures
        ({
            let after = stamped_metadata(metadata, approval);
            &&& after.field("approval"@) is Some
            &&& after.field("approval"@)->0.text_field("decision"@) == Some(
                approval.decision_text(),
            )
            &&& after.field("approval"@)->0.truth_field("required"@) == Some(true)
            &&& metadata matches Some(JsonView::Object(m)) ==> (after matches JsonView::Object(n)
                && n.len() >= m.len() && forall|i: int|
                0 <= i < m.len() && (#[trigger] m[i]).0 != "approval"@ ==> n[i] == m[i])
            &&& metadata is Some && !(metadata->0 is Object) ==> after.field("_prior"@) == metadata
        }),
{
    reveal_strlit("decision");
    reveal_strlit("model_visible");
    reveal_strlit("required");
    reveal_strlit("approval");
    reveal_strlit("_prior");
    assert("decision"@.len() == 8 && "model_visible"@.len() == 13 && "required"@.len() == 8
        && "approval"@.len() == 8 && "_prior"@.len() == 6);
    assert("decision"@[0] != "required"@[0]);
    let record = crate::dispatch::approval_record(approval);
    let members = record->Object_0;
    law_single_members_are_read(members, 0);
    law_single_members_are_read(members, 2);
    let after = stamped_metadata(metadata, approval);
    let n = after->Object_0;
    match metadata {
        None => {
            law_single_members_are_read(n, 0);
        },
        Some(JsonView::Object(m)) => {
            lemma_members_are_kept(m, "approval"@, record, 0);
            let i = choose|i: int|
                0 <= i < n.len() && #[trigger] n[i] == ("approval"@, record) && forall|j: int|
                    0 <= j < i ==> (#[trigger] n[j]).0 != "approval"@;
            law_single_members_are_read(n, i);
        },
        Some(_) => {
            law_single_members_are_read(n, 0);
            law_single_members_are_read(n, 1);
        },
    }
}

/// A tool that lists callers is for those alone; one that lists none is for the
/// model itself.
pub proof fn law_tools_are_for_their_callers(requested: Seq<char>, list: Seq<Seq<char>>)
    ensures
        caller_allowed("direct"@, None),
        requested != "direct"@ ==> !caller_allowed(requested, None) && !caller_allowed(
            requested,
            Some(Seq::empty()),
        ),
        list.len() > 0 ==> (caller_allowed(requested, Some(list)) <==> exists|i: int|
            0 <= i < list.len() && #[trigger] list[i] == requested),
{
}

// ---------------------------------------------------------------------------
// Errors
// ---------------------------------------------------------------------------

/// A word stands in a text where no letter or digit touches it, and it does not
/// where one does everywhere it occurs.
pub proof fn law_words_stand_alone(a: Seq<char>, word: Seq<char>, b: Seq<char>, s: Seq<char>)
    ensures
        (a.len() == 0 || !is_word_char(a.last())) && (b.len() == 0 || !is_word_char(b[0]))
            ==> has_word(a + word + b, word),
        has_word(s, word) ==> contains_text(s, word),
        (forall|i: int|
            occurs_at(s, word, i) ==> (i > 0 && is_word_char(s[i - 1])) || (i + word.len() < s.len()
                && is_word_char(s[i + word.len()]))) ==> !has_word(s, word),
{
    let t = a + word + b;
    if (a.len() == 0 || !is_word_char(a.last())) && (b.len() == 0 || !is_word_char(b[0])) {
        assert(t.subrange(a.len() as int, a.len() + word.len() as int) =~= word);
        assert(word_at(t, word, a.len() as int));
    }
    if has_word(s, word) {
        let i = choose|i: int| word_at(s, word, i);
        assert(occurs_at(s, word, i));
    }
}

/// The text that says why a tool failed.
pub open spec fn cause(err: ToolErrorView) -> Option<Seq<char>> {
    match err {
        ToolErrorView::InvalidInput(m) => Some(m),
        ToolErrorView::MissingField(f) => Some(f),
        ToolErrorView::PathEscape(p) => Some(p),
        ToolErrorView::ExecutionFailed(m) => Some(m),
        ToolErrorView::Timeout(_) => None,
        ToolErrorView::NotAvailable(m) => Some(m),
        ToolErrorView::PermissionDenied(m) => Some(m),
    }
}

#[verifier::spinoff_prover]
#[verifier::rlimit(40)]
proof fn lemma_causes_are_told(err: ToolErrorView, tool_name: Seq<char>)
    ensures
        cause(err) matches Some(c) ==> holds(error_message(err, tool_name), c),
        err matches ToolErrorView::Timeout(n) ==> holds(
            error_message(err, tool_name),
            crate::text::decimal(n as nat),
        ) && holds(error_message(err, tool_name), tool_name),
{
    let message = error_message(err, tool_name);
    let none = Seq::<char>::empty();
    match err {
        ToolErrorView::InvalidInput(m) => {
            lemma_holds_between("工具 '"@ + tool_name + "' 的输入无效: "@, m, none);
            assert("工具 '"@ + tool_name + "' 的输入无效: "@ + m + none =~= message);
        },
        ToolErrorView::MissingField(f) => {
            lemma_holds_between("工具 '"@ + tool_name + "' 缺少必需字段 '"@, f, "'"@);
        },
        ToolErrorView::PathEscape(p) => {
            lemma_holds_between(
                "路径逃逸工作空间: "@,
                p,
                "。请使用工作空间相对路径或启用信任模式。"@,
            );
        },
        ToolErrorView::ExecutionFailed(m) => {
            assert(none + message + none =~= message);
            lemma_holds_between(none, message, none);
        },
        ToolErrorView::Timeout(n) => {
            let d = crate::text::decimal(n as nat);
            let end = " 秒后超时。尝试更窄的范围或更长的超时时间。"@;
            lemma_holds_between("工具 '"@ + tool_name + "' 在 "@, d, end);
            lemma_holds_between("工具 '"@, tool_name, "' 在 "@ + d + end);
            assert("工具 '"@ + tool_name + ("' 在 "@ + d + end) =~= message);
        },
        ToolErrorView::NotAvailable(m) => {
            if message == m {
                assert(none + message + none =~= message);
                lemma_holds_between(none, message, none);
            } else {
                lemma_holds_between(
                    "工具 '"@ + tool_name + "' 不可用: "@,
                    m,
                    "。检查模式、特性标志或工具名称。"@,
                );
                }
        },
        ToolErrorView::PermissionDenied(m) => {
            if message == m {
                assert(none + message + none =~= message);
                lemma_holds_between(none, message, none);
            } else {
                lemma_holds_between(
                    "工具 '"@ + tool_name + "' 被拒绝: "@,
                    m,
                    "。调整审批模式或请求权限。"@,
                );
                }
        },
    }
}

/// What a model is told of a failure holds its cause, and for a timeout its length.
/// A failure that may pass comes with advice, unless some was given already; another
/// comes without. Only timeouts and runs that failed may pass.
#[verifier::rlimit(40)]
pub proof fn law_failures_are_told(err: ToolErrorView, tool_name: Seq<char>)
    ensures
        ({
            let told = tool_error_text(err, tool_name);
            let message = error_message(err, tool_name);
            &&& cause(err) matches Some(c) ==> holds(told, c)
            &&& err matches ToolErrorView::Timeout(n) ==> holds(
                told,
                crate::text::decimal(n as nat),
            ) && holds(told, tool_name)
            &&& message.is_prefix_of(told)
            &&& err is Timeout && !has_advice(message) ==> advice_for(tool_name).is_suffix_of(told)
            &&& !(err is Timeout) && !(err is ExecutionFailed) ==> told == message
            &&& has_advice(message) ==> told == message
            &&& is_transient(err, message) && !has_advice(message) ==> advice_for(
                tool_name,
            ).is_suffix_of(told)
        }),
{
    let told = tool_error_text(err, tool_name);
    let message = error_message(err, tool_name);
    let none = Seq::<char>::empty();
    if has_advice(message) || !is_transient(err, message) {
    } else {
        assert(told.skip(told.len() - advice_for(tool_name).len()) =~= advice_for(tool_name));
    }
    assert(none + message + told.skip(message.len() as int) =~= told);
    lemma_holds_between(none, message, told.skip(message.len() as int));
    lemma_causes_are_told(err, tool_name);
    if let Some(c) = cause(err) {
        lemma_holds_within(told, message, c);
    }
    if let ToolErrorView::Timeout(n) = err {
        lemma_holds_within(told, message, crate::text::decimal(n as nat));
        lemma_holds_within(told, message, tool_name);
    }
}

// ---------------------------------------------------------------------------
// Arguments
// ---------------------------------------------------------------------------

/// The lines that are kept of a text in fences are those that open or close none, all
/// of them, in their order.
pub proof fn law_fences_are_left_out(lines: Seq<Seq<char>>, line: Seq<char>)
    ensures
        unfenced(Seq::empty()).len() == 0,
        begins_with(trim_front(line), "```"@) ==> unfenced(lines.push(line)) == unfenced(lines),
        !begins_with(trim_front(line), "```"@) ==> unfenced(lines.push(line)) == unfenced(
            lines,
        ).push(line),
{
    reveal(Seq::filter);
    assert(lines.push(line).drop_last() =~= lines);
    assert(lines.push(line).last() == line);
}

/// A text without a fence has nothing taken out of fences; what is taken out is never
/// empty, nor has it blanks around it.
pub proof fn law_fenced_texts_hold_something(text: Seq<char>)
    ensures
        !contains_text(text, "```"@) ==> without_fences(text) is None,
        without_fences(text) matches Some(body) ==> body.len() > 0 && trimmed(body) == body,
{
    crate::text::lemma_trimmed_once(
        crate::text::joined(unfenced(crate::text::lines_of(text)), "\n"@),
    );
}

proof fn lemma_flat_end(s: Seq<char>, i: int, end: int, open: char, close: char)
    requires
        0 <= i <= end < s.len(),
        open != close,
        s[end] == close,
        forall|j: int| i <= j < end ==> #[trigger] s[j] != open && s[j] != close,
    ensures
        balanced_end(s, i, 1, open, close) == Some(end + 1),
    decreases end - i,
{
    if i < end {
        lemma_flat_end(s, i + 1, end, open, close);
    }
}

/// The first bracketed part of a text begins at its first opening bracket; one
/// without brackets inside ends at the next closing one. Braces count before square
/// brackets.
#[verifier::rlimit(40)]
pub proof fn law_first_brackets_count(
    before: Seq<char>,
    inside: Seq<char>,
    after: Seq<char>,
    open: char,
    close: char,
)
    requires
        open != close,
        !before.contains(open),
        !inside.contains(open),
        !inside.contains(close),
    ensures
        ({
            let part = seq![open] + inside + seq![close];
            let s = before + part + after;
            &&& balanced_segment(s, open, close) == Some(part)
            &&& open == '{' && close == '}' ==> json_segment(s) == Some(part)
            &&& balanced_segment(before, open, close) is None
        }),
{
    let part = seq![open] + inside + seq![close];
    let s = before + part + after;
    let at = before.len() as int;
    let end = at + 1 + inside.len();
    let behind = inside + seq![close] + after;
    assert(s =~= before + seq![open] + behind);
    lemma_first_mark(before, open, behind);
    assert(balanced_end(s, at + 1, 1, open, close) == Some(end + 1)) by {
        assert(s[end] == close);
        assert forall|j: int| at + 1 <= j < end implies #[trigger] s[j] != open && s[j]
            != close by {
            assert(s[j] == inside[j - at - 1]);
        }
        lemma_flat_end(s, at + 1, end, open, close);
    }
    assert(balanced_end(s, at, 0, open, close) == Some(end + 1)) by {
        assert(s[at] == open);
    }
    assert(s.subrange(at, end + 1) =~= part);
}

/// What repairing gave comes first; without it, what stands in fences, then a text
/// inside a text, and the first bracketed part last. An empty text holds nothing,
/// and a call then runs with what it began with.
pub proof fn law_arguments_are_taken_in_turn(
    buffer: Seq<char>,
    initial: JsonView,
    value: JsonView,
    repaired: Option<JsonView>,
)
    ensures
        trimmed(buffer).len() > 0 ==> tool_input_of(buffer, Some(value)) == Some(value),
        trimmed(buffer).len() == 0 ==> tool_input_of(buffer, repaired) is None && input_of_state(
            buffer,
            false,
            initial,
            repaired,
        ) == initial,
        tool_input_of(buffer, repaired) matches Some(v) ==> input_of_state(
            buffer,
            false,
            initial,
            repaired,
        ) == v,
        input_of_state(buffer, true, initial, repaired).text_field("raw_arguments"@) == Some(
            buffer,
        ),
        trimmed(buffer).len() > 0 ==> (without_fences(trimmed(buffer)) matches Some(body)
            ==> (crate::json::json_of_text(body) matches Some(v) ==> tool_input_of(buffer, None)
            == Some(v))),
{
    law_single_members_are_read(seq![("raw_arguments"@, JsonView::Str(buffer))], 0);
}

/// A prefix that names no tool is taken off once; blanks around a name do not count.
pub proof fn law_tool_names_are_plain(name: Seq<char>)
    requires
        trimmed(name) == name,
    ensures
        trimmed("functions."@ + name) == "functions."@ + name ==> plain_tool_name(
            "functions."@ + name,
        ) == name,
        trimmed("tools."@ + name) == "tools."@ + name ==> plain_tool_name("tools."@ + name) == name,
        trimmed("tool."@ + name) == "tool."@ + name ==> plain_tool_name("tool."@ + name) == name,
        without_prefix(name, "functions."@) is None && without_prefix(name, "tools."@) is None
            && without_prefix(name, "tool."@) is None ==> plain_tool_name(name) == name,
{
    reveal_strlit("functions.");
    reveal_strlit("tools.");
    reveal_strlit("tool.");
    crate::laws::texts::law_prefixes_are_taken("functions."@, name, name);
    crate::laws::texts::law_prefixes_are_taken("tools."@, name, name);
    crate::laws::texts::law_prefixes_are_taken("tool."@, name, name);
    let b = "tools."@ + name;
    assert(b.subrange(0, "functions."@.len() as int)[0] == b[0] || b.len() < "functions."@.len());
    assert("functions."@[0] == 'f' && "tools."@[0] == 't' && "tool."@[0] == 't');
    let c = "tool."@ + name;
    if c.len() >= "functions."@.len() {
        assert(c.subrange(0, "functions."@.len() as int)[0] == 't');
    }
    if c.len() >= "tools."@.len() {
        assert(c.subrange(0, "tools."@.len() as int)[4] == c[4]);
        assert("tools."@[4] == 's' && "tool."@[4] == '.');
    }
}

/// A call is named, and gets its arguments, by the first of the members that a model
/// may use for them.
pub proof fn law_members_of_calls_in_turn(item: JsonView)
    ensures
        item.field("recipient_name"@) matches Some(v) ==> call_name(item) == v.text(),
        item.field("recipient_name"@) is None ==> (item.field("tool_name"@) matches Some(v)
            ==> call_name(item) == v.text()),
        item.field("recipient_name"@) is None && item.field("tool_name"@) is None ==> (item.field(
            "name"@,
        ) matches Some(v) ==> call_name(item) == v.text()),
        item.field("recipient_name"@) is None && item.field("tool_name"@) is None && item.field(
            "name"@,
        ) is None ==> (item.field("tool"@) matches Some(v) ==> call_name(item) == v.text()),
        item.field("recipient_name"@) is None && item.field("tool_name"@) is None && item.field(
            "name"@,
        ) is None && item.field("tool"@) is None ==> call_name(item) is None,
        item.field("parameters"@) matches Some(v) ==> call_params(item) == v,
        item.field("parameters"@) is None ==> (item.field("input"@) matches Some(v) ==> call_params(
            item,
        ) == v),
        item.field("parameters"@) is None && item.field("input"@) is None ==> (item.field("args"@)
            matches Some(v) ==> call_params(item) == v),
        item.field("parameters"@) is None && item.field("input"@) is None && item.field("args"@)
            is None ==> (item.field("arguments"@) matches Some(v) ==> call_params(item) == v),
        item.field("parameters"@) is None && item.field("input"@) is None && item.field("args"@)
            is None && item.field("arguments"@) is None ==> call_params(item) == JsonView::Object(
            Seq::empty(),
        ),
{
}

/// Calls that come in one are made in their order, each with its name and its
/// arguments; one without a name spoils all.
pub proof fn law_bundles_hold_their_calls(items: Seq<JsonView>, n: nat)
    requires
        n <= items.len(),
    ensures
        match parallel_calls(items, n) {
            Ok(calls) => {
                &&& calls.len() == n
                &&& forall|i: int|
                    0 <= i < n ==> {
                        &&& call_name(#[trigger] items[i]) matches Some(name)
                        &&& calls[i] == (plain_tool_name(name), call_params(items[i]))
                    }
            },
            Err(e) => e is MissingField && exists|i: int|
                0 <= i < n && call_name(#[trigger] items[i]) is None,
        },
    decreases n,
{
    if n > 0 {
        law_bundles_hold_their_calls(items, (n - 1) as nat);
        if parallel_calls(items, (n - 1) as nat) is Err {
            let i = choose|i: int| 0 <= i < n - 1 && call_name(#[trigger] items[i]) is None;
            assert(call_name(items[i]) is None);
        } else if call_name(items[n - 1]) is Some {
            let before = parallel_calls(items, (n - 1) as nat)->Ok_0;
            let calls = parallel_calls(items, n)->Ok_0;
            assert forall|i: int| 0 <= i < n implies {
                &&& call_name(#[trigger] items[i]) matches Some(name)
                &&& calls[i] == (plain_tool_name(name), call_params(items[i]))
            } by {
                if i < n - 1 {
                    assert(calls[i] == before[i]);
                }
            }
        }
    }
}

/// A bundle is read from the list under `tool_uses`: without one, or with an empty
/// one, it is refused.
pub proof fn law_bundles_are_lists(input: JsonView)
    ensures
        input.items_field("tool_uses"@) is None ==> bundled_calls(input) is Err && bundled_calls(
            input,
        )->Err_0 is MissingField,
        input.items_field("tool_uses"@) matches Some(items) ==> if items.len() == 0 {
            bundled_calls(input) is Err && bundled_calls(input)->Err_0 is InvalidInput
        } else {
            bundled_calls(input) == parallel_calls(items, items.len())
        },
{
}

/// A run that failed may pass where its message speaks of time, of the network, of too
/// many requests or of a server's fault; and only there.
pub proof fn law_passing_failures(message: Seq<char>, said: Seq<char>, n: u64)
    ensures
        is_transient(ToolErrorView::Timeout(n), message),
        ({
            let lower = crate::text::ascii_lower(message);
            is_transient(ToolErrorView::ExecutionFailed(said), message) <==> (contains_text(
                lower,
                "timeout"@,
            ) || contains_text(lower, "timed out"@) || contains_text(lower, "request failed"@)
                || contains_text(lower, "connection"@) || contains_text(lower, "network"@)
                || contains_text(lower, "http 429"@) || contains_text(lower, "rate limit"@)
                || contains_text(lower, "http 5"@) || contains_text(lower, "anti-bot"@)
                || contains_text(lower, "captcha"@))
        }),
        !is_transient(ToolErrorView::PermissionDenied(said), message),
        !is_transient(ToolErrorView::InvalidInput(said), message),
        !is_transient(ToolErrorView::MissingField(said), message),
        !is_transient(ToolErrorView::NotAvailable(said), message),
        !is_transient(ToolErrorView::PathEscape(said), message),
{
    let lower = crate::text::ascii_lower(message);
    let w = crate::dispatch::transient_words();
    assert(w.len() == 10);
    assert(w[0] == "timeout"@ && w[1] == "timed out"@ && w[2] == "request failed"@ && w[3]
        == "connection"@ && w[4] == "network"@ && w[5] == "http 429"@ && w[6] == "rate limit"@
        && w[7] == "http 5"@ && w[8] == "anti-bot"@ && w[9] == "captcha"@);
    assert(contains_text(lower, w[0]) || contains_text(lower, w[1]) || contains_text(lower, w[2])
        || contains_text(lower, w[3]) || contains_text(lower, w[4]) || contains_text(lower, w[5])
        || contains_text(lower, w[6]) || contains_text(lower, w[7]) || contains_text(lower, w[8])
        || contains_text(lower, w[9]) <==> crate::text::contains_any_text(lower, w));
}

/// A message that advises what to do says so.
pub proof fn law_advice_is_seen(message: Seq<char>)
    ensures
        has_advice(message) <==> contains_text(
            crate::text::ascii_lower(message),
            "recovery:"@,
        ) || contains_text(crate::text::ascii_lower(message), "fallback:"@),
{
}

/// A number is read as what it is, where it can be.
pub proof fn law_numbers_are_read(n: u64, k: i64)
    ensures
        JsonView::PosInt(n).unsigned() == Some(n),
        n <= i64::MAX ==> JsonView::PosInt(n).signed() == Some(n as i64),
        JsonView::NegInt(k).signed() == Some(k),
        JsonView::NegInt(k).unsigned() is None,
        JsonView::Str(Seq::empty()).unsigned() is None,
{
}

/// The model itself calls a tool unless the call says who does.
pub proof fn law_callers_are_told(caller: &crate::models::ToolCaller)
    ensures
        crate::dispatch::caller_text(Some(caller)) == caller.caller_type@,
        crate::dispatch::caller_text(None) == "direct"@,
{
}

/// Advice fits the tool: other ways to the web for a search there, a narrower one for a
/// search in files, a smaller task for a sub-agent.
pub proof fn law_advice_fits_the_tool(tool_name: Seq<char>)
    ensures
        ({
            let lower = crate::text::ascii_lower(tool_name);
            let web = contains_text(lower, "web_search"@) || contains_text(lower, "web_run"@)
                || lower == "web.run"@;
            let fetch = contains_text(lower, "fetch_url"@);
            let files = contains_text(lower, "file_search"@) || contains_text(lower, "grep"@);
            let shell = contains_text(lower, "exec_shell"@) || contains_text(lower, "run_tests"@)
                || contains_text(lower, "run_verifiers"@);
            let agent = contains_text(lower, "agent"@);
            &&& web ==> advice_for(tool_name)
                == "重试一次后，切换到直接的 URL/open/fetch 路径或缓存上下文，而不是重复相同的搜索。"@
            &&& !web && fetch ==> advice_for(tool_name)
                == "重试一次后，尝试更窄的 URL/来源、使用搜索结果或缓存上下文，或说明访问限制，而不是重复相同的请求。"@
            &&& !web && !fetch && files ==> advice_for(tool_name)
                == "重试一次后，缩小查询/路径或直接检查可能文件，而不是不变地重复相同的搜索。"@
            &&& !web && !fetch && !files && shell ==> advice_for(tool_name)
                == "重试一次后，缩小命令/范围、仅为预期长时间运行增加超时，或切换到文件级别证据。"@
            &&& !web && !fetch && !files && !shell && agent ==> advice_for(tool_name)
                == "重试一次后，减少委派范围或在父上下文继续，而不是重复生成相同代理。"@
            &&& !web && !fetch && !files && !shell && !agent ==> advice_for(tool_name)
                == "重试一次后，选择不同工具或更窄策略，而不是不变地重复相同调用。"@
        }),
{
}

} // verus!
