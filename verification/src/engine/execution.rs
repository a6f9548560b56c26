//! Running tools: which way a call goes, which calls may run side by side, and
//! how their results are put together.

use crate::dispatch::{is_reading_mcp_tool, mcp_tool_is_parallel_safe};
use crate::json::{
    json_text, lemma_json_views, lemma_member_views, json_views, member_views, render_json,
    text_value, with_pair, Json, JsonView,
};
use crate::models::{ToolError, ToolErrorView, ToolResult, ToolResultView};
use crate::text::{concat, opt_text, same_text};
use crate::tool_catalog::MULTI_TOOL_PARALLEL_NAME;
use vstd::prelude::*;

verus! {

/// How many shell commands run side by side at most: there are so many permits for
/// the calls that need one.
pub const MAX_PARALLEL_SHELL_EXEC: usize = 4;

/// How long an interpreter runs at most, in seconds.
pub const CODE_EXECUTION_TIMEOUT_SECS: u64 = 120;

// ---------------------------------------------------------------------------
// One call
// ---------------------------------------------------------------------------

/// Which way a tool call goes.
#[derive(Debug, Clone, Copy, PartialEq, Eq, Structural)]
pub enum ToolRoute {
    /// To a server of the user's.
    Mcp,
    /// To the interpreter for code.
    CodeInterpreter,
    /// To the interpreter for scripts.
    ScriptInterpreter,
    /// To the registry of tools.
    Registry,
    /// Nowhere.
    Missing,
}

impl ToolRoute {
    /// The word for a way.
    pub open spec fn word(self) -> Seq<char> {
        match self {
            ToolRoute::Mcp => "mcp"@,
            ToolRoute::CodeInterpreter => "interpreter"@,
            ToolRoute::ScriptInterpreter => "interpreter"@,
            ToolRoute::Registry => "registry"@,
            ToolRoute::Missing => "missing"@,
        }
    }

    /// The word for a way.
    pub fn label(self) -> (r: &'static str)
        ensures
            r@ == self.word(),
    {
        match self {
            ToolRoute::Mcp => "mcp",
            ToolRoute::CodeInterpreter => "interpreter",
            ToolRoute::ScriptInterpreter => "interpreter",
            ToolRoute::Registry => "registry",
            ToolRoute::Missing => "missing",
        }
    }
}

/// Which way a tool call goes.
pub open spec fn route_of(
    tool_name: Seq<char>,
    is_mcp_tool: bool,
    has_registry: bool,
) -> ToolRoute {
    if is_mcp_tool {
        ToolRoute::Mcp
    } else if tool_name == "code_execution"@ {
        ToolRoute::CodeInterpreter
    } else if tool_name == "js_execution"@ {
        ToolRoute::ScriptInterpreter
    } else if has_registry {
        ToolRoute::Registry
    } else {
        ToolRoute::Missing
    }
}

/// Which way a tool call goes.
pub fn tool_route(tool_name: &str, is_mcp_tool: bool, has_registry: bool) -> (r: ToolRoute)
    ensures
        r == route_of(tool_name@, is_mcp_tool, has_registry),
{
    if is_mcp_tool {
        ToolRoute::Mcp
    } else if same_text(tool_name, "code_execution") {
        ToolRoute::CodeInterpreter
    } else if same_text(tool_name, "js_execution") {
        ToolRoute::ScriptInterpreter
    } else if has_registry {
        ToolRoute::Registry
    } else {
        ToolRoute::Missing
    }
}

/// What is said of a tool that is not there.
pub open spec fn not_registered(tool_name: Seq<char>) -> Seq<char> {
    "工具 '"@ + tool_name + "' 未注册"@
}

fn named(before: &str, tool_name: &str, after: &str) -> (r: String)
    ensures
        r@ == before@ + tool_name@ + after@,
{
    let mut out = concat(before, tool_name);
    out.append(after);
    out
}

/// How a tool call is run.
#[derive(Debug, Clone, Copy, PartialEq, Eq, Structural)]
pub struct ToolRun {
    pub route: ToolRoute,
    /// The call shares the tools with others; else it has them for itself.
    pub shared: bool,
    /// The terminal is handed over while the call runs.
    pub hands_over_terminal: bool,
}

/// Decides how a tool call is run, or why it cannot be: a tool of a server needs
/// the connection to the servers, and any other tool the registry.
pub fn execute_tool_with_lock(
    tool_name: &str,
    is_mcp_tool: bool,
    has_registry: bool,
    has_mcp_pool: bool,
    supports_parallel: bool,
    interactive: bool,
) -> (r: Result<ToolRun, ToolError>)
    ensures
        ({
            let route = route_of(tool_name@, is_mcp_tool, has_registry);
            let missing = route == ToolRoute::Missing || (route == ToolRoute::Mcp
                && !has_mcp_pool);
            match r {
                Ok(run) => !missing && run == (ToolRun {
                    route,
                    shared: supports_parallel,
                    hands_over_terminal: interactive,
                }),
                Err(e) => missing && e@ == ToolErrorView::NotAvailable(not_registered(tool_name@)),
            }
        }),
{
    let route = tool_route(tool_name, is_mcp_tool, has_registry);
    if route == ToolRoute::Missing || (route == ToolRoute::Mcp && !has_mcp_pool) {
        return Err(
            ToolError::NotAvailable { message: named("工具 '", tool_name, "' 未注册") },
        );
    }
    Ok(ToolRun { route, shared: supports_parallel, hands_over_terminal: interactive })
}

/// The word for the kind of an error.
pub open spec fn error_kind(e: ToolErrorView) -> Seq<char> {
    match e {
        ToolErrorView::InvalidInput(_) => "invalid_input"@,
        ToolErrorView::MissingField(_) => "missing_field"@,
        ToolErrorView::PathEscape(_) => "path_escape"@,
        ToolErrorView::ExecutionFailed(_) => "execution_failed"@,
        ToolErrorView::Timeout(_) => "timeout"@,
        ToolErrorView::NotAvailable(_) => "not_available"@,
        ToolErrorView::PermissionDenied(_) => "permission_denied"@,
    }
}

/// The word for the kind of an error.
pub fn error_kind_label(e: &ToolError) -> (r: &'static str)
    ensures
        r@ == error_kind(e@),
{
    match e {
        ToolError::InvalidInput { .. } => "invalid_input",
        ToolError::MissingField { .. } => "missing_field",
        ToolError::PathEscape { .. } => "path_escape",
        ToolError::ExecutionFailed { .. } => "execution_failed",
        ToolError::Timeout { .. } => "timeout",
        ToolError::NotAvailable { .. } => "not_available",
        ToolError::PermissionDenied { .. } => "permission_denied",
    }
}

/// The result of a call to a tool of a server: its answer as text, or why it
/// failed.
pub fn mcp_tool_result(answer: Result<Json, String>) -> (r: Result<ToolResult, ToolError>)
    ensures
        match answer {
            Ok(value) => r matches Ok(t) && t@ == (ToolResultView {
                content: json_text(value@),
                success: true,
                metadata: None,
            }),
            Err(e) => r matches Err(err) && err@ == ToolErrorView::ExecutionFailed(
                "MCP 工具失败: "@ + e@,
            ),
        },
{
    match answer {
        Ok(value) => Ok(
            ToolResult { content: render_json(&value), success: true, metadata: None },
        ),
        Err(e) => Err(
            ToolError::ExecutionFailed { message: concat("MCP 工具失败: ", e.as_str()) },
        ),
    }
}

/// A whole number as a value.
pub open spec fn number_view(n: i32) -> JsonView {
    if n >= 0 {
        JsonView::PosInt(n as u64)
    } else {
        JsonView::NegInt(n as i64)
    }
}

fn number_value(n: i32) -> (r: Json)
    ensures
        r@ == number_view(n),
{
    if n >= 0 {
        Json::PosInt(n as u64)
    } else {
        Json::NegInt(n as i64)
    }
}

/// What a run of an interpreter produced, as a value.
pub open spec fn code_execution_view(
    stdout: Seq<char>,
    stderr: Seq<char>,
    return_code: i32,
) -> JsonView {
    JsonView::Object(
        Seq::empty().push(("content"@, JsonView::Array(Seq::empty()))).push(
            ("return_code"@, number_view(return_code)),
        ).push(("stderr"@, JsonView::Str(stderr))).push(("stdout"@, JsonView::Str(stdout))).push(
            ("type"@, JsonView::Str("code_execution_result"@)),
        ),
    )
}

fn code_execution_value(stdout: &str, stderr: &str, return_code: i32) -> (r: Json)
    ensures
        r@ == code_execution_view(stdout@, stderr@, return_code),
{
    let none: Vec<Json> = Vec::new();
    let m0: Vec<(String, Json)> = Vec::new();
    proof {
        lemma_json_views(none@);
        assert(json_views(none@) =~= Seq::empty());
        lemma_member_views(m0@);
        assert(member_views(m0@) =~= Seq::empty());
    }
    let m1 = with_pair(m0, "content", Json::Array(none));
    let m2 = with_pair(m1, "return_code", number_value(return_code));
    let m3 = with_pair(m2, "stderr", text_value(stderr));
    let m4 = with_pair(m3, "stdout", text_value(stdout));
    let m5 = with_pair(m4, "type", text_value("code_execution_result"));
    Json::Object(m5)
}

/// The result of a run of an interpreter. A process that was killed has no
/// return code.
pub fn code_execution_result(
    stdout: &str,
    stderr: &str,
    return_code: Option<i32>,
    success: bool,
) -> (r: ToolResult)
    ensures
        ({
            let code = match return_code {
                Some(c) => c,
                None => -1i32,
            };
            let payload = code_execution_view(stdout@, stderr@, code);
            r@ == (ToolResultView {
                content: json_text(payload),
                success,
                metadata: Some(payload),
            })
        }),
{
    let code: i32 = match return_code {
        Some(c) => c,
        None => -1,
    };
    let payload = code_execution_value(stdout, stderr, code);
    ToolResult { content: render_json(&payload), success, metadata: Some(payload) }
}

/// The line that is written to the record of tool calls.
pub fn audit_line(entry: &Json) -> (r: String)
    ensures
        r@ == json_text(entry@),
{
    render_json(entry)
}

// ---------------------------------------------------------------------------
// Calls side by side
// ---------------------------------------------------------------------------

/// What the registry knows of a tool, for the input of a call.
#[derive(Debug, Clone, Copy, PartialEq, Eq, Structural)]
pub struct ToolFacts {
    pub read_only: bool,
    pub needs_no_approval: bool,
    pub supports_parallel: bool,
}

/// What is known of a call before it runs.
#[derive(Debug, Clone, Copy, PartialEq, Eq, Structural)]
pub struct CallFacts {
    pub is_mcp_tool: bool,
    pub registered: Option<ToolFacts>,
}

/// Why a call may not run beside others; nothing where it may.
pub open spec fn parallel_refusal(tool_name: Seq<char>, facts: CallFacts) -> Option<ToolErrorView> {
    if tool_name == MULTI_TOOL_PARALLEL_NAME@ {
        Some(ToolErrorView::InvalidInput("multi_tool_use.parallel 不能调用自身"@))
    } else if facts.is_mcp_tool {
        if is_reading_mcp_tool(tool_name) {
            None
        } else {
            Some(
                ToolErrorView::InvalidInput(
                    "工具 '"@ + tool_name
                        + "' 是 MCP 工具，不能并行运行。允许的 MCP 工具：list_mcp_resources, list_mcp_resource_templates, mcp_read_resource, read_mcp_resource, mcp_get_prompt。"@,
                ),
            )
        }
    } else {
        match facts.registered {
            None => Some(ToolErrorView::NotAvailable(not_registered(tool_name))),
            Some(tool) => if !tool.read_only {
                Some(
                    ToolErrorView::InvalidInput(
                        "工具 '"@ + tool_name + "' 不是只读的，不能并行运行"@,
                    ),
                )
            } else if !tool.needs_no_approval {
                Some(
                    ToolErrorView::InvalidInput(
                        "工具 '"@ + tool_name + "' 需要审批，不能并行运行"@,
                    ),
                )
            } else if !tool.supports_parallel {
                Some(
                    ToolErrorView::InvalidInput(
                        "工具 '"@ + tool_name + "' 不支持并行执行"@,
                    ),
                )
            } else {
                None
            },
        }
    }
}

/// The view of an optional error.
pub open spec fn opt_error(e: Option<ToolError>) -> Option<ToolErrorView> {
    match e {
        Some(x) => Some(x@),
        None => None,
    }
}

/// Why a call may not run beside others.
pub fn refuse_parallel_call(tool_name: &str, facts: CallFacts) -> (r: Option<ToolError>)
    ensures
        opt_error(r) == parallel_refusal(tool_name@, facts),
{
    if same_text(tool_name, MULTI_TOOL_PARALLEL_NAME) {
        return Some(
            ToolError::InvalidInput {
                message: "multi_tool_use.parallel 不能调用自身".to_owned(),
            },
        );
    }
    if facts.is_mcp_tool {
        if mcp_tool_is_parallel_safe(tool_name) {
            return None;
        }
        return Some(
            ToolError::InvalidInput {
                message: named(
                    "工具 '",
                    tool_name,
                    "' 是 MCP 工具，不能并行运行。允许的 MCP 工具：list_mcp_resources, list_mcp_resource_templates, mcp_read_resource, read_mcp_resource, mcp_get_prompt。",
                ),
            },
        );
    }
    let tool = match facts.registered {
        Some(t) => t,
        None => {
            return Some(
                ToolError::NotAvailable { message: named("工具 '", tool_name, "' 未注册") },
            );
        },
    };
    if !tool.read_only {
        return Some(
            ToolError::InvalidInput {
                message: named("工具 '", tool_name, "' 不是只读的，不能并行运行"),
            },
        );
    }
    if !tool.needs_no_approval {
        return Some(
            ToolError::InvalidInput {
                message: named("工具 '", tool_name, "' 需要审批，不能并行运行"),
            },
        );
    }
    if !tool.supports_parallel {
        return Some(
            ToolError::InvalidInput {
                message: named("工具 '", tool_name, "' 不支持并行执行"),
            },
        );
    }
    None
}

/// Why calls may not run side by side: the first refusal, from the `from`th call
/// on.
pub open spec fn first_refusal(
    calls: Seq<(Seq<char>, JsonView)>,
    facts: Seq<CallFacts>,
    from: int,
) -> Option<ToolErrorView>
    decreases calls.len() - from,
{
    if from < 0 || from >= calls.len() {
        None
    } else {
        match parallel_refusal(calls[from].0, facts[from]) {
            Some(e) => Some(e),
            None => first_refusal(calls, facts, from + 1),
        }
    }
}

/// Whether a call that runs beside others needs one of the permits for shell
/// commands, and holds it while it runs.
pub fn needs_shell_permit(tool_name: &str) -> (r: bool)
    ensures
        r == (tool_name@ == "exec_shell"@),
{
    same_text(tool_name, "exec_shell")
}

/// Decides whether calls may run side by side. Without a registry none may; else
/// the first that may not stops them all, so that none has run by then.
pub fn execute_parallel_tool(
    calls: &Vec<(String, Json)>,
    facts: &Vec<CallFacts>,
    has_registry: bool,
) -> (r: Result<(), ToolError>)
    requires
        facts@.len() == calls@.len(),
    ensures
        match r {
            Ok(_) => has_registry && first_refusal(
                crate::dispatch::call_views(calls@),
                facts@,
                0,
            ) is None,
            Err(e) => if has_registry {
                first_refusal(crate::dispatch::call_views(calls@), facts@, 0) == Some(e@)
            } else {
                e@ == ToolErrorView::NotAvailable("multi_tool_use.parallel 的工具注册表不可用"@)
            },
        },
{
    if !has_registry {
        return Err(
            ToolError::NotAvailable {
                message: "multi_tool_use.parallel 的工具注册表不可用".to_owned(),
            },
        );
    }
    let ghost all = crate::dispatch::call_views(calls@);
    let mut i: usize = 0;
    while i < calls.len()
        invariant
            i <= calls@.len(),
            facts@.len() == calls@.len(),
            has_registry,
            all == crate::dispatch::call_views(calls@),
            all.len() == calls@.len(),
            first_refusal(all, facts@, 0) == first_refusal(all, facts@, i as int),
        decreases calls@.len() - i,
    {
        assert(all[i as int].0 == calls@[i as int].0@);
        if let Some(e) = refuse_parallel_call(calls[i].0.as_str(), facts[i]) {
            return Err(e);
        }
        i += 1;
    }
    Ok(())
}

/// What a call came to.
#[derive(Debug)]
pub enum CallOutcome {
    Done { success: bool, content: String },
    Failed { message: String },
}

/// What a call came to, as it is told.
#[derive(Debug)]
pub struct ParallelToolResultEntry {
    pub tool_name: String,
    pub success: bool,
    pub content: String,
    pub error: Option<String>,
}

/// What a call came to, as contracts see it.
#[verifier::ext_equal]
pub struct EntryView {
    pub tool_name: Seq<char>,
    pub success: bool,
    pub content: Seq<char>,
    pub error: Option<Seq<char>>,
}

impl View for ParallelToolResultEntry {
    type V = EntryView;

    open spec fn view(&self) -> EntryView {
        EntryView {
            tool_name: self.tool_name@,
            success: self.success,
            content: self.content@,
            error: opt_text(self.error),
        }
    }
}

/// What is told of a call: that it failed is told with the content, or, where it
/// gave none, with the error.
pub open spec fn entry_of(tool_name: Seq<char>, outcome: CallOutcome) -> EntryView {
    match outcome {
        CallOutcome::Done { success, content } => EntryView {
            tool_name,
            success,
            content: content@,
            error: if success {
                None
            } else {
                Some(content@)
            },
        },
        CallOutcome::Failed { message } => EntryView {
            tool_name,
            success: false,
            content: "错误: "@ + message@,
            error: Some(message@),
        },
    }
}

/// What is told of a call.
pub fn parallel_entry(tool_name: String, outcome: CallOutcome) -> (r: ParallelToolResultEntry)
    ensures
        r@ == entry_of(tool_name@, outcome),
{
    match outcome {
        CallOutcome::Done { success, content } => {
            let error = if success {
                None
            } else {
                Some(content.clone())
            };
            ParallelToolResultEntry { tool_name, success, content, error }
        },
        CallOutcome::Failed { message } => ParallelToolResultEntry {
            tool_name,
            success: false,
            content: concat("错误: ", message.as_str()),
            error: Some(message),
        },
    }
}

/// The results of calls that run side by side. Each has its place, whenever it
/// comes in.
#[derive(Debug)]
pub struct ParallelToolResult {
    slots: Vec<Option<ParallelToolResultEntry>>,
}

/// The view of an optional entry.
pub open spec fn opt_entry(e: Option<ParallelToolResultEntry>) -> Option<EntryView> {
    match e {
        Some(x) => Some(x@),
        None => None,
    }
}

/// The entries in the first `n` places that were filled.
pub open spec fn filled(slots: Seq<Option<EntryView>>, n: nat) -> Seq<EntryView>
    decreases n,
{
    if n == 0 {
        Seq::empty()
    } else {
        match slots[n - 1] {
            Some(e) => filled(slots, (n - 1) as nat).push(e),
            None => filled(slots, (n - 1) as nat),
        }
    }
}

/// One entry as a value. The error is left out where there is none.
pub open spec fn entry_json(e: EntryView) -> JsonView {
    let base = Seq::empty().push(("content"@, JsonView::Str(e.content)));
    let middle = match e.error {
        Some(text) => base.push(("error"@, JsonView::Str(text))),
        None => base,
    };
    JsonView::Object(
        middle.push(("success"@, JsonView::Bool(e.success))).push(
            ("tool_name"@, JsonView::Str(e.tool_name)),
        ),
    )
}

/// The results as a value.
pub open spec fn results_json(entries: Seq<EntryView>) -> JsonView {
    JsonView::Object(
        Seq::empty().push(
            ("results"@, JsonView::Array(entries.map_values(|e: EntryView| entry_json(e)))),
        ),
    )
}

fn entry_value(e: &ParallelToolResultEntry) -> (r: Json)
    ensures
        r@ == entry_json(e@),
{
    let m0: Vec<(String, Json)> = Vec::new();
    proof {
        lemma_member_views(m0@);
        assert(member_views(m0@) =~= Seq::empty());
    }
    let m1 = with_pair(m0, "content", text_value(e.content.as_str()));
    let m2 = match &e.error {
        Some(text) => with_pair(m1, "error", text_value(text.as_str())),
        None => m1,
    };
    let m3 = with_pair(m2, "success", Json::Bool(e.success));
    let m4 = with_pair(m3, "tool_name", text_value(e.tool_name.as_str()));
    Json::Object(m4)
}

impl View for ParallelToolResult {
    type V = Seq<Option<EntryView>>;

    closed spec fn view(&self) -> Seq<Option<EntryView>> {
        self.slots@.map_values(|e: Option<ParallelToolResultEntry>| opt_entry(e))
    }
}

impl ParallelToolResult {
    /// Places for the results of `count` calls.
    pub fn new(count: usize) -> (r: Self)
        ensures
            r@ == Seq::new(count as nat, |i: int| None::<EntryView>),
    {
        let mut slots: Vec<Option<ParallelToolResultEntry>> = Vec::new();
        let mut i: usize = 0;
        while i < count
            invariant
                i <= count,
                slots@.len() == i,
                forall|k: int| 0 <= k < i ==> (#[trigger] slots@[k]) is None,
            decreases count - i,
        {
            slots.push(None);
            i += 1;
        }
        let r = ParallelToolResult { slots };
        proof {
            assert(r@ =~= Seq::new(count as nat, |i: int| None::<EntryView>));
        }
        r
    }

    /// Puts a result into its place.
    pub fn put(&mut self, index: usize, tool_name: String, outcome: CallOutcome)
        requires
            index < old(self)@.len(),
        ensures
            final(self)@ == old(self)@.update(
                index as int,
                Some(entry_of(tool_name@, outcome)),
            ),
    {
        let ghost before = self@;
        assert(before.len() == self.slots@.len());
        let entry = parallel_entry(tool_name, outcome);
        self.slots.set(index, Some(entry));
        proof {
            assert(self@ =~= before.update(index as int, Some(entry@)));
        }
    }

    /// The results in the order of the calls, as a value.
    pub fn to_json(&self) -> (r: Json)
        ensures
            r@ == results_json(filled(self@, self@.len())),
    {
        let ghost all = self@;
        let mut items: Vec<Json> = Vec::new();
        let mut i: usize = 0;
        let ghost put = |e: EntryView| entry_json(e);
        proof {
            lemma_json_views(items@);
            assert(json_views(items@) =~= filled(all, 0).map_values(put));
        }
        while i < self.slots.len()
            invariant
                i <= self.slots@.len(),
                all == self@,
                all.len() == self.slots@.len(),
                put == (|e: EntryView| entry_json(e)),
                json_views(items@) == filled(all, i as nat).map_values(put),
            decreases self.slots@.len() - i,
        {
            assert(all[i as int] == opt_entry(self.slots@[i as int]));
            match &self.slots[i] {
                Some(e) => {
                    let ghost before = items@;
                    items.push(entry_value(e));
                    proof {
                        lemma_json_views(before);
                        lemma_json_views(items@);
                        assert(json_views(items@) =~= json_views(before).push(entry_json(e@)));
                        assert(filled(all, (i + 1) as nat).map_values(put) =~= filled(
                            all,
                            i as nat,
                        ).map_values(put).push(put(e@)));
                    }
                },
                None => {},
            }
            i += 1;
        }
        let m0: Vec<(String, Json)> = Vec::new();
        proof {
            lemma_member_views(m0@);
            assert(member_views(m0@) =~= Seq::empty());
        }
        let m1 = with_pair(m0, "results", Json::Array(items));
        Json::Object(m1)
    }
}

/// Results of different calls can come in in either order.
pub proof fn law_arrival_order_does_not_matter(
    slots: Seq<Option<EntryView>>,
    i: int,
    a: EntryView,
    j: int,
    b: EntryView,
)
    requires
        0 <= i < slots.len(),
        0 <= j < slots.len(),
        i != j,
    ensures
        filled(slots.update(i, Some(a)).update(j, Some(b)), slots.len()) == filled(
            slots.update(j, Some(b)).update(i, Some(a)),
            slots.len(),
        ),
{
    assert(slots.update(i, Some(a)).update(j, Some(b)) =~= slots.update(j, Some(b)).update(
        i,
        Some(a),
    ));
}

/// Where each call has a result, the results stand in the order of the calls.
pub proof fn law_results_keep_their_places(slots: Seq<Option<EntryView>>, n: nat)
    requires
        n <= slots.len(),
        forall|i: int| 0 <= i < n ==> (#[trigger] slots[i]) is Some,
    ensures
        filled(slots, n).len() == n,
        forall|i: int| 0 <= i < n ==> Some(#[trigger] filled(slots, n)[i]) == slots[i],
    decreases n,
{
    if n > 0 {
        law_results_keep_their_places(slots, (n - 1) as nat);
        assert(slots[n - 1] is Some);
    }
}

} // verus!
