//! The data exchanged with a model: prompts, messages, usage and tool results.

use crate::json::{copy_items, json_views, opt_json, Json, JsonView};
use crate::text::{copy_texts, opt_text, opt_texts};
use vstd::prelude::*;

verus! {

/// How a block of text is to be cached by the provider.
#[derive(Debug)]
pub struct CacheControl {
    pub cache_type: String,
}

impl Clone for CacheControl {
    fn clone(&self) -> (r: Self)
        ensures
            r == *self,
    {
        CacheControl { cache_type: self.cache_type.clone() }
    }
}

/// One block of a system prompt.
#[derive(Debug)]
pub struct SystemBlock {
    pub block_type: String,
    pub text: String,
    pub cache_control: Option<CacheControl>,
}

impl Clone for SystemBlock {
    fn clone(&self) -> (r: Self)
        ensures
            r == *self,
    {
        SystemBlock {
            block_type: self.block_type.clone(),
            text: self.text.clone(),
            cache_control: match &self.cache_control {
                Some(c) => Some(c.clone()),
                None => None,
            },
        }
    }
}

/// The instructions a conversation opens with.
#[derive(Debug)]
pub enum SystemPrompt {
    Text(String),
    Blocks(Vec<SystemBlock>),
}

/// One block of a system prompt as contracts see it.
#[verifier::ext_equal]
pub struct BlockView {
    pub block_type: Seq<char>,
    pub text: Seq<char>,
    pub cache_type: Option<Seq<char>>,
}

/// A system prompt as contracts see it.
#[verifier::ext_equal]
pub enum PromptView {
    Text(Seq<char>),
    Blocks(Seq<BlockView>),
}

impl View for SystemBlock {
    type V = BlockView;

    open spec fn view(&self) -> BlockView {
        BlockView {
            block_type: self.block_type@,
            text: self.text@,
            cache_type: match self.cache_control {
                Some(c) => Some(c.cache_type@),
                None => None,
            },
        }
    }
}

/// The views of a list of blocks.
pub open spec fn block_views(blocks: Seq<SystemBlock>) -> Seq<BlockView> {
    blocks.map_values(|b: SystemBlock| b@)
}

impl View for SystemPrompt {
    type V = PromptView;

    open spec fn view(&self) -> PromptView {
        match self {
            SystemPrompt::Text(s) => PromptView::Text(s@),
            SystemPrompt::Blocks(blocks) => PromptView::Blocks(block_views(blocks@)),
        }
    }
}

/// The view of an optional prompt.
pub open spec fn opt_prompt(p: Option<SystemPrompt>) -> Option<PromptView> {
    match p {
        Some(q) => Some(q@),
        None => None,
    }
}

/// The view of an optional borrowed prompt.
pub open spec fn opt_prompt_ref(p: Option<&SystemPrompt>) -> Option<PromptView> {
    match p {
        Some(q) => Some(q@),
        None => None,
    }
}

/// A copy of a list of blocks.
pub fn copy_blocks(v: &Vec<SystemBlock>) -> (r: Vec<SystemBlock>)
    ensures
        r@ == v@,
{
    let mut out: Vec<SystemBlock> = Vec::new();
    let mut i: usize = 0;
    while i < v.len()
        invariant
            i <= v@.len(),
            out@ =~= v@.take(i as int),
        decreases v@.len() - i,
    {
        out.push(v[i].clone());
        i += 1;
    }
    proof {
        assert(v@.take(v@.len() as int) =~= v@);
    }
    out
}

impl Clone for SystemPrompt {
    fn clone(&self) -> (r: Self)
        ensures
            r@ == self@,
    {
        match self {
            SystemPrompt::Text(s) => SystemPrompt::Text(s.clone()),
            SystemPrompt::Blocks(b) => SystemPrompt::Blocks(copy_blocks(b)),
        }
    }
}

/// What a tool call produced.
#[derive(Debug)]
pub struct ToolResult {
    pub content: String,
    pub success: bool,
    pub metadata: Option<Json>,
}

/// A tool result as contracts see it.
#[verifier::ext_equal]
pub struct ToolResultView {
    pub content: Seq<char>,
    pub success: bool,
    pub metadata: Option<JsonView>,
}

impl View for ToolResult {
    type V = ToolResultView;

    open spec fn view(&self) -> ToolResultView {
        ToolResultView {
            content: self.content@,
            success: self.success,
            metadata: opt_json(self.metadata),
        }
    }
}

/// Why a tool call did not produce a result.
#[derive(Debug)]
pub enum ToolError {
    InvalidInput { message: String },
    MissingField { field: String },
    PathEscape { path: String },
    ExecutionFailed { message: String },
    Timeout { seconds: u64 },
    NotAvailable { message: String },
    PermissionDenied { message: String },
}

/// A tool error as contracts see it.
#[verifier::ext_equal]
pub enum ToolErrorView {
    InvalidInput(Seq<char>),
    MissingField(Seq<char>),
    PathEscape(Seq<char>),
    ExecutionFailed(Seq<char>),
    Timeout(u64),
    NotAvailable(Seq<char>),
    PermissionDenied(Seq<char>),
}

impl View for ToolError {
    type V = ToolErrorView;

    open spec fn view(&self) -> ToolErrorView {
        match self {
            ToolError::InvalidInput { message } => ToolErrorView::InvalidInput(message@),
            ToolError::MissingField { field } => ToolErrorView::MissingField(field@),
            ToolError::PathEscape { path } => ToolErrorView::PathEscape(path@),
            ToolError::ExecutionFailed { message } => ToolErrorView::ExecutionFailed(message@),
            ToolError::Timeout { seconds } => ToolErrorView::Timeout(*seconds),
            ToolError::NotAvailable { message } => ToolErrorView::NotAvailable(message@),
            ToolError::PermissionDenied { message } => ToolErrorView::PermissionDenied(message@),
        }
    }
}

/// The view of the outcome of a tool call.
pub open spec fn outcome_view(r: Result<ToolResult, ToolError>) -> Result<
    ToolResultView,
    ToolErrorView,
> {
    match r {
        Ok(t) => Ok(t@),
        Err(e) => Err(e@),
    }
}

/// Who asks for a tool call, where it is not the model itself.
#[derive(Debug)]
pub struct ToolCaller {
    pub caller_type: String,
    pub tool_id: Option<String>,
}

/// A tool as it is offered to a model.
#[derive(Debug)]
pub struct Tool {
    pub tool_type: Option<String>,
    pub name: String,
    pub description: String,
    pub input_schema: Json,
    pub allowed_callers: Option<Vec<String>>,
    pub defer_loading: Option<bool>,
    pub input_examples: Option<Vec<Json>>,
    pub strict: Option<bool>,
    pub cache_control: Option<CacheControl>,
}

/// The modes a session can be in.
#[derive(Debug, Clone, Copy, PartialEq, Eq, Structural)]
pub enum AppMode {
    Agent,
    Plan,
    Yolo,
    Operate,
    Auto,
}

/// A tool as contracts see it.
#[verifier::ext_equal]
pub struct ToolView {
    pub tool_type: Option<Seq<char>>,
    pub name: Seq<char>,
    pub description: Seq<char>,
    pub input_schema: JsonView,
    pub allowed_callers: Option<Seq<Seq<char>>>,
    pub defer_loading: Option<bool>,
    pub input_examples: Option<Seq<JsonView>>,
    pub strict: Option<bool>,
    pub cache_type: Option<Seq<char>>,
}

impl View for Tool {
    type V = ToolView;

    open spec fn view(&self) -> ToolView {
        ToolView {
            tool_type: opt_text(self.tool_type),
            name: self.name@,
            description: self.description@,
            input_schema: self.input_schema@,
            allowed_callers: opt_texts(self.allowed_callers),
            defer_loading: self.defer_loading,
            input_examples: match self.input_examples {
                Some(v) => Some(json_views(v@)),
                None => None,
            },
            strict: self.strict,
            cache_type: match self.cache_control {
                Some(c) => Some(c.cache_type@),
                None => None,
            },
        }
    }
}

impl Clone for Tool {
    fn clone(&self) -> (r: Self)
        ensures
            r@ == self@,
    {
        Tool {
            tool_type: self.tool_type.clone(),
            name: self.name.clone(),
            description: self.description.clone(),
            input_schema: self.input_schema.clone(),
            allowed_callers: match &self.allowed_callers {
                Some(v) => Some(copy_texts(v)),
                None => None,
            },
            defer_loading: self.defer_loading,
            input_examples: match &self.input_examples {
                Some(v) => Some(copy_items(v)),
                None => None,
            },
            strict: self.strict,
            cache_control: match &self.cache_control {
                Some(c) => Some(c.clone()),
                None => None,
            },
        }
    }
}

/// The views of a list of tools.
pub open spec fn tool_views(tools: Seq<Tool>) -> Seq<ToolView> {
    tools.map_values(|t: Tool| t@)
}

/// One block of a message.
#[derive(Debug)]
pub enum ContentBlock {
    Text { text: String, cache_control: Option<CacheControl> },
    Thinking { thinking: String },
    ToolUse { id: String, name: String, input: Json, caller: Option<ToolCaller> },
    ToolResult { tool_use_id: String, content: String, is_error: Option<bool> },
}

/// One message of a conversation.
#[derive(Debug)]
pub struct Message {
    pub role: String,
    pub content: Vec<ContentBlock>,
}

/// Who asks for a tool call, as contracts see it.
#[verifier::ext_equal]
pub struct CallerView {
    pub caller_type: Seq<char>,
    pub tool_id: Option<Seq<char>>,
}

/// One block of a message, as contracts see it.
#[verifier::ext_equal]
#[allow(inconsistent_fields)]
pub enum ContentView {
    Text { text: Seq<char>, cache_type: Option<Seq<char>> },
    Thinking(Seq<char>),
    ToolUse { id: Seq<char>, name: Seq<char>, input: JsonView, caller: Option<CallerView> },
    ToolResult { tool_use_id: Seq<char>, content: Seq<char>, is_error: Option<bool> },
}

/// One message of a conversation, as contracts see it.
#[verifier::ext_equal]
pub struct MessageView {
    pub role: Seq<char>,
    pub content: Seq<ContentView>,
}

impl View for ToolCaller {
    type V = CallerView;

    open spec fn view(&self) -> CallerView {
        CallerView { caller_type: self.caller_type@, tool_id: opt_text(self.tool_id) }
    }
}

impl View for ContentBlock {
    type V = ContentView;

    open spec fn view(&self) -> ContentView {
        match self {
            ContentBlock::Text { text, cache_control } => ContentView::Text {
                text: text@,
                cache_type: match cache_control {
                    Some(c) => Some(c.cache_type@),
                    None => None,
                },
            },
            ContentBlock::Thinking { thinking } => ContentView::Thinking(thinking@),
            ContentBlock::ToolUse { id, name, input, caller } => ContentView::ToolUse {
                id: id@,
                name: name@,
                input: input@,
                caller: match caller {
                    Some(c) => Some(c@),
                    None => None,
                },
            },
            ContentBlock::ToolResult { tool_use_id, content, is_error } =>
                ContentView::ToolResult {
                tool_use_id: tool_use_id@,
                content: content@,
                is_error: *is_error,
            },
        }
    }
}

impl View for Message {
    type V = MessageView;

    open spec fn view(&self) -> MessageView {
        MessageView { role: self.role@, content: content_views(self.content@) }
    }
}

/// The views of the blocks of a message.
pub open spec fn content_views(list: Seq<ContentBlock>) -> Seq<ContentView> {
    list.map_values(|b: ContentBlock| b@)
}

/// The views of a list of messages.
pub open spec fn message_views(list: Seq<Message>) -> Seq<MessageView> {
    list.map_values(|m: Message| m@)
}

impl Clone for ToolCaller {
    fn clone(&self) -> (r: Self)
        ensures
            r@ == self@,
    {
        ToolCaller { caller_type: self.caller_type.clone(), tool_id: self.tool_id.clone() }
    }
}

impl Clone for ContentBlock {
    fn clone(&self) -> (r: Self)
        ensures
            r@ == self@,
    {
        match self {
            ContentBlock::Text { text, cache_control } => ContentBlock::Text {
                text: text.clone(),
                cache_control: match cache_control {
                    Some(c) => Some(c.clone()),
                    None => None,
                },
            },
            ContentBlock::Thinking { thinking } => ContentBlock::Thinking {
                thinking: thinking.clone(),
            },
            ContentBlock::ToolUse { id, name, input, caller } => ContentBlock::ToolUse {
                id: id.clone(),
                name: name.clone(),
                input: input.clone(),
                caller: match caller {
                    Some(c) => Some(c.clone()),
                    None => None,
                },
            },
            ContentBlock::ToolResult { tool_use_id, content, is_error } =>
                ContentBlock::ToolResult {
                tool_use_id: tool_use_id.clone(),
                content: content.clone(),
                is_error: *is_error,
            },
        }
    }
}

/// A copy of the blocks of a message.
pub fn copy_content(list: &Vec<ContentBlock>) -> (r: Vec<ContentBlock>)
    ensures
        content_views(r@) == content_views(list@),
{
    let mut out: Vec<ContentBlock> = Vec::new();
    let mut i: usize = 0;
    while i < list.len()
        invariant
            i <= list@.len(),
            out@.len() == i,
            forall|k: int| 0 <= k < i ==> (#[trigger] out@[k])@ == list@[k]@,
        decreases list@.len() - i,
    {
        out.push(list[i].clone());
        i += 1;
    }
    proof {
        assert(content_views(out@) =~= content_views(list@));
    }
    out
}

impl Clone for Message {
    fn clone(&self) -> (r: Self)
        ensures
            r@ == self@,
    {
        Message { role: self.role.clone(), content: copy_content(&self.content) }
    }
}

/// A copy of a list of messages.
pub fn copy_messages(list: &Vec<Message>) -> (r: Vec<Message>)
    ensures
        message_views(r@) == message_views(list@),
{
    let mut out: Vec<Message> = Vec::new();
    let mut i: usize = 0;
    while i < list.len()
        invariant
            i <= list@.len(),
            out@.len() == i,
            forall|k: int| 0 <= k < i ==> (#[trigger] out@[k])@ == list@[k]@,
        decreases list@.len() - i,
    {
        out.push(list[i].clone());
        i += 1;
    }
    proof {
        assert(message_views(out@) =~= message_views(list@));
    }
    out
}

/// What a provider's own tools were used for.
#[derive(Debug, Clone, Copy, PartialEq, Eq, Structural)]
pub struct ServerToolUsage {
    pub code_execution_requests: Option<u32>,
    pub tool_search_requests: Option<u32>,
}

/// The tokens that one request used.
#[derive(Debug, Clone, Copy, PartialEq, Eq, Structural)]
pub struct Usage {
    pub input_tokens: u32,
    pub output_tokens: u32,
    pub prompt_cache_hit_tokens: Option<u32>,
    pub prompt_cache_miss_tokens: Option<u32>,
    pub reasoning_tokens: Option<u32>,
    pub reasoning_replay_tokens: Option<u32>,
    pub server_tool_use: Option<ServerToolUsage>,
}

/// No tokens at all, and nothing reported.
pub open spec fn no_usage() -> Usage {
    Usage {
        input_tokens: 0,
        output_tokens: 0,
        prompt_cache_hit_tokens: None,
        prompt_cache_miss_tokens: None,
        reasoning_tokens: None,
        reasoning_replay_tokens: None,
        server_tool_use: None,
    }
}

impl Default for Usage {
    fn default() -> (r: Self)
        ensures
            r == no_usage(),
    {
        Usage {
            input_tokens: 0,
            output_tokens: 0,
            prompt_cache_hit_tokens: None,
            prompt_cache_miss_tokens: None,
            reasoning_tokens: None,
            reasoning_replay_tokens: None,
            server_tool_use: None,
        }
    }
}

} // verus!
