//! What goes to a model and what comes back.

pub mod mock;

use crate::json::{opt_json, Json, JsonView};
use crate::models::{
    content_views, copy_messages, message_views, opt_prompt, tool_views, ContentBlock, ContentView,
    Message, MessageView, PromptView, SystemPrompt, Tool, ToolCaller, ToolView, Usage,
};
use crate::text::opt_text;
use vstd::prelude::*;

verus! {

/// A request to a model.
#[derive(Debug)]
pub struct MessageRequest {
    pub model: String,
    pub messages: Vec<Message>,
    pub max_tokens: u32,
    pub system: Option<SystemPrompt>,
    pub tools: Option<Vec<Tool>>,
    pub tool_choice: Option<Json>,
    pub metadata: Option<Json>,
    pub thinking: Option<Json>,
    pub reasoning_effort: Option<String>,
    pub stream: Option<bool>,
    /// The temperature, as the bits of a number of 32 bits.
    pub temperature_bits: Option<u32>,
    /// The share of likely words, as the bits of a number of 32 bits.
    pub top_p_bits: Option<u32>,
}

/// A request to a model, as contracts see it.
#[verifier::ext_equal]
pub struct RequestView {
    pub model: Seq<char>,
    pub messages: Seq<MessageView>,
    pub max_tokens: u32,
    pub system: Option<PromptView>,
    pub tools: Option<Seq<ToolView>>,
    pub tool_choice: Option<JsonView>,
    pub metadata: Option<JsonView>,
    pub thinking: Option<JsonView>,
    pub reasoning_effort: Option<Seq<char>>,
    pub stream: Option<bool>,
    pub temperature_bits: Option<u32>,
    pub top_p_bits: Option<u32>,
}

impl View for MessageRequest {
    type V = RequestView;

    open spec fn view(&self) -> RequestView {
        RequestView {
            model: self.model@,
            messages: message_views(self.messages@),
            max_tokens: self.max_tokens,
            system: opt_prompt(self.system),
            tools: match self.tools {
                Some(t) => Some(tool_views(t@)),
                None => None,
            },
            tool_choice: opt_json(self.tool_choice),
            metadata: opt_json(self.metadata),
            thinking: opt_json(self.thinking),
            reasoning_effort: opt_text(self.reasoning_effort),
            stream: self.stream,
            temperature_bits: self.temperature_bits,
            top_p_bits: self.top_p_bits,
        }
    }
}

fn copy_tools(list: &Vec<Tool>) -> (r: Vec<Tool>)
    ensures
        tool_views(r@) == tool_views(list@),
{
    let mut out: Vec<Tool> = Vec::new();
    let mut i: usize = 0;
    while i < list.len()
        invariant
            i <= list@.len(),
            out@.len() == i,
            forall|k: int| 0 <= k < i ==> (#[trigger] out@[k])@ == list@[k]@,
        decreases list@.len() - i,
    {
        out.push(list[i].clone());
        i += 1;
    }
    proof {
        assert(tool_views(out@) =~= tool_views(list@));
    }
    out
}

fn copy_value(value: &Option<Json>) -> (r: Option<Json>)
    ensures
        opt_json(r) == opt_json(*value),
{
    match value {
        Some(v) => Some(v.clone()),
        None => None,
    }
}

impl Clone for MessageRequest {
    fn clone(&self) -> (r: Self)
        ensures
            r@ == self@,
    {
        MessageRequest {
            model: self.model.clone(),
            messages: copy_messages(&self.messages),
            max_tokens: self.max_tokens,
            system: match &self.system {
                Some(p) => Some(p.clone()),
                None => None,
            },
            tools: match &self.tools {
                Some(t) => Some(copy_tools(t)),
                None => None,
            },
            tool_choice: copy_value(&self.tool_choice),
            metadata: copy_value(&self.metadata),
            thinking: copy_value(&self.thinking),
            reasoning_effort: self.reasoning_effort.clone(),
            stream: self.stream,
            temperature_bits: self.temperature_bits,
            top_p_bits: self.top_p_bits,
        }
    }
}

/// An answer of a model.
#[derive(Debug)]
pub struct MessageResponse {
    pub id: String,
    pub message_type: String,
    pub role: String,
    pub content: Vec<ContentBlock>,
    pub model: String,
    pub stop_reason: Option<String>,
    pub stop_sequence: Option<String>,
    pub container: Option<Json>,
    pub usage: Usage,
}

/// An answer of a model, as contracts see it.
#[verifier::ext_equal]
pub struct ResponseView {
    pub id: Seq<char>,
    pub message_type: Seq<char>,
    pub role: Seq<char>,
    pub content: Seq<ContentView>,
    pub model: Seq<char>,
    pub stop_reason: Option<Seq<char>>,
    pub stop_sequence: Option<Seq<char>>,
    pub container: Option<JsonView>,
    pub usage: Usage,
}

impl View for MessageResponse {
    type V = ResponseView;

    open spec fn view(&self) -> ResponseView {
        ResponseView {
            id: self.id@,
            message_type: self.message_type@,
            role: self.role@,
            content: content_views(self.content@),
            model: self.model@,
            stop_reason: opt_text(self.stop_reason),
            stop_sequence: opt_text(self.stop_sequence),
            container: opt_json(self.container),
            usage: self.usage,
        }
    }
}

/// How a block of an answer begins.
#[derive(Debug)]
#[allow(inconsistent_fields)]
pub enum ContentBlockStart {
    Text { text: String },
    Thinking { thinking: String },
    ToolUse { id: String, name: String, input: Json, caller: Option<ToolCaller> },
}

/// A piece of a block.
#[derive(Debug)]
pub enum Delta {
    TextDelta { text: String },
    ThinkingDelta { thinking: String },
    InputJsonDelta { partial_json: String },
}

/// What is told of an answer at its end.
#[derive(Debug)]
pub struct MessageDelta {
    pub stop_reason: Option<String>,
    pub stop_sequence: Option<String>,
}

/// A piece of an answer.
#[derive(Debug)]
#[allow(inconsistent_fields)]
pub enum StreamEvent {
    MessageStart { message: MessageResponse },
    ContentBlockStart { index: u32, content_block: ContentBlockStart },
    ContentBlockDelta { index: u32, delta: Delta },
    ContentBlockStop { index: u32 },
    MessageDelta { delta: MessageDelta, usage: Option<Usage> },
    MessageStop,
}

/// A piece of an answer, as contracts see it.
#[verifier::ext_equal]
#[allow(inconsistent_fields)]
pub enum PieceView {
    MessageStart(ResponseView),
    TextStart(u32, Seq<char>),
    ThinkingStart(u32, Seq<char>),
    ToolUseStart {
        index: u32,
        id: Seq<char>,
        name: Seq<char>,
        input: JsonView,
        caller: Option<crate::models::CallerView>,
    },
    TextDelta(u32, Seq<char>),
    ThinkingDelta(u32, Seq<char>),
    InputJsonDelta(u32, Seq<char>),
    BlockStop(u32),
    MessageDelta {
        stop_reason: Option<Seq<char>>,
        stop_sequence: Option<Seq<char>>,
        usage: Option<Usage>,
    },
    MessageStop,
}

impl View for StreamEvent {
    type V = PieceView;

    open spec fn view(&self) -> PieceView {
        match self {
            StreamEvent::MessageStart { message } => PieceView::MessageStart(message@),
            StreamEvent::ContentBlockStart { index, content_block } => match content_block {
                ContentBlockStart::Text { text } => PieceView::TextStart(*index, text@),
                ContentBlockStart::Thinking { thinking } => PieceView::ThinkingStart(
                    *index,
                    thinking@,
                ),
                ContentBlockStart::ToolUse { id, name, input, caller } => PieceView::ToolUseStart {
                    index: *index,
                    id: id@,
                    name: name@,
                    input: input@,
                    caller: match caller {
                        Some(c) => Some(c@),
                        None => None,
                    },
                },
            },
            StreamEvent::ContentBlockDelta { index, delta } => match delta {
                Delta::TextDelta { text } => PieceView::TextDelta(*index, text@),
                Delta::ThinkingDelta { thinking } => PieceView::ThinkingDelta(*index, thinking@),
                Delta::InputJsonDelta { partial_json } => PieceView::InputJsonDelta(
                    *index,
                    partial_json@,
                ),
            },
            StreamEvent::ContentBlockStop { index } => PieceView::BlockStop(*index),
            StreamEvent::MessageDelta { delta, usage } => PieceView::MessageDelta {
                stop_reason: opt_text(delta.stop_reason),
                stop_sequence: opt_text(delta.stop_sequence),
                usage: *usage,
            },
            StreamEvent::MessageStop => PieceView::MessageStop,
        }
    }
}

/// The views of the pieces of an answer.
pub open spec fn piece_views(list: Seq<StreamEvent>) -> Seq<PieceView> {
    list.map_values(|e: StreamEvent| e@)
}

} // verus!
