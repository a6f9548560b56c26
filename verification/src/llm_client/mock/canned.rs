//! Pieces of answers, and whole answers, for a model that replays them.

use crate::json::{Json, JsonView};
use crate::llm_client::{
    piece_views, ContentBlockStart, Delta, MessageDelta, MessageResponse, PieceView, ResponseView,
    StreamEvent,
};
use crate::models::{content_views, no_usage, ContentBlock, Usage};
use vstd::prelude::*;

verus! {

/// The beginning of an answer, as contracts see it.
pub open spec fn start_view(id: Seq<char>) -> PieceView {
    PieceView::MessageStart(
        ResponseView {
            id,
            message_type: "message"@,
            role: "assistant"@,
            content: Seq::empty(),
            model: "mock-model"@,
            stop_reason: None,
            stop_sequence: None,
            container: None,
            usage: no_usage(),
        },
    )
}

/// The beginning of an answer.
pub fn message_start(id: &str) -> (r: StreamEvent)
    ensures
        r@ == start_view(id@),
{
    let content: Vec<ContentBlock> = Vec::new();
    proof {
        assert(content_views(content@) =~= Seq::empty());
    }
    StreamEvent::MessageStart {
        message: MessageResponse {
            id: id.to_owned(),
            message_type: "message".to_owned(),
            role: "assistant".to_owned(),
            content,
            model: "mock-model".to_owned(),
            stop_reason: None,
            stop_sequence: None,
            container: None,
            usage: Usage::default(),
        },
    }
}

/// The beginning of a block of text.
pub fn text_block_start(index: u32) -> (r: StreamEvent)
    ensures
        r@ == PieceView::TextStart(index, ""@),
{
    StreamEvent::ContentBlockStart {
        index,
        content_block: ContentBlockStart::Text { text: "".to_owned() },
    }
}

/// A piece of text.
pub fn text_delta(index: u32, text: &str) -> (r: StreamEvent)
    ensures
        r@ == PieceView::TextDelta(index, text@),
{
    StreamEvent::ContentBlockDelta { index, delta: Delta::TextDelta { text: text.to_owned() } }
}

/// A piece of what the model thought.
pub fn thinking_delta(index: u32, thinking: &str) -> (r: StreamEvent)
    ensures
        r@ == PieceView::ThinkingDelta(index, thinking@),
{
    StreamEvent::ContentBlockDelta {
        index,
        delta: Delta::ThinkingDelta { thinking: thinking.to_owned() },
    }
}

/// The beginning of a tool call.
pub fn tool_use_block_start(index: u32, id: &str, name: &str) -> (r: StreamEvent)
    ensures
        r@ == (PieceView::ToolUseStart {
            index,
            id: id@,
            name: name@,
            input: JsonView::Null,
            caller: None,
        }),
{
    StreamEvent::ContentBlockStart {
        index,
        content_block: ContentBlockStart::ToolUse {
            id: id.to_owned(),
            name: name.to_owned(),
            input: Json::Null,
            caller: None,
        },
    }
}

/// A piece of the input of a tool call.
pub fn tool_input_delta(index: u32, partial_json: &str) -> (r: StreamEvent)
    ensures
        r@ == PieceView::InputJsonDelta(index, partial_json@),
{
    StreamEvent::ContentBlockDelta {
        index,
        delta: Delta::InputJsonDelta { partial_json: partial_json.to_owned() },
    }
}

/// The end of a block.
pub fn block_stop(index: u32) -> (r: StreamEvent)
    ensures
        r@ == PieceView::BlockStop(index),
{
    StreamEvent::ContentBlockStop { index }
}

/// Why the answer stopped, and what it used.
pub fn message_delta(stop_reason: &str, usage: Option<Usage>) -> (r: StreamEvent)
    ensures
        r@ == (PieceView::MessageDelta {
            stop_reason: Some(stop_reason@),
            stop_sequence: None,
            usage,
        }),
{
    StreamEvent::MessageDelta {
        delta: MessageDelta { stop_reason: Some(stop_reason.to_owned()), stop_sequence: None },
        usage,
    }
}

/// The end of an answer.
pub fn message_stop() -> (r: StreamEvent)
    ensures
        r == StreamEvent::MessageStop,
{
    StreamEvent::MessageStop
}

/// An answer of plain text, as contracts see it.
pub open spec fn text_turn(text: Seq<char>) -> Seq<PieceView> {
    seq![
        start_view("mock_msg_1"@),
        PieceView::TextStart(0, ""@),
        PieceView::TextDelta(0, text),
        PieceView::BlockStop(0),
        PieceView::MessageDelta {
            stop_reason: Some("end_turn"@),
            stop_sequence: None,
            usage: None,
        },
        PieceView::MessageStop,
    ]
}

/// An answer of plain text.
pub fn simple_text_turn(text: &str) -> (r: Vec<StreamEvent>)
    ensures
        piece_views(r@) == text_turn(text@),
{
    let r = vec![
        message_start("mock_msg_1"),
        text_block_start(0),
        text_delta(0, text),
        block_stop(0),
        message_delta("end_turn", None),
        message_stop(),
    ];
    proof {
        assert(piece_views(r@) =~= text_turn(text@));
    }
    r
}

/// An answer with one tool call, as contracts see it.
pub open spec fn call_turn(
    call_id: Seq<char>,
    tool_name: Seq<char>,
    args_json: Seq<char>,
) -> Seq<PieceView> {
    seq![
        start_view("mock_msg_tool"@),
        PieceView::ToolUseStart {
            index: 0,
            id: call_id,
            name: tool_name,
            input: JsonView::Null,
            caller: None,
        },
        PieceView::InputJsonDelta(0, args_json),
        PieceView::BlockStop(0),
        PieceView::MessageDelta {
            stop_reason: Some("tool_use"@),
            stop_sequence: None,
            usage: None,
        },
        PieceView::MessageStop,
    ]
}

/// An answer with one tool call.
pub fn tool_call_turn(call_id: &str, tool_name: &str, args_json: &str) -> (r: Vec<StreamEvent>)
    ensures
        piece_views(r@) == call_turn(call_id@, tool_name@, args_json@),
{
    let r = vec![
        message_start("mock_msg_tool"),
        tool_use_block_start(0, call_id, tool_name),
        tool_input_delta(0, args_json),
        block_stop(0),
        message_delta("tool_use", None),
        message_stop(),
    ];
    proof {
        assert(piece_views(r@) =~= call_turn(call_id@, tool_name@, args_json@));
    }
    r
}

/// A text that is sent as an answer of plain text comes back as the text of the
/// answer that is put together from its pieces.
pub proof fn law_texts_come_back(text: Seq<char>, model: Seq<char>)
    ensures
        crate::llm_client::mock::text_of_pieces(text_turn(text), text_turn(text).len()) == text,
        crate::llm_client::mock::put_together(text_turn(text), model).stop_reason == Some(
            "end_turn"@,
        ),
{
    reveal_with_fuel(crate::llm_client::mock::text_of_pieces, 7);
    reveal_with_fuel(crate::llm_client::mock::stop_of_pieces, 7);
    assert(text_turn(text).len() == 6);
    assert(Seq::<char>::empty() + text =~= text);
}

} // verus!
