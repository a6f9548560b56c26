use codewhale_tui::llm_client::mock::canned::{
    block_stop, message_delta, message_start, message_stop, simple_text_turn, text_block_start,
    text_delta, thinking_delta, tool_call_turn, tool_input_delta, tool_use_block_start,
};
use codewhale_tui::llm_client::mock::{synthesize_message_response, CannedTurn, MockLlmClient};
use codewhale_tui::llm_client::{
    ContentBlockStart, Delta, MessageRequest, MessageResponse, StreamEvent,
};
use codewhale_tui::models::{ContentBlock, Message, Usage};

type Mock = MockLlmClient<fn(&MessageRequest) -> CannedTurn>;

fn empty_request() -> MessageRequest {
    MessageRequest {
        model: "mock-model".to_string(),
        messages: vec![Message {
            role: "user".to_string(),
            content: vec![],
        }],
        max_tokens: 1024,
        system: None,
        tools: None,
        tool_choice: None,
        metadata: None,
        thinking: None,
        reasoning_effort: None,
        stream: Some(true),
        temperature_bits: None,
        top_p_bits: None,
    }
}

fn text_of(pieces: &Vec<StreamEvent>) -> String {
    let mut text = String::new();
    for piece in pieces {
        if let StreamEvent::ContentBlockDelta {
            delta: Delta::TextDelta { text: t },
            ..
        } = piece
        {
            text.push_str(t);
        }
    }
    text
}

#[test]
fn replays_canned_turn_via_stream() {
    let mut mock = Mock::new(vec![simple_text_turn("hello world")]);
    let stream = mock
        .create_message_stream(empty_request())
        .expect("stream should open");
    assert_eq!(text_of(&stream), "hello world");
    assert!(matches!(stream.last(), Some(StreamEvent::MessageStop)));
    assert_eq!(mock.call_count(), 1);
    assert_eq!(mock.captured_requests().len(), 1);
    assert_eq!(mock.remaining_turns(), 0);
}

#[test]
fn errors_when_queue_exhausted() {
    let mut mock = Mock::new(Vec::new());
    match mock.create_message_stream(empty_request()) {
        Ok(_) => panic!("should error on empty queue"),
        Err(err) => {
            assert!(err.contains("no canned"));
            assert_eq!(
                err,
                "MockLlmClient: create_message_stream called but no canned turn queued (call #1)"
            );
        }
    }
    match mock.create_message(empty_request()) {
        Ok(_) => panic!("should error on empty queue"),
        Err(err) => assert_eq!(
            err,
            "MockLlmClient: create_message called but no canned response queued (request #2)"
        ),
    }
}

#[test]
fn captures_request_payload_for_assertions() {
    let mut mock = Mock::new(vec![simple_text_turn("ok")]);
    let mut req = empty_request();
    req.temperature_bits = Some(0.42f32.to_bits());
    let _ = mock.create_message_stream(req).unwrap();

    let captured = mock.last_request().expect("should have captured");
    assert_eq!(captured.temperature_bits.map(f32::from_bits), Some(0.42));
}

#[test]
fn stream_auto_appends_message_stop() {
    let turn = vec![text_block_start(0), text_delta(0, "x")];
    let mut mock = Mock::new(vec![turn]);
    let stream = mock.create_message_stream(empty_request()).unwrap();
    let saw_stop = stream
        .iter()
        .any(|ev| matches!(ev, StreamEvent::MessageStop));
    assert!(saw_stop, "auto MessageStop missing");
    assert_eq!(stream.len(), 3);
}

#[test]
fn create_message_uses_canned_message_response_first() {
    let mut mock = Mock::new(vec![simple_text_turn("from stream")]);
    mock.push_message_response(MessageResponse {
        id: "preset".to_string(),
        message_type: "message".to_string(),
        role: "assistant".to_string(),
        content: vec![ContentBlock::Text {
            text: "from preset".to_string(),
            cache_control: None,
        }],
        model: "mock-model".to_string(),
        stop_reason: Some("end_turn".to_string()),
        stop_sequence: None,
        container: None,
        usage: Usage::default(),
    });

    let resp = mock.create_message(empty_request()).unwrap();
    assert_eq!(resp.id, "preset");
}

#[test]
fn create_message_synthesizes_from_streaming_turn_when_no_message_queued() {
    let mut mock = Mock::new(vec![simple_text_turn("synthesized")]);
    let resp = mock.create_message(empty_request()).unwrap();
    let text = match &resp.content[0] {
        ContentBlock::Text { text, .. } => text.clone(),
        _ => panic!("expected text"),
    };
    assert_eq!(text, "synthesized");
    assert_eq!(resp.stop_reason.as_deref(), Some("end_turn"));
}

fn factory(request: &MessageRequest) -> CannedTurn {
    assert_eq!(request.model, "mock-model");
    simple_text_turn("from factory")
}

#[test]
fn create_message_synthesizes_from_factory_turn() {
    let mut mock = Mock::new(Vec::new());
    mock.push_factory(factory);

    let resp = mock.create_message(empty_request()).unwrap();
    let text = match &resp.content[0] {
        ContentBlock::Text { text, .. } => text.clone(),
        _ => panic!("expected text"),
    };
    assert_eq!(text, "from factory");
}

#[test]
fn provider_and_model_are_overridable() {
    let mock = Mock::new(vec![simple_text_turn("x")])
        .with_provider("test-provider")
        .with_model("test-model".to_string());
    assert_eq!(mock.provider_name(), "test-provider");
    assert_eq!(mock.model(), "test-model");
    assert!(mock.health_check());
}

#[test]
fn tool_call_turn_serializes_correctly() {
    let mut mock = Mock::new(vec![tool_call_turn(
        "call_1",
        "list_dir",
        r#"{"path":"/tmp"}"#,
    )]);
    let stream = mock.create_message_stream(empty_request()).unwrap();
    let mut saw_tool_use = false;
    let mut json_seen = String::new();
    for ev in &stream {
        match ev {
            StreamEvent::ContentBlockStart {
                content_block: ContentBlockStart::ToolUse { name, .. },
                ..
            } => {
                assert_eq!(name, "list_dir");
                saw_tool_use = true;
            }
            StreamEvent::ContentBlockDelta {
                delta: Delta::InputJsonDelta { partial_json },
                ..
            } => json_seen.push_str(partial_json),
            _ => {}
        }
    }
    assert!(saw_tool_use, "expected tool_use start event");
    assert!(json_seen.contains("/tmp"));
}

#[test]
fn multiple_turns_consumed_in_order() {
    let mut mock = Mock::new(vec![
        simple_text_turn("turn-one"),
        simple_text_turn("turn-two"),
    ]);
    for expected in ["turn-one", "turn-two"] {
        let stream = mock.create_message_stream(empty_request()).unwrap();
        assert_eq!(text_of(&stream), expected);
    }
    assert_eq!(mock.call_count(), 2);
    assert_eq!(mock.remaining_turns(), 0);
}

#[test]
fn pieces_hold_what_they_are_made_of() {
    assert!(matches!(message_start("m"), StreamEvent::MessageStart { message } if message.id == "m"));
    assert!(matches!(
        thinking_delta(2, "hm"),
        StreamEvent::ContentBlockDelta { index: 2, delta: Delta::ThinkingDelta { thinking } } if thinking == "hm"
    ));
    assert!(matches!(
        tool_use_block_start(1, "id", "name"),
        StreamEvent::ContentBlockStart { index: 1, .. }
    ));
    assert!(matches!(tool_input_delta(1, "{"), StreamEvent::ContentBlockDelta { index: 1, .. }));
    assert!(matches!(block_stop(4), StreamEvent::ContentBlockStop { index: 4 }));
    assert!(matches!(message_stop(), StreamEvent::MessageStop));
}

#[test]
fn last_reason_to_stop_counts() {
    let mut mock = Mock::new(Vec::new());
    mock.push_turn(vec![
        message_delta("max_tokens", None),
        text_delta(0, "a"),
        message_delta("tool_use", None),
    ]);
    let response = mock.create_message(empty_request()).unwrap();
    assert_eq!(response.stop_reason, Some("tool_use".to_string()));
    let silent = synthesize_message_response(&vec![text_delta(0, "a"), text_delta(1, "b")], "m");
    assert_eq!(silent.stop_reason, Some("end_turn".to_string()));
    assert_eq!(silent.model, "m");
}
