use ferox_ai::cli::{
    append_chunk_text, is_quit, model_index, parse_usize, record_reply, record_streamed_reply, select_model,
    user_message,
};
use ferox_ai::models::{CompletionChunk, CompletionResponse, Message, ToolCall};

#[test]
fn selection_counts_from_one() {
    assert_eq!(select_model("1\n", 3), Some(0));
    assert_eq!(select_model("  3 ", 3), Some(2));
    assert_eq!(select_model("4", 3), None);
    assert_eq!(select_model("0", 3), None);
    assert_eq!(select_model("two", 3), None);
    assert_eq!(select_model("", 3), None);
    assert_eq!(select_model("1", 0), None);
}

#[test]
fn model_index_rejects_out_of_range() {
    assert_eq!(model_index(Some(2), 2), Some(1));
    assert_eq!(model_index(Some(3), 2), None);
    assert_eq!(model_index(None, 2), None);
}

#[test]
fn q_ends_the_session() {
    assert!(is_quit("q\n"));
    assert!(is_quit("  q  "));
    assert!(!is_quit("quit"));
    assert!(!is_quit("Q"));
}

#[test]
fn input_becomes_a_trimmed_user_message() {
    match user_message("  What is the capital of France?\n") {
        Message::User { content } => assert_eq!(content, "What is the capital of France?"),
        other => panic!("expected a user message, got {other:?}"),
    }
}

#[test]
fn streamed_text_accumulates_chunk_by_chunk() {
    let mut content = String::new();
    let mut first = CompletionChunk::new(Vec::new(), None);
    first.text = Some("Hey! ".into());
    let silent = CompletionChunk::new(Vec::new(), None);
    let mut last = CompletionChunk::new(Vec::new(), None);
    last.text = Some("How can I help?".into());
    append_chunk_text(&mut content, &first);
    append_chunk_text(&mut content, &silent);
    append_chunk_text(&mut content, &last);
    assert_eq!(content, "Hey! How can I help?");
}

#[test]
fn completed_reply_is_recorded_with_calls_and_reasoning() {
    let mut messages = vec![Message::User { content: "Add 2 and 3".into() }];
    let mut response = CompletionResponse::new(
        "m".into(),
        vec![ToolCall::new("call-1".into(), "add".into(), "{\"a\":2,\"b\":3}".into())],
    );
    response.text = Some("Calling add.".into());
    response.reasoning = Some("Needs the tool.".into());
    record_reply(&mut messages, response);
    assert_eq!(messages.len(), 2);
    match &messages[1] {
        Message::Assistant { content, tool_calls, reasoning } => {
            assert_eq!(content.as_deref(), Some("Calling add."));
            assert_eq!(reasoning.as_deref(), Some("Needs the tool."));
            assert_eq!(tool_calls.len(), 1);
            assert_eq!(tool_calls[0].id, "call-1");
        }
        other => panic!("expected an assistant message, got {other:?}"),
    }
}

#[test]
fn streamed_reply_is_recorded_as_text() {
    let mut messages = vec![Message::User { content: "Hi".into() }];
    record_streamed_reply(&mut messages, "Hello!".into());
    assert_eq!(messages.len(), 2);
    match &messages[1] {
        Message::Assistant { content, tool_calls, reasoning } => {
            assert_eq!(content.as_deref(), Some("Hello!"));
            assert!(tool_calls.is_empty());
            assert!(reasoning.is_none());
        }
        other => panic!("expected an assistant message, got {other:?}"),
    }
}

#[test]
fn numbers_read_as_std_reads_them() {
    let texts = [
        "0", "7", "+7", "007", "42", "", "+", "-", "-1", "-0", "++1", "1+", " 1", "1 ", "1_000",
        "٣", "18446744073709551615", "18446744073709551616", "99999999999999999999999",
        "4294967295", "4294967296", "+18446744073709551615",
    ];
    for text in texts {
        assert_eq!(parse_usize(text), text.parse::<usize>().ok(), "reading {text:?}");
    }
}

#[test]
fn selection_accepts_a_plus_sign_and_rejects_overflow() {
    assert_eq!(select_model("+2", 3), Some(1));
    assert_eq!(select_model("-1", 3), None);
    assert_eq!(select_model("99999999999999999999999", 3), None);
}
