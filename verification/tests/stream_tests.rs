use ferox_ai::error::LlmError;
use ferox_ai::models::FinishReason;
use ferox_ai::openai_compatible::models::{
    ChatCompletionsStreamChoice, ChatCompletionsStreamDelta, ChatCompletionsStreamResponse,
    ChatCompletionsToolCallDelta, ChatCompletionsToolCallFunctionDelta, ChoicesFinishReason,
    PendingToolCall,
};
use ferox_ai::openai_compatible::stream::StreamAssembler;
use ferox_ai::openai_compatible::OpenAiClientError;

fn fragment(index: usize, id: Option<&str>, name: Option<&str>, arguments: Option<&str>) -> ChatCompletionsToolCallDelta {
    ChatCompletionsToolCallDelta {
        index,
        id: id.map(str::to_string),
        function: ChatCompletionsToolCallFunctionDelta {
            name: name.map(str::to_string),
            arguments: arguments.map(str::to_string),
        },
    }
}

fn update(
    content: Option<&str>,
    reasoning: Option<&str>,
    tool_calls: Vec<ChatCompletionsToolCallDelta>,
    finish_reason: Option<ChoicesFinishReason>,
) -> ChatCompletionsStreamResponse {
    ChatCompletionsStreamResponse {
        choices: vec![ChatCompletionsStreamChoice {
            delta: ChatCompletionsStreamDelta {
                content: content.map(str::to_string),
                reasoning_content: reasoning.map(str::to_string),
                tool_calls,
            },
            finish_reason,
        }],
    }
}

#[test]
fn text_and_reasoning_pass_through_until_finish() {
    let mut assembler = StreamAssembler::new();
    let first = assembler.accept(Ok(update(Some(""), None, Vec::new(), None))).unwrap();
    assert_eq!(first.text.as_deref(), Some(""));
    assert!(first.finished_reason.is_none());

    let reasoning = assembler.accept(Ok(update(None, Some("Here"), Vec::new(), None))).unwrap();
    assert_eq!(reasoning.reasoning.as_deref(), Some("Here"));
    assert!(reasoning.text.is_none());

    let last = assembler
        .accept(Ok(update(Some("Hi"), None, Vec::new(), Some(ChoicesFinishReason::Stop))))
        .unwrap();
    assert_eq!(last.text.as_deref(), Some("Hi"));
    assert!(matches!(last.finished_reason, Some(FinishReason::Stop)));
    assert!(last.tool_calls.is_empty());
}

#[test]
fn update_without_choices_is_an_empty_chunk() {
    let mut assembler = StreamAssembler::new();
    let chunk = assembler.accept(Ok(ChatCompletionsStreamResponse { choices: Vec::new() })).unwrap();
    assert!(chunk.text.is_none());
    assert!(chunk.reasoning.is_none());
    assert!(chunk.tool_calls.is_empty());
    assert!(chunk.finished_reason.is_none());
}

#[test]
fn tool_calls_are_assembled_and_released_in_index_order() {
    let mut assembler = StreamAssembler::new();
    let chunk = assembler
        .accept(Ok(update(
            None,
            None,
            vec![
                fragment(1, Some("call-b"), Some("second"), Some("{\"x\"")),
                fragment(0, Some("call-a"), Some("add_two_numbers"), Some("{\"first_number\":")),
            ],
            None,
        )))
        .unwrap();
    assert!(chunk.tool_calls.is_empty());

    assert!(assembler
        .accept(Ok(update(None, None, vec![fragment(0, None, None, Some("12}"))], None)))
        .unwrap()
        .tool_calls
        .is_empty());

    let last = assembler
        .accept(Ok(update(
            None,
            None,
            vec![fragment(1, None, None, Some(":1}"))],
            Some(ChoicesFinishReason::ToolCalls),
        )))
        .unwrap();
    assert!(matches!(last.finished_reason, Some(FinishReason::ToolCalls)));
    assert_eq!(last.tool_calls.len(), 2);
    assert_eq!(last.tool_calls[0].id, "call-a");
    assert_eq!(last.tool_calls[0].name, "add_two_numbers");
    assert_eq!(last.tool_calls[0].arguments, "{\"first_number\":12}");
    assert_eq!(last.tool_calls[1].id, "call-b");
    assert_eq!(last.tool_calls[1].arguments, "{\"x\":1}");

    let after = assembler
        .accept(Ok(update(None, None, Vec::new(), Some(ChoicesFinishReason::Stop))))
        .unwrap();
    assert!(after.tool_calls.is_empty());
}

#[test]
fn tool_call_without_id_is_an_error() {
    let mut assembler = StreamAssembler::new();
    let result = assembler.accept(Ok(update(
        None,
        None,
        vec![fragment(0, None, Some("f"), Some("{}"))],
        Some(ChoicesFinishReason::ToolCalls),
    )));
    assert!(matches!(result,
        Err(LlmError::InvalidResponse { ref message }) if message == "streamed tool call was missing an id"));
}

#[test]
fn tool_call_without_name_is_an_error() {
    let mut assembler = StreamAssembler::new();
    let result = assembler.accept(Ok(update(
        None,
        None,
        vec![fragment(0, Some("id"), None, None)],
        Some(ChoicesFinishReason::ToolCalls),
    )));
    assert!(matches!(result,
        Err(LlmError::InvalidResponse { ref message }) if message == "streamed tool call was missing a function name"));
}

#[test]
fn stream_errors_are_mapped_and_keep_pending_calls() {
    let mut assembler = StreamAssembler::new();
    assembler
        .accept(Ok(update(None, None, vec![fragment(0, Some("id"), Some("f"), Some("[1"))], None)))
        .unwrap();
    let error = assembler.accept(Err(OpenAiClientError::Decode { message: "bad".into() }));
    assert!(matches!(error, Err(LlmError::InvalidResponse { ref message }) if message == "bad"));
    let last = assembler
        .accept(Ok(update(None, None, vec![fragment(0, None, None, Some("]"))], Some(ChoicesFinishReason::Length))))
        .unwrap();
    assert_eq!(last.tool_calls.len(), 1);
    assert_eq!(last.tool_calls[0].arguments, "[1]");
    assert!(matches!(last.finished_reason, Some(FinishReason::Length)));
}

#[test]
fn pending_call_applies_fragments() {
    let mut pending = PendingToolCall::default();
    pending.apply(&fragment(0, Some("a"), None, Some("{")));
    pending.apply(&fragment(0, Some("b"), Some("n"), None));
    pending.apply(&fragment(0, None, None, Some("}")));
    let call = pending.finish().unwrap();
    assert_eq!(call.id, "b");
    assert_eq!(call.name, "n");
    assert_eq!(call.arguments, "{}");
}

#[test]
fn empty_fragment_changes_nothing() {
    let mut pending = PendingToolCall::default();
    pending.apply(&fragment(0, Some("id"), Some("f"), Some("[1")));
    pending.apply(&fragment(0, None, None, None));
    pending.apply(&fragment(0, None, None, Some("]")));
    let call = pending.finish().unwrap();
    assert_eq!(call.id, "id");
    assert_eq!(call.name, "f");
    assert_eq!(call.arguments, "[1]");
}

#[test]
fn each_finish_releases_only_the_calls_since_the_previous_one() {
    let mut assembler = StreamAssembler::new();
    assembler
        .accept(Ok(update(None, None, vec![fragment(0, Some("call-1"), Some("first"), Some("{"))], None)))
        .unwrap();
    let first = assembler
        .accept(Ok(update(
            None,
            None,
            vec![fragment(0, None, None, Some("}"))],
            Some(ChoicesFinishReason::ToolCalls),
        )))
        .unwrap();
    assert_eq!(first.tool_calls.len(), 1);
    assert_eq!(first.tool_calls[0].id, "call-1");
    assert_eq!(first.tool_calls[0].arguments, "{}");

    let middle = assembler
        .accept(Ok(update(None, None, vec![fragment(0, Some("call-2"), Some("second"), Some("[1"))], None)))
        .unwrap();
    assert!(middle.tool_calls.is_empty());
    let second = assembler
        .accept(Ok(update(
            None,
            None,
            vec![fragment(0, None, None, Some("]"))],
            Some(ChoicesFinishReason::ToolCalls),
        )))
        .unwrap();
    assert_eq!(second.tool_calls.len(), 1);
    assert_eq!(second.tool_calls[0].id, "call-2");
    assert_eq!(second.tool_calls[0].name, "second");
    assert_eq!(second.tool_calls[0].arguments, "[1]");
}
