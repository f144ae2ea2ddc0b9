use ferox_ai::error::{GatewayError, LlmError};
use ferox_ai::models::{CompletionRequest, Message, ReasoningEffort, Tool, ToolParameterProperty, ToolParameterPropertyType};
use ferox_ai::openai_compatible::client::{
    chat_completions_request, completion_response, domain_models, is_success, response_body,
};
use ferox_ai::openai_compatible::models::{
    ChatCompletionChoices, ChatCompletionToolCall, ChatCompletionToolCallFunction,
    ChatCompletionsMessage, ChatCompletionsMessageRequest, ChatCompletionsResponse, ProviderModel,
};
use ferox_ai::openai_compatible::{ClientBuildError, OpenAiClientError, OpenAiCompatibleClient};
use ferox_ai::gateway::forward;
use ferox_ai::Gateway;
use std::time::Duration;

fn status_error(code: u16, body: &str) -> GatewayError {
    let result: Result<String, OpenAiClientError> = response_body(code, body.to_string());
    let mapped: Result<String, LlmError> = result.map_err(LlmError::from);
    match forward(mapped) {
        Ok(_) => panic!("status {code} should be an error"),
        Err(error) => error,
    }
}

#[test]
fn provider_unavailable_preserves_status_and_body() {
    match status_error(503, "model backend failed") {
        GatewayError::Llm(LlmError::ProviderUnavailable { code, message }) => {
            assert_eq!(code, 503);
            assert_eq!(message, "model backend failed");
        }
        other => panic!("expected provider unavailable, got {other:?}"),
    }
}

#[test]
fn invalid_request_preserves_provider_body() {
    match status_error(400, "unsupported reasoning effort: max") {
        GatewayError::Llm(LlmError::InvalidRequest { message }) => {
            assert_eq!(message, "unsupported reasoning effort: max");
        }
        other => panic!("expected invalid request, got {other:?}"),
    }
}

#[test]
fn unprocessable_request_preserves_provider_body() {
    match status_error(422, "reasoning effort is not supported") {
        GatewayError::Llm(LlmError::InvalidRequest { message }) => {
            assert_eq!(message, "reasoning effort is not supported");
        }
        other => panic!("expected invalid request, got {other:?}"),
    }
}

#[test]
fn provider_unavailable_without_body_still_preserves_status() {
    match status_error(500, "") {
        GatewayError::Llm(LlmError::ProviderUnavailable { code, message }) => {
            assert_eq!(code, 500);
            assert!(message.is_empty());
        }
        other => panic!("expected provider unavailable, got {other:?}"),
    }
}

#[test]
fn authentication_failure_is_mapped_from_401() {
    assert!(matches!(
        status_error(401, "invalid key"),
        GatewayError::Llm(LlmError::AuthenticationFailed)
    ));
}

#[test]
fn permission_denied_is_mapped_from_403() {
    assert!(matches!(
        status_error(403, "forbidden model"),
        GatewayError::Llm(LlmError::PermissionDenied)
    ));
}

#[test]
fn rate_limit_is_mapped_from_429() {
    assert!(matches!(
        status_error(429, "slow down"),
        GatewayError::Llm(LlmError::RateLimited { retry_after: None })
    ));
}

#[test]
fn timeout_is_mapped_from_408() {
    assert!(matches!(
        status_error(408, "request timed out"),
        GatewayError::Llm(LlmError::Timeout)
    ));
}

#[test]
fn other_client_errors_are_mapped_to_provider_failure() {
    assert!(matches!(
        status_error(404, "model not found"),
        GatewayError::Llm(LlmError::ProviderFailure { message })
            if message == "model not found"
    ));
}

#[test]
fn streaming_provider_error_is_returned_before_stream_creation() {
    let messages = vec![Message::User { content: "Hello".into() }];
    let request = chat_completions_request(CompletionRequest::new("m".into(), &messages), true);
    assert!(request.stream);

    let code: u16 = 503;
    assert!(!is_success(code));
    let error = forward::<()>(Err(LlmError::from(OpenAiClientError::Status {
        code,
        body: "stream backend failed".into(),
    })))
    .unwrap_err();
    assert!(matches!(
        error,
        GatewayError::Llm(LlmError::ProviderUnavailable { code: 503, message })
            if message == "stream backend failed"
    ));
}

#[test]
fn status_bounds_decide_success() {
    assert_eq!(response_body(200, "ok".into()).unwrap(), "ok");
    assert_eq!(response_body(299, "ok".into()).unwrap(), "ok");
    assert!(matches!(
        response_body(300, "moved".into()),
        Err(OpenAiClientError::Status { code: 300, ref body }) if body == "moved"
    ));
    assert!(matches!(
        response_body(199, "".into()),
        Err(OpenAiClientError::Status { code: 199, .. })
    ));
}

#[test]
fn server_status_range_ends_at_599() {
    assert!(matches!(
        LlmError::from(OpenAiClientError::Status { code: 599, body: "x".into() }),
        LlmError::ProviderUnavailable { code: 599, .. }
    ));
    assert!(matches!(
        LlmError::from(OpenAiClientError::Status { code: 600, body: "x".into() }),
        LlmError::ProviderFailure { ref message } if message == "x"
    ));
}

#[test]
fn transport_decode_and_utf8_failures_are_mapped() {
    assert!(matches!(
        LlmError::from(OpenAiClientError::Transport { timed_out: true, message: "t".into() }),
        LlmError::Timeout
    ));
    assert!(matches!(
        LlmError::from(OpenAiClientError::Transport { timed_out: false, message: "refused".into() }),
        LlmError::Transport { ref message } if message == "refused"
    ));
    assert!(matches!(
        LlmError::from(OpenAiClientError::Decode { message: "bad json".into() }),
        LlmError::InvalidResponse { ref message } if message == "bad json"
    ));
    assert!(matches!(
        LlmError::from(OpenAiClientError::Utf8 { message: "bad utf8".into() }),
        LlmError::InvalidResponse { ref message } if message == "bad utf8"
    ));
}

#[test]
fn build_without_base_url_fails() {
    let result = OpenAiCompatibleClient::builder().api_key("key").build();
    assert!(matches!(result, Err(ClientBuildError::MissingBaseUrl)));
}

#[test]
fn build_with_base_url_gives_endpoints() {
    let client = OpenAiCompatibleClient::builder()
        .base_url("http://localhost:8080/v1")
        .api_key("secret")
        .timeout(Duration::from_secs(5))
        .build()
        .expect("client should build");
    assert_eq!(client.models_url(), "http://localhost:8080/v1/models");
    assert_eq!(client.chat_completions_url(), "http://localhost:8080/v1/chat/completions");
    assert_eq!(client.api_key(), Some("secret"));
}

#[test]
fn build_without_api_key_sends_none() {
    let client = OpenAiCompatibleClient::builder()
        .base_url("http://example")
        .build()
        .unwrap();
    assert_eq!(client.api_key(), None);
}

#[test]
fn reasoning_effort_is_omitted_when_not_supplied() {
    let messages = [Message::User { content: "Hello".into() }];
    let request = CompletionRequest::new("qwen3.6-35b".into(), &messages);

    let provider = chat_completions_request(request, false);

    assert_eq!(provider.model, "qwen3.6-35b");
    assert!(!provider.stream);
    assert!(provider.tools.is_none());
    assert!(provider.reasoning_effort.is_none());
    assert_eq!(provider.messages.len(), 1);
    assert!(matches!(&provider.messages[0],
        ChatCompletionsMessageRequest::User { content } if content == "Hello"));
}

#[test]
fn reasoning_effort_is_sent_when_supplied() {
    let messages = [Message::User { content: "Hello".into() }];
    let mut request = CompletionRequest::new("qwen3.6-35b".into(), &messages);
    request.reasoning_effort = Some(ReasoningEffort::Medium);

    let provider = chat_completions_request(request, false);

    assert_eq!(provider.reasoning_effort.as_deref(), Some("medium"));
}

#[test]
fn reasoning_effort_is_sent_for_streaming_requests() {
    let messages = [Message::User { content: "Hello".into() }];
    let mut request = CompletionRequest::new("qwen3.6-35b".into(), &messages);
    request.reasoning_effort = Some(ReasoningEffort::High);

    let provider = chat_completions_request(request, true);

    assert!(provider.stream);
    assert_eq!(provider.reasoning_effort.as_deref(), Some("high"));
}

#[test]
fn registered_tools_are_sent_to_openai_compatible_provider() {
    let messages = [
        Message::System { content: "Use get_weather for weather questions.".into() },
        Message::User { content: "What is the weather in Leeds, United Kingdom?".into() },
    ];
    let mut unit = ToolParameterProperty::new("unit", ToolParameterPropertyType::String, "Temperature unit");
    unit.property_enum = Some(vec!["celsius".into(), "fahrenheit".into()]);
    let tools = vec![
        Tool::new("get_weather", "Get the current weather for a location")
            .required_parameter(ToolParameterProperty::new(
                "location",
                ToolParameterPropertyType::String,
                "City and country",
            ))
            .optional_parameter(unit),
        Tool::new("get_current_time", "Get the current time for a timezone").required_parameter(
            ToolParameterProperty::new("timezone", ToolParameterPropertyType::String, "IANA timezone"),
        ),
    ];
    let mut request = CompletionRequest::new("qwen3.6-35b".into(), &messages);
    request.tools = Some(tools);

    let provider = chat_completions_request(request, false);

    assert_eq!(provider.messages.len(), 2);
    assert!(matches!(&provider.messages[0], ChatCompletionsMessageRequest::System { .. }));
    let tools = provider.tools.as_ref().unwrap();
    assert_eq!(tools.len(), 2);
    assert_eq!(tools[0].function.name, "get_weather");
    assert_eq!(tools[0].function.parameters.as_ref().unwrap().required, ["location"]);
    assert_eq!(tools[1].function.name, "get_current_time");
    let time_parameters = tools[1].function.parameters.as_ref().unwrap();
    assert_eq!(time_parameters.properties.len(), 1);
    assert_eq!(time_parameters.properties[0].0, "timezone");
    assert_eq!(time_parameters.required, ["timezone"]);
}

#[test]
fn gateway_complete_maps_text_reasoning_and_tool_calls() {
    let response = ChatCompletionsResponse {
        model: "test-model".into(),
        choices: vec![ChatCompletionChoices {
            message: ChatCompletionsMessage::Assistant {
                content: Some("I will calculate that.".into()),
                reasoning_content: Some("The user asked for a calculation.".into()),
                tool_calls: vec![ChatCompletionToolCall {
                    id: "call-1".into(),
                    tool_type: "function".into(),
                    function: ChatCompletionToolCallFunction {
                        name: "calculator".into(),
                        arguments: "{\"a\":2,\"b\":3}".into(),
                    },
                }],
            },
        }],
    };

    let completion = forward(completion_response(response)).unwrap();

    assert_eq!(completion.model, "test-model");
    assert_eq!(completion.text.as_deref(), Some("I will calculate that."));
    assert_eq!(completion.reasoning.as_deref(), Some("The user asked for a calculation."));
    assert_eq!(completion.tool_calls.len(), 1);
    assert_eq!(completion.tool_calls[0].id, "call-1");
    assert_eq!(completion.tool_calls[0].name, "calculator");
    assert_eq!(completion.tool_calls[0].arguments, r#"{"a":2,"b":3}"#);
}

#[test]
fn deserialises_tool_calls_from_response() {
    let call = |id: &str, name: &str, arguments: &str| ChatCompletionToolCall {
        id: id.into(),
        tool_type: "function".into(),
        function: ChatCompletionToolCallFunction { name: name.into(), arguments: arguments.into() },
    };
    let message = ChatCompletionsMessage::Assistant {
        content: None,
        reasoning_content: None,
        tool_calls: vec![
            call("call_abc123", "add_two_numbers", "{\"first_number\": 2, \"second_number\": 3}"),
            call("call_def456", "get_weather", "{\"city\": \"Paris\"}"),
        ],
    };

    let tool_calls = message.tool_calls();
    let tool_call = tool_calls.first().expect("expected one tool call");
    assert_eq!(tool_call.id, "call_abc123");
    assert_eq!(tool_call.function.name, "add_two_numbers");
    assert_eq!(tool_call.function.arguments, "{\"first_number\": 2, \"second_number\": 3}");

    let response = ChatCompletionsResponse {
        model: "tool-model".into(),
        choices: vec![ChatCompletionChoices { message }],
    };
    let completion = completion_response(response).unwrap();
    assert_eq!(completion.text, None);
    assert_eq!(completion.tool_calls.len(), 2);
    assert_eq!(completion.tool_calls[0].id, "call_abc123");
    assert_eq!(completion.tool_calls[0].name, "add_two_numbers");
    assert_eq!(completion.tool_calls[0].arguments, "{\"first_number\": 2, \"second_number\": 3}");
    assert_eq!(completion.tool_calls[1].id, "call_def456");
    assert_eq!(completion.tool_calls[1].name, "get_weather");
    assert_eq!(completion.tool_calls[1].arguments, "{\"city\": \"Paris\"}");
}

#[test]
fn response_without_choices_is_invalid() {
    let response = ChatCompletionsResponse { model: "m".into(), choices: Vec::new() };
    assert!(matches!(
        completion_response(response),
        Err(LlmError::InvalidResponse { ref message }) if message == "Provider returned no choices"
    ));
}

#[test]
fn assistant_without_content_has_no_text() {
    let response = ChatCompletionsResponse {
        model: "m".into(),
        choices: vec![ChatCompletionChoices {
            message: ChatCompletionsMessage::Assistant {
                content: None,
                reasoning_content: None,
                tool_calls: Vec::new(),
            },
        }],
    };
    let completion = completion_response(response).unwrap();
    assert!(completion.text.is_none());
    assert!(completion.reasoning.is_none());
    assert!(completion.tool_calls.is_empty());
}

#[test]
fn gateway_lists_models_and_maps_modalities() {
    let models = domain_models(vec![ProviderModel {
        id: "text-model".into(),
        input_modalities: vec!["text".into()],
        output_modalities: vec!["text".into()],
    }])
    .unwrap();

    assert_eq!(models.len(), 1);
    assert_eq!(models[0].id, "text-model");
    assert!(matches!(
        models[0].input_modalities.as_slice(),
        [ferox_ai::models::ModelModality::Text]
    ));
}

#[test]
fn list_models_returns_text_input_and_output_modalities() {
    let models = domain_models(vec![ProviderModel {
        id: "local-model".into(),
        input_modalities: vec!["text".into()],
        output_modalities: vec!["text".into()],
    }])
    .unwrap();

    let model = models.first().expect("expected at least one model");
    assert!(matches!(
        model.input_modalities.as_slice(),
        [ferox_ai::models::ModelModality::Text]
    ));
    assert!(matches!(
        model.output_modalities.as_slice(),
        [ferox_ai::models::ModelModality::Text]
    ));
}

#[test]
fn model_list_stops_at_first_unknown_modality() {
    let result = domain_models(vec![
        ProviderModel { id: "a".into(), input_modalities: Vec::new(), output_modalities: Vec::new() },
        ProviderModel { id: "b".into(), input_modalities: vec!["hologram".into()], output_modalities: Vec::new() },
        ProviderModel { id: "c".into(), input_modalities: vec!["smell".into()], output_modalities: Vec::new() },
    ]);
    assert!(matches!(
        result,
        Err(LlmError::InvalidModelModality { ref modality }) if modality == "hologram"
    ));
}

#[test]
fn gateway_list_models_maps_provider_errors() {
    let error = status_error(503, "models unavailable");
    assert!(matches!(
        error,
        GatewayError::Llm(LlmError::ProviderUnavailable { code: 503, message })
            if message == "models unavailable"
    ));
}

#[test]
fn gateway_owns_its_provider() {
    let gateway = Gateway::new(42u8);
    assert_eq!(*gateway.provider(), 42);
    let ok: Result<u8, GatewayError> = forward(Ok(7));
    assert!(matches!(ok, Ok(7)));
    assert!(matches!(
        GatewayError::from(LlmError::Timeout),
        GatewayError::Llm(LlmError::Timeout)
    ));
}
