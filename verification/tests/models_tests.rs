use ferox_ai::models::{
    CompletionChunk, CompletionRequest, CompletionResponse, FinishReason, Message, Model,
    ModelModality, ReasoningEffort, Tool, ToolCall, ToolParameterProperty,
    ToolParameterPropertyType, ToolParameters,
};
use ferox_ai::settings::{LogLevel, Settings};

#[test]
fn tool_required_parameter_records_its_name() {
    let tool = Tool::new("get_weather", "Get the current weather").required_parameter(
        ToolParameterProperty::new(
            "city",
            ToolParameterPropertyType::String,
            "City to get the weather for",
        ),
    );

    let parameters = tool.parameters.as_ref().unwrap();
    assert_eq!(parameters.required, ["city"]);
    assert_eq!(parameters.properties.len(), 1);
}

#[test]
fn optional_parameter_is_declared_but_not_required() {
    let tool = Tool::new("get_weather", "Get the current weather")
        .required_parameter(ToolParameterProperty::new(
            "location",
            ToolParameterPropertyType::String,
            "City and state",
        ))
        .optional_parameter(ToolParameterProperty::new(
            "unit",
            ToolParameterPropertyType::String,
            "Temp unit",
        ))
        .required_parameter(ToolParameterProperty::new(
            "day",
            ToolParameterPropertyType::Integer,
            "Day offset",
        ));

    let parameters = tool.parameters.as_ref().unwrap();
    let names: Vec<&str> = parameters.properties.iter().map(|p| p.name.as_str()).collect();
    assert_eq!(names, ["location", "unit", "day"]);
    assert_eq!(parameters.required, ["location", "day"]);
    for required in &parameters.required {
        assert!(names.contains(&required.as_str()));
    }
}

#[test]
fn new_tool_has_no_parameters() {
    let tool = Tool::new("get_system_status", "Get the current system status");
    assert_eq!(tool.name, "get_system_status");
    assert_eq!(tool.description, "Get the current system status");
    assert!(tool.parameters.is_none());
}

#[test]
fn parameter_property_new_has_no_enum() {
    let property = ToolParameterProperty::new("unit", ToolParameterPropertyType::Boolean, "Flag");
    assert_eq!(property.name, "unit");
    assert_eq!(property.description, "Flag");
    assert!(matches!(property.property_type, ToolParameterPropertyType::Boolean));
    assert!(property.property_enum.is_none());
}

#[test]
fn tool_parameters_new_keeps_required_names_unchecked() {
    let parameters = ToolParameters::new(Vec::new(), vec!["missing".to_string()]);
    assert!(parameters.properties.is_empty());
    assert_eq!(parameters.required, ["missing"]);
}

#[test]
fn completion_request_new_has_no_tools_or_reasoning_effort() {
    let messages = [Message::User {
        content: "What is the capital of France?".into(),
    }];
    let request = CompletionRequest::new("my-model".into(), &messages);

    assert_eq!(request.model, "my-model");
    assert_eq!(request.messages.len(), 1);
    assert!(request.tools.is_none());
    assert!(request.reasoning_effort.is_none());
}

#[test]
fn model_new_defaults_modalities_to_text() {
    let model = Model::new("qwen3.6-35b", None, None);
    assert_eq!(model.id, "qwen3.6-35b");
    assert!(matches!(model.input_modalities.as_slice(), [ModelModality::Text]));
    assert!(matches!(model.output_modalities.as_slice(), [ModelModality::Text]));
}

#[test]
fn model_new_keeps_explicit_modalities_even_when_empty() {
    let model = Model::new(
        "vision",
        Some(vec![ModelModality::Text, ModelModality::Image]),
        Some(Vec::new()),
    );
    assert!(matches!(
        model.input_modalities.as_slice(),
        [ModelModality::Text, ModelModality::Image]
    ));
    assert!(model.output_modalities.is_empty());
}

#[test]
fn reasoning_effort_levels_run_from_none_to_max() {
    assert_eq!(ReasoningEffort::ALL.len(), 7);
    assert!(matches!(ReasoningEffort::ALL[0], ReasoningEffort::NoReasoning));
    assert!(matches!(ReasoningEffort::ALL[3], ReasoningEffort::Medium));
    assert!(matches!(ReasoningEffort::ALL[6], ReasoningEffort::Max));
}

#[test]
fn completion_response_new_has_no_text_or_reasoning() {
    let call = ToolCall::new("call-1".into(), "calculator".into(), "{}".into());
    let response = CompletionResponse::new("test-model".into(), vec![call]);
    assert_eq!(response.model, "test-model");
    assert!(response.text.is_none());
    assert!(response.reasoning.is_none());
    assert_eq!(response.tool_calls.len(), 1);
    assert_eq!(response.tool_calls[0].id, "call-1");
}

#[test]
fn completion_chunk_new_has_no_text_or_reasoning() {
    let chunk = CompletionChunk::new(Vec::new(), Some(FinishReason::Stop));
    assert!(chunk.text.is_none());
    assert!(chunk.reasoning.is_none());
    assert!(chunk.tool_calls.is_empty());
    assert!(matches!(chunk.finished_reason, Some(FinishReason::Stop)));
}

#[test]
fn tool_call_new_keeps_arguments_unparsed() {
    let call = ToolCall::new("id".into(), "add".into(), "not json".into());
    assert_eq!(call.id, "id");
    assert_eq!(call.name, "add");
    assert_eq!(call.arguments, "not json");
}

#[test]
fn default_settings_name_ferox_at_debug_level() {
    let settings = Settings::default();
    assert_eq!(settings.service_name, "Ferox");
    assert!(matches!(settings.log_level, LogLevel::Debug));
}
