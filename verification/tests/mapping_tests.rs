use ferox_ai::error::LlmError;
use ferox_ai::models::{
    Message, ModelModality, ReasoningEffort, Tool, ToolCall, ToolParameterProperty,
    ToolParameterPropertyType, ToolParameters,
};
use ferox_ai::openai_compatible::mapping::{
    to_domain_model, to_domain_model_modalities, to_domain_model_modality, to_domain_toolcall,
    to_provider_message, to_provider_parameter_property, to_provider_property_type,
    to_provider_reasoning_effort, to_provider_toolcall, to_provider_tools,
};
use ferox_ai::openai_compatible::models::{
    ChatCompletionTool, ChatCompletionToolCall, ChatCompletionToolCallFunction,
    ChatCompletionToolParameterProperty, ChatCompletionToolParameterPropertyType,
    ChatCompletionsMessageRequest, ProviderModel,
};

fn property<'a>(
    tool: &'a ChatCompletionTool,
    name: &str,
) -> &'a ChatCompletionToolParameterProperty {
    let parameters = tool.function.parameters.as_ref().expect("parameters");
    let matching: Vec<_> = parameters.properties.iter().filter(|(k, _)| k == name).collect();
    assert_eq!(matching.len(), 1, "property {name} should occur once");
    &matching[0].1
}

fn weather_tool_checks(provider: &ChatCompletionTool, location: &str, unit: &str) {
    assert_eq!(provider.tool_type, "function");
    assert_eq!(provider.function.name, "get_weather");
    assert_eq!(provider.function.description, "Get the current weather");
    let parameters = provider.function.parameters.as_ref().unwrap();
    assert_eq!(parameters.parameter_type, "object");
    assert_eq!(parameters.properties.len(), 2);
    assert_eq!(parameters.required, ["location"]);

    let location_property = property(provider, "location");
    assert_eq!(location_property.property_type.schema_name(), "string");
    assert_eq!(location_property.description, location);
    assert!(location_property.property_enum.is_none());

    let unit_property = property(provider, "unit");
    assert_eq!(unit_property.property_type.schema_name(), "string");
    assert_eq!(unit_property.description, unit);
    assert_eq!(
        unit_property.property_enum.as_deref(),
        Some(&["celsius".to_string(), "fahrenheit".to_string()][..])
    );
}

#[test]
fn openai_compatible_tool_serializes_to_openai_function_schema() {
    let location = ToolParameterProperty::new(
        "location",
        ToolParameterPropertyType::String,
        "City and state",
    );
    let mut unit = ToolParameterProperty::new("unit", ToolParameterPropertyType::String, "Temp unit");
    unit.property_enum = Some(vec!["celsius".into(), "fahrenheit".into()]);
    let mut tool = Tool::new("get_weather", "Get the current weather");
    tool.parameters = Some(ToolParameters::new(
        vec![location, unit],
        vec!["location".into()],
    ));

    let provider = to_provider_tools(tool);

    weather_tool_checks(&provider, "City and state", "Temp unit");
}

#[test]
fn client_tool_serializes_to_openai_function_schema() {
    let mut unit = ToolParameterProperty::new("unit", ToolParameterPropertyType::String, "Temp unit");
    unit.property_enum = Some(vec!["celsius".into(), "fahrenheit".into()]);
    let tool = Tool::new("get_weather", "Get the current weather")
        .required_parameter(ToolParameterProperty::new(
            "location",
            ToolParameterPropertyType::String,
            "City and state",
        ))
        .optional_parameter(unit);

    let provider = to_provider_tools(tool);

    weather_tool_checks(&provider, "City and state", "Temp unit");
}

#[test]
fn property_types_serialize_to_openai_json_schema_values() {
    let cases = [
        (ToolParameterPropertyType::String, "string"),
        (ToolParameterPropertyType::Number, "number"),
        (ToolParameterPropertyType::Integer, "integer"),
        (ToolParameterPropertyType::Boolean, "boolean"),
    ];

    for (property_type, expected) in cases {
        let provider_type = to_provider_property_type(property_type);
        assert_eq!(provider_type.schema_name(), expected);
    }
}

#[test]
fn parameterless_tool_omits_parameters_from_openai_function_schema() {
    let tool = Tool::new("get_system_status", "Get the current system status");

    let provider = to_provider_tools(tool);

    assert_eq!(provider.tool_type, "function");
    assert_eq!(provider.function.name, "get_system_status");
    assert_eq!(provider.function.description, "Get the current system status");
    assert!(provider.function.parameters.is_none());
}

#[test]
fn later_argument_of_the_same_name_replaces_the_earlier() {
    let tool = Tool::new("f", "g")
        .required_parameter(ToolParameterProperty::new(
            "x",
            ToolParameterPropertyType::String,
            "first",
        ))
        .optional_parameter(ToolParameterProperty::new(
            "y",
            ToolParameterPropertyType::Number,
            "other",
        ))
        .optional_parameter(ToolParameterProperty::new(
            "x",
            ToolParameterPropertyType::Integer,
            "second",
        ));

    let provider = to_provider_tools(tool);

    let parameters = provider.function.parameters.as_ref().unwrap();
    assert_eq!(parameters.properties.len(), 2);
    assert_eq!(parameters.properties[0].0, "x");
    assert_eq!(parameters.properties[0].1.description, "second");
    assert!(matches!(
        parameters.properties[0].1.property_type,
        ChatCompletionToolParameterPropertyType::Integer
    ));
    assert_eq!(parameters.properties[1].0, "y");
    assert_eq!(parameters.required, ["x"]);
}

#[test]
fn parameter_property_is_keyed_by_its_name() {
    let (name, property) = to_provider_parameter_property(ToolParameterProperty::new(
        "timezone",
        ToolParameterPropertyType::String,
        "IANA timezone",
    ));
    assert_eq!(name, "timezone");
    assert_eq!(property.description, "IANA timezone");
    assert!(property.property_enum.is_none());
}

#[test]
fn messages_keep_their_roles_and_content() {
    let system = to_provider_message(&Message::System {
        content: "Use get_weather for weather questions.".into(),
    });
    assert!(matches!(system, ChatCompletionsMessageRequest::System { ref content }
        if content == "Use get_weather for weather questions."));

    let user = to_provider_message(&Message::User { content: "Hello".into() });
    assert!(matches!(user, ChatCompletionsMessageRequest::User { ref content } if content == "Hello"));

    let tool = to_provider_message(&Message::Tool {
        tool_call_id: "call-1".into(),
        content: "18".into(),
    });
    assert!(matches!(tool, ChatCompletionsMessageRequest::Tool { ref tool_call_id, ref content }
        if tool_call_id == "call-1" && content == "18"));
}

#[test]
fn assistant_message_keeps_tool_calls_and_reasoning() {
    let message = Message::Assistant {
        content: None,
        tool_calls: vec![ToolCall::new(
            "call-1".into(),
            "add_two_numbers".into(),
            "{\"first_number\":12}".into(),
        )],
        reasoning: Some("thinking".into()),
    };

    match to_provider_message(&message) {
        ChatCompletionsMessageRequest::Assistant { content, tool_calls, reasoning_content } => {
            assert!(content.is_none());
            assert_eq!(reasoning_content.as_deref(), Some("thinking"));
            assert_eq!(tool_calls.len(), 1);
            assert_eq!(tool_calls[0].id, "call-1");
            assert_eq!(tool_calls[0].tool_type, "function");
            assert_eq!(tool_calls[0].function.name, "add_two_numbers");
            assert_eq!(tool_calls[0].function.arguments, "{\"first_number\":12}");
        }
        other => panic!("expected an assistant message, got {other:?}"),
    }
}

#[test]
fn tool_calls_translate_both_ways() {
    let call = ToolCall::new("call_abc123".into(), "add_two_numbers".into(), "{}".into());
    let provider = to_provider_toolcall(&call);
    assert_eq!(provider.tool_type, "function");
    let back = to_domain_toolcall(&provider);
    assert_eq!(back.id, "call_abc123");
    assert_eq!(back.name, "add_two_numbers");
    assert_eq!(back.arguments, "{}");

    let received = ChatCompletionToolCall {
        id: "call-9".into(),
        tool_type: "function".into(),
        function: ChatCompletionToolCallFunction {
            name: "calculator".into(),
            arguments: r#"{"a":2,"b":3}"#.into(),
        },
    };
    let call = to_domain_toolcall(&received);
    assert_eq!(call.id, "call-9");
    assert_eq!(call.name, "calculator");
    assert_eq!(call.arguments, r#"{"a":2,"b":3}"#);
}

#[test]
fn reasoning_effort_names_follow_the_provider() {
    let expected = ["none", "minimal", "low", "medium", "high", "xhigh", "max"];
    for (effort, name) in ReasoningEffort::ALL.into_iter().zip(expected) {
        assert_eq!(to_provider_reasoning_effort(effort), name);
    }
}

#[test]
fn known_modalities_are_mapped() {
    assert!(matches!(to_domain_model_modality("text"), Ok(ModelModality::Text)));
    assert!(matches!(to_domain_model_modality("image"), Ok(ModelModality::Image)));
    assert!(matches!(to_domain_model_modality("video"), Ok(ModelModality::Video)));
    assert!(matches!(to_domain_model_modality("audio"), Ok(ModelModality::Audio)));
}

#[test]
fn unknown_modality_is_an_error_naming_it() {
    assert!(matches!(
        to_domain_model_modality("Text"),
        Err(LlmError::InvalidModelModality { ref modality }) if modality == "Text"
    ));
    let result = to_domain_model_modalities(vec!["text".into(), "smell".into(), "taste".into()]);
    assert!(matches!(
        result,
        Err(LlmError::InvalidModelModality { ref modality }) if modality == "smell"
    ));
}

#[test]
fn provider_model_maps_input_before_output_errors() {
    let model = to_domain_model(ProviderModel {
        id: "text-model".into(),
        input_modalities: vec!["text".into(), "image".into()],
        output_modalities: vec!["text".into()],
    })
    .unwrap();
    assert_eq!(model.id, "text-model");
    assert!(matches!(
        model.input_modalities.as_slice(),
        [ModelModality::Text, ModelModality::Image]
    ));

    let error = to_domain_model(ProviderModel {
        id: "m".into(),
        input_modalities: vec!["scent".into()],
        output_modalities: vec!["noise".into()],
    })
    .unwrap_err();
    assert!(matches!(error, LlmError::InvalidModelModality { ref modality } if modality == "scent"));

    let error = to_domain_model(ProviderModel {
        id: "m".into(),
        input_modalities: Vec::new(),
        output_modalities: vec!["noise".into()],
    })
    .unwrap_err();
    assert!(matches!(error, LlmError::InvalidModelModality { ref modality } if modality == "noise"));
}
