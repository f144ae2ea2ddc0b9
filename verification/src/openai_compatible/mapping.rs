//! Translation between ferox's shared types and the OpenAI-compatible wire types.
use crate::error::LlmError;
use crate::models::{
    Message, Model, ModelModality, ReasoningEffort, Tool, ToolCall, ToolParameterProperty,
    ToolParameterPropertyType, ToolParameters,
};
use crate::openai_compatible::models::{
    ChatCompletionFunction, ChatCompletionTool, ChatCompletionToolCall,
    ChatCompletionToolCallFunction, ChatCompletionToolParameterProperty,
    ChatCompletionToolParameterPropertyType, ChatCompletionToolParameters,
    ChatCompletionsMessageRequest, ProviderModel,
};
use crate::text::str_eq;
use vstd::prelude::*;
use vstd::string::StringExecFns;

verus! {

/// A copy of an optional string.
pub fn copy_opt_string(s: &Option<String>) -> (copy: Option<String>)
    ensures
        copy == *s,
{
    match s {
        Some(t) => Some(t.clone()),
        None => None,
    }
}

/// `out` is `call` in the provider's format, as a `function` call.
pub open spec fn provider_toolcall_of(call: ToolCall, out: ChatCompletionToolCall) -> bool {
    &&& out.id == call.id
    &&& out.tool_type@ == "function"@
    &&& out.function.name == call.name
    &&& out.function.arguments == call.arguments
}

/// `out` is `calls` in the provider's format, one for one and in order.
pub open spec fn provider_toolcalls_of(calls: Seq<ToolCall>, out: Seq<ChatCompletionToolCall>) -> bool {
    &&& out.len() == calls.len()
    &&& forall|i: int| 0 <= i < calls.len() ==> provider_toolcall_of(calls[i], #[trigger] out[i])
}

/// A tool call in the provider's format.
pub fn to_provider_toolcall(tool_call: &ToolCall) -> (out: ChatCompletionToolCall)
    ensures
        provider_toolcall_of(*tool_call, out),
{
    ChatCompletionToolCall {
        id: tool_call.id.clone(),
        tool_type: String::from_str("function"),
        function: ChatCompletionToolCallFunction {
            name: tool_call.name.clone(),
            arguments: tool_call.arguments.clone(),
        },
    }
}

/// Tool calls in the provider's format.
fn to_provider_toolcalls(tool_calls: &Vec<ToolCall>) -> (out: Vec<ChatCompletionToolCall>)
    ensures
        provider_toolcalls_of(tool_calls@, out@),
{
    let mut out: Vec<ChatCompletionToolCall> = Vec::new();
    let mut i: usize = 0;
    while i < tool_calls.len()
        invariant
            0 <= i <= tool_calls.len(),
            out@.len() == i,
            forall|j: int| 0 <= j < i ==> provider_toolcall_of(tool_calls@[j], #[trigger] out@[j]),
        decreases tool_calls.len() - i,
    {
        out.push(to_provider_toolcall(&tool_calls[i]));
        i = i + 1;
    }
    out
}

/// `out` is `message` in the provider's format; an assistant message keeps its
/// reasoning as `reasoning_content`.
pub open spec fn provider_message_of(message: Message, out: ChatCompletionsMessageRequest) -> bool {
    match message {
        Message::System { content } => out == ChatCompletionsMessageRequest::System { content },
        Message::User { content } => out == ChatCompletionsMessageRequest::User { content },
        Message::Assistant { content, tool_calls, reasoning } => out matches
            ChatCompletionsMessageRequest::Assistant {
            content: c,
            tool_calls: t,
            reasoning_content: r,
        } && c == content && r == reasoning && provider_toolcalls_of(tool_calls@, t@),
        Message::Tool { tool_call_id, content } => out == ChatCompletionsMessageRequest::Tool {
            tool_call_id,
            content,
        },
    }
}

/// Translating a message keeps its role and its text: the provider gets every
/// message's content unchanged, an assistant message's text and reasoning
/// included, and a tool result under the identifier of the call it answers.
pub proof fn law_translation_keeps_the_text(message: Message, out: ChatCompletionsMessageRequest)
    requires
        provider_message_of(message, out),
    ensures
        message matches Message::Assistant { content, reasoning, tool_calls } ==> out matches
            ChatCompletionsMessageRequest::Assistant { content: c, reasoning_content: r, tool_calls: t }
            && c == content && r == reasoning && t@.len() == tool_calls@.len(),
        message matches Message::User { content } ==> out matches ChatCompletionsMessageRequest::User {
            content: c,
        } && c == content,
        message matches Message::System { content } ==> out matches
            ChatCompletionsMessageRequest::System { content: c } && c == content,
        message matches Message::Tool { tool_call_id, content } ==> out matches
            ChatCompletionsMessageRequest::Tool { tool_call_id: i, content: c } && i == tool_call_id
            && c == content,
{
}

/// A conversation entry in the provider's format.
pub fn to_provider_message(message: &Message) -> (out: ChatCompletionsMessageRequest)
    ensures
        provider_message_of(*message, out),
        *message matches Message::Assistant { content, reasoning, .. } ==> out matches
            ChatCompletionsMessageRequest::Assistant { content: c, reasoning_content: r, .. } && c
            == content && r == reasoning,
        *message matches Message::User { content } ==> out matches
            ChatCompletionsMessageRequest::User { content: c } && c == content,
        *message matches Message::System { content } ==> out matches
            ChatCompletionsMessageRequest::System { content: c } && c == content,
        *message matches Message::Tool { tool_call_id, content } ==> out matches
            ChatCompletionsMessageRequest::Tool { tool_call_id: i, content: c } && i == tool_call_id
            && c == content,
{
    match message {
        Message::System { content } => ChatCompletionsMessageRequest::System {
            content: content.clone(),
        },
        Message::User { content } => ChatCompletionsMessageRequest::User {
            content: content.clone(),
        },
        Message::Assistant { content, tool_calls, reasoning } => {
            ChatCompletionsMessageRequest::Assistant {
                content: copy_opt_string(content),
                tool_calls: to_provider_toolcalls(tool_calls),
                reasoning_content: copy_opt_string(reasoning),
            }
        },
        Message::Tool { tool_call_id, content } => ChatCompletionsMessageRequest::Tool {
            tool_call_id: tool_call_id.clone(),
            content: content.clone(),
        },
    }
}

/// The provider's name for a reasoning level.
pub open spec fn reasoning_effort_name(effort: ReasoningEffort) -> Seq<char> {
    match effort {
        ReasoningEffort::NoReasoning => "none"@,
        ReasoningEffort::Minimal => "minimal"@,
        ReasoningEffort::Low => "low"@,
        ReasoningEffort::Medium => "medium"@,
        ReasoningEffort::High => "high"@,
        ReasoningEffort::XHigh => "xhigh"@,
        ReasoningEffort::Max => "max"@,
    }
}

/// Each reasoning level is sent under its own name: `none`, `minimal`, `low`,
/// `medium`, `high`, `xhigh` and `max`, and no two levels share a name.
pub proof fn law_reasoning_levels_keep_their_names(a: ReasoningEffort, b: ReasoningEffort)
    ensures
        a is NoReasoning ==> reasoning_effort_name(a) == "none"@,
        a is Minimal ==> reasoning_effort_name(a) == "minimal"@,
        a is Low ==> reasoning_effort_name(a) == "low"@,
        a is Medium ==> reasoning_effort_name(a) == "medium"@,
        a is High ==> reasoning_effort_name(a) == "high"@,
        a is XHigh ==> reasoning_effort_name(a) == "xhigh"@,
        a is Max ==> reasoning_effort_name(a) == "max"@,
        a != b ==> reasoning_effort_name(a) != reasoning_effort_name(b),
{
    reveal_strlit("none");
    reveal_strlit("minimal");
    reveal_strlit("low");
    reveal_strlit("medium");
    reveal_strlit("high");
    reveal_strlit("xhigh");
    reveal_strlit("max");
    assert("none"@[0] == 'n' && "low"@[0] == 'l' && "high"@[0] == 'h' && "xhigh"@[0] == 'x');
    assert("minimal"@[0] == 'm' && "medium"@[0] == 'm' && "max"@[0] == 'm');
    assert("minimal"@.len() == 7 && "medium"@.len() == 6 && "max"@.len() == 3);
}

/// The provider's name for a reasoning level.
pub fn to_provider_reasoning_effort(reasoning_effort: ReasoningEffort) -> (name: String)
    ensures
        name@ == reasoning_effort_name(reasoning_effort),
{
    let name = match reasoning_effort {
        ReasoningEffort::NoReasoning => "none",
        ReasoningEffort::Minimal => "minimal",
        ReasoningEffort::Low => "low",
        ReasoningEffort::Medium => "medium",
        ReasoningEffort::High => "high",
        ReasoningEffort::XHigh => "xhigh",
        ReasoningEffort::Max => "max",
    };
    String::from_str(name)
}

/// The format a provider's modality name stands for, if ferox knows it.
pub open spec fn domain_modality(name: Seq<char>) -> Option<ModelModality> {
    if name == "text"@ {
        Some(ModelModality::Text)
    } else if name == "image"@ {
        Some(ModelModality::Image)
    } else if name == "video"@ {
        Some(ModelModality::Video)
    } else if name == "audio"@ {
        Some(ModelModality::Audio)
    } else {
        None
    }
}

/// The provider's modality names `text`, `image`, `video` and `audio` stand for
/// the formats of the same name, and two names that stand for a format stand
/// for the same one only when they are the same name.
pub proof fn law_modality_names_keep_their_formats(a: Seq<char>, b: Seq<char>)
    ensures
        domain_modality("text"@) == Some(ModelModality::Text),
        domain_modality("image"@) == Some(ModelModality::Image),
        domain_modality("video"@) == Some(ModelModality::Video),
        domain_modality("audio"@) == Some(ModelModality::Audio),
        domain_modality(a) is Some && domain_modality(a) == domain_modality(b) ==> a == b,
{
    reveal_strlit("text");
    reveal_strlit("image");
    reveal_strlit("video");
    reveal_strlit("audio");
    assert("image"@[0] != "text"@[0]);
    assert("video"@[0] != "text"@[0] && "video"@[0] != "image"@[0]);
    assert("audio"@[0] != "text"@[0] && "audio"@[0] != "image"@[0] && "audio"@[0] != "video"@[0]);
}

/// `result` is the format `name` stands for, or the error that names it.
pub open spec fn modality_result(name: Seq<char>, result: Result<ModelModality, LlmError>) -> bool {
    match domain_modality(name) {
        Some(m) => result == Ok::<ModelModality, LlmError>(m),
        None => result matches Err(LlmError::InvalidModelModality { modality }) && modality@
            == name,
    }
}

/// The format a provider's modality name stands for.
pub fn to_domain_model_modality(modality: &str) -> (result: Result<ModelModality, LlmError>)
    ensures
        modality_result(modality@, result),
{
    if str_eq(modality, "text") {
        Ok(ModelModality::Text)
    } else if str_eq(modality, "image") {
        Ok(ModelModality::Image)
    } else if str_eq(modality, "video") {
        Ok(ModelModality::Video)
    } else if str_eq(modality, "audio") {
        Ok(ModelModality::Audio)
    } else {
        Err(LlmError::InvalidModelModality { modality: modality.to_owned() })
    }
}

/// `result` is every name's format, in order, or the error for the first name
/// ferox does not know.
pub open spec fn modalities_result(
    names: Seq<String>,
    result: Result<Vec<ModelModality>, LlmError>,
) -> bool {
    match result {
        Ok(v) => v@.len() == names.len() && forall|i: int|
            0 <= i < names.len() ==> domain_modality(#[trigger] names[i]@) == Some(v@[i]),
        Err(e) => exists|i: int|
            0 <= i < names.len() && domain_modality(#[trigger] names[i]@) is None && (forall|j: int|
                0 <= j < i ==> domain_modality(#[trigger] names[j]@) is Some) && (e matches
                LlmError::InvalidModelModality { modality } && modality@ == names[i]@),
    }
}

/// The formats a provider's modality names stand for.
pub fn to_domain_model_modalities(modalities: Vec<String>) -> (result: Result<
    Vec<ModelModality>,
    LlmError,
>)
    ensures
        modalities_result(modalities@, result),
{
    let mut out: Vec<ModelModality> = Vec::new();
    let mut i: usize = 0;
    while i < modalities.len()
        invariant
            0 <= i <= modalities.len(),
            out@.len() == i,
            forall|j: int|
                0 <= j < i ==> domain_modality(#[trigger] modalities@[j]@) == Some(out@[j]),
        decreases modalities.len() - i,
    {
        match to_domain_model_modality(modalities[i].as_str()) {
            Ok(m) => {
                out.push(m);
            },
            Err(e) => {
                proof {
                    assert(forall|j: int|
                        0 <= j < i ==> domain_modality(#[trigger] modalities@[j]@) is Some);
                }
                return Err(e);
            },
        }
        i = i + 1;
    }
    Ok(out)
}

/// `result` is the provider's model with its formats translated, or the error for
/// the first unknown input format, else the first unknown output format.
pub open spec fn model_result(provider: ProviderModel, result: Result<Model, LlmError>) -> bool {
    let inputs = provider.input_modalities@;
    let outputs = provider.output_modalities@;
    let inputs_known = forall|i: int|
        0 <= i < inputs.len() ==> domain_modality(#[trigger] inputs[i]@) is Some;
    let outputs_known = forall|i: int|
        0 <= i < outputs.len() ==> domain_modality(#[trigger] outputs[i]@) is Some;
    match result {
        Ok(model) => model.id == provider.id && modalities_result(
            inputs,
            Ok(model.input_modalities),
        ) && modalities_result(outputs, Ok(model.output_modalities)),
        Err(e) => if !inputs_known {
            modalities_result(inputs, Err(e))
        } else {
            !outputs_known && modalities_result(outputs, Err(e))
        },
    }
}

/// A provider's model in ferox's terms.
pub fn to_domain_model(provider_model: ProviderModel) -> (result: Result<Model, LlmError>)
    ensures
        model_result(provider_model, result),
{
    let ghost pm = provider_model;
    let ProviderModel { id, input_modalities, output_modalities } = provider_model;
    let input_modalities = match to_domain_model_modalities(input_modalities) {
        Ok(v) => v,
        Err(e) => {
            proof {
                let inputs = pm.input_modalities@;
                let i = choose|i: int|
                    0 <= i < inputs.len() && domain_modality(#[trigger] inputs[i]@) is None && (
                    forall|j: int|
                        0 <= j < i ==> domain_modality(#[trigger] inputs[j]@) is Some) && (e matches
                        LlmError::InvalidModelModality { modality } && modality@ == inputs[i]@);
                assert(domain_modality(inputs[i]@) is None);
            }
            return Err(e);
        },
    };
    let output_modalities = match to_domain_model_modalities(output_modalities) {
        Ok(v) => v,
        Err(e) => {
            proof {
                let outputs = pm.output_modalities@;
                let i = choose|i: int|
                    0 <= i < outputs.len() && domain_modality(#[trigger] outputs[i]@) is None && (
                    forall|j: int|
                        0 <= j < i ==> domain_modality(#[trigger] outputs[j]@) is Some) && (e matches
                        LlmError::InvalidModelModality { modality } && modality@ == outputs[i]@);
                assert(domain_modality(outputs[i]@) is None);
            }
            return Err(e);
        },
    };
    Ok(Model { id, input_modalities, output_modalities })
}

/// A provider's tool call in ferox's terms.
pub fn to_domain_toolcall(tool_call: &ChatCompletionToolCall) -> (call: ToolCall)
    ensures
        call.id == tool_call.id,
        call.name == tool_call.function.name,
        call.arguments == tool_call.function.arguments,
{
    ToolCall {
        id: tool_call.id.clone(),
        name: tool_call.function.name.clone(),
        arguments: tool_call.function.arguments.clone(),
    }
}

/// Each argument type becomes the provider's type of the same name.
pub proof fn law_property_types_keep_their_names(t: ToolParameterPropertyType)
    ensures
        t is String <==> provider_property_type(t) is String,
        t is Number <==> provider_property_type(t) is Number,
        t is Integer <==> provider_property_type(t) is Integer,
        t is Boolean <==> provider_property_type(t) is Boolean,
{
}

/// The provider's JSON schema type for an argument type.
pub open spec fn provider_property_type(property_type: ToolParameterPropertyType) -> ChatCompletionToolParameterPropertyType {
    match property_type {
        ToolParameterPropertyType::String => ChatCompletionToolParameterPropertyType::String,
        ToolParameterPropertyType::Number => ChatCompletionToolParameterPropertyType::Number,
        ToolParameterPropertyType::Integer => ChatCompletionToolParameterPropertyType::Integer,
        ToolParameterPropertyType::Boolean => ChatCompletionToolParameterPropertyType::Boolean,
    }
}

/// The provider's JSON schema type for an argument type.
pub fn to_provider_property_type(property_type: ToolParameterPropertyType) -> (out:
    ChatCompletionToolParameterPropertyType)
    ensures
        out == provider_property_type(property_type),
{
    match property_type {
        ToolParameterPropertyType::String => ChatCompletionToolParameterPropertyType::String,
        ToolParameterPropertyType::Number => ChatCompletionToolParameterPropertyType::Number,
        ToolParameterPropertyType::Integer => ChatCompletionToolParameterPropertyType::Integer,
        ToolParameterPropertyType::Boolean => ChatCompletionToolParameterPropertyType::Boolean,
    }
}

/// One argument in the provider's format, keyed by its name.
pub open spec fn provider_property(property: ToolParameterProperty) -> (
    String,
    ChatCompletionToolParameterProperty,
) {
    (
        property.name,
        ChatCompletionToolParameterProperty {
            property_type: provider_property_type(property.property_type),
            description: property.description,
            property_enum: property.property_enum,
        },
    )
}

/// One argument in the provider's format, keyed by its name.
pub fn to_provider_parameter_property(property: ToolParameterProperty) -> (entry: (
    String,
    ChatCompletionToolParameterProperty,
))
    ensures
        entry == provider_property(property),
{
    let ToolParameterProperty { name, property_type, description, property_enum } = property;
    (
        name,
        ChatCompletionToolParameterProperty {
            property_type: to_provider_property_type(property_type),
            description,
            property_enum,
        },
    )
}

/// No name is the key of two entries.
pub open spec fn keys_unique<V>(entries: Seq<(String, V)>) -> bool {
    forall|i: int, j: int|
        0 <= i < entries.len() && 0 <= j < entries.len() && i != j ==> (#[trigger] entries[i]).0@
            != (#[trigger] entries[j]).0@
}

/// `entries` with `entry` put under its name: an entry already under that name
/// keeps its key and takes the new value; otherwise the entry is added at the end.
pub open spec fn upsert<V>(entries: Seq<(String, V)>, entry: (String, V)) -> Seq<(String, V)> {
    if exists|i: int| 0 <= i < entries.len() && (#[trigger] entries[i]).0@ == entry.0@ {
        let i = choose|i: int| 0 <= i < entries.len() && (#[trigger] entries[i]).0@ == entry.0@;
        entries.update(i, (entries[i].0, entry.1))
    } else {
        entries.push(entry)
    }
}

/// The arguments as a JSON object: keyed by name, a later argument replacing an
/// earlier one of the same name.
pub open spec fn property_entries(properties: Seq<ToolParameterProperty>) -> Seq<
    (String, ChatCompletionToolParameterProperty),
>
    decreases properties.len(),
{
    if properties.len() == 0 {
        Seq::empty()
    } else {
        upsert(property_entries(properties.drop_last()), provider_property(properties.last()))
    }
}

/// Puts `entry` under its name in `entries`.
fn insert_entry(
    entries: &mut Vec<(String, ChatCompletionToolParameterProperty)>,
    entry: (String, ChatCompletionToolParameterProperty),
)
    requires
        keys_unique(old(entries)@),
    ensures
        final(entries)@ == upsert(old(entries)@, entry),
        keys_unique(final(entries)@),
{
    let mut i: usize = 0;
    while i < entries.len()
        invariant
            0 <= i <= entries.len(),
            entries@ == old(entries)@,
            keys_unique(entries@),
            forall|j: int| 0 <= j < i ==> (#[trigger] entries@[j]).0@ != entry.0@,
        decreases entries.len() - i,
    {
        if entries[i].0 == entry.0 {
            let key = entries[i].0.clone();
            let ghost before = entries@;
            let (_, value) = entry;
            entries.set(i, (key, value));
            proof {
                let k = choose|k: int|
                    0 <= k < before.len() && (#[trigger] before[k]).0@ == entry.0@;
                if k != i as int {
                    assert(before[k].0@ != before[i as int].0@);
                }
                assert(entries@ =~= before.update(i as int, (before[i as int].0, entry.1)));
                assert forall|a: int, b: int|
                    0 <= a < entries@.len() && 0 <= b < entries@.len() && a != b implies (
                    #[trigger] entries@[a]).0@ != (#[trigger] entries@[b]).0@ by {
                    assert(entries@[a].0 == before[a].0);
                    assert(entries@[b].0 == before[b].0);
                }
            }
            return;
        }
        i = i + 1;
    }
    let ghost before = entries@;
    entries.push(entry);
    proof {
        assert(!exists|k: int| 0 <= k < before.len() && (#[trigger] before[k]).0@ == entry.0@);
        assert forall|a: int, b: int|
            0 <= a < entries@.len() && 0 <= b < entries@.len() && a != b implies (
            #[trigger] entries@[a]).0@ != (#[trigger] entries@[b]).0@ by {
            if a < before.len() {
                assert(entries@[a] == before[a]);
            }
            if b < before.len() {
                assert(entries@[b] == before[b]);
            }
        }
    }
}

/// `out` is the argument schema in the provider's format: an `object` whose
/// properties are keyed by argument name, with the required names kept.
pub open spec fn provider_parameters_of(
    parameters: ToolParameters,
    out: ChatCompletionToolParameters,
) -> bool {
    &&& out.parameter_type@ == "object"@
    &&& out.properties@ == property_entries(parameters.properties@)
    &&& keys_unique(out.properties@)
    &&& out.required == parameters.required
}

/// An argument schema in the provider's format.
pub fn to_provider_parameters(parameters: ToolParameters) -> (out: ChatCompletionToolParameters)
    ensures
        provider_parameters_of(parameters, out),
{
    let ghost props = parameters.properties@;
    let ToolParameters { properties, required } = parameters;
    let mut entries: Vec<(String, ChatCompletionToolParameterProperty)> = Vec::new();
    proof {
        assert(props.take(0) =~= Seq::<ToolParameterProperty>::empty());
    }
    for property in it: properties
        invariant
            it.seq() == props,
            entries@ == property_entries(props.take(it.index() as int)),
            keys_unique(entries@),
    {
        proof {
            let n = it.index() as int;
            assert(props.take(n + 1).drop_last() =~= props.take(n));
            assert(props.take(n + 1).last() == property);
        }
        insert_entry(&mut entries, to_provider_parameter_property(property));
    }
    proof {
        assert(props.take(props.len() as int) =~= props);
    }
    ChatCompletionToolParameters {
        parameter_type: String::from_str("object"),
        properties: entries,
        required,
    }
}

/// `out` is the tool in the provider's format: a `function` with the tool's name
/// and description, and its argument schema when it has one.
pub open spec fn provider_tool_of(tool: Tool, out: ChatCompletionTool) -> bool {
    &&& out.tool_type@ == "function"@
    &&& out.function.name == tool.name
    &&& out.function.description == tool.description
    &&& match tool.parameters {
        Some(p) => out.function.parameters matches Some(q) && provider_parameters_of(p, q),
        None => out.function.parameters is None,
    }
}

/// A tool definition in the provider's format.
pub fn to_provider_tools(tool: Tool) -> (out: ChatCompletionTool)
    ensures
        provider_tool_of(tool, out),
{
    let Tool { name, description, parameters } = tool;
    let parameters = match parameters {
        Some(p) => Some(to_provider_parameters(p)),
        None => None,
    };
    ChatCompletionTool {
        tool_type: String::from_str("function"),
        function: ChatCompletionFunction { name, description, parameters },
    }
}

} // verus!
