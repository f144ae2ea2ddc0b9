//! Shared request, response and tool types used by the gateway and provider adapters.
use vstd::prelude::*;

verus! {

/// A model advertised by a provider, with its supported input and output formats.
#[derive(Debug)]
#[non_exhaustive]
pub struct Model {
    /// Identifier to use in a completion request.
    pub id: String,
    /// Formats the model accepts as input.
    pub input_modalities: Vec<ModelModality>,
    /// Formats the model can produce.
    pub output_modalities: Vec<ModelModality>,
}

/// The formats given, or text alone when none are given; an explicit empty list stays empty.
pub open spec fn modalities_or_text(modalities: Option<Vec<ModelModality>>) -> Seq<ModelModality> {
    match modalities {
        Some(v) => v@,
        None => seq![ModelModality::Text],
    }
}

impl Model {
    /// Creates model metadata from a provider identifier and its supported formats.
    /// A format list that is not given defaults to text.
    pub fn new(
        id: &str,
        input_modalities: Option<Vec<ModelModality>>,
        output_modalities: Option<Vec<ModelModality>>,
    ) -> (model: Self)
        ensures
            model.id@ == id@,
            model.input_modalities@ == modalities_or_text(input_modalities),
            model.output_modalities@ == modalities_or_text(output_modalities),
    {
        Model {
            id: id.to_owned(),
            input_modalities: text_unless_given(input_modalities),
            output_modalities: text_unless_given(output_modalities),
        }
    }
}

/// The formats given, or text alone.
fn text_unless_given(modalities: Option<Vec<ModelModality>>) -> (v: Vec<ModelModality>)
    ensures
        v@ == modalities_or_text(modalities),
{
    match modalities {
        Some(v) => v,
        None => {
            let mut v = Vec::new();
            v.push(ModelModality::Text);
            proof {
                assert(v@ =~= seq![ModelModality::Text]);
            }
            v
        },
    }
}

/// A format a model can accept or produce.
#[derive(Debug)]
#[non_exhaustive]
pub enum ModelModality {
    /// Written text.
    Text,
    /// Still images.
    Image,
    /// Video.
    Video,
    /// Audio.
    Audio,
}

/// A scalar JSON type accepted by a tool parameter.
#[derive(Debug)]
#[non_exhaustive]
pub enum ToolParameterPropertyType {
    /// A JSON string.
    String,
    /// A JSON number, including fractional values.
    Number,
    /// A whole number.
    Integer,
    /// A true or false value.
    Boolean,
}

/// The name, type and description of one tool argument.
#[derive(Debug)]
#[non_exhaustive]
pub struct ToolParameterProperty {
    /// Argument name in the tool call JSON object.
    pub name: String,
    /// JSON type expected for this argument.
    pub property_type: ToolParameterPropertyType,
    /// Description sent to the model to explain the argument.
    pub description: String,
    /// Allowed string values, or `None` when no enum constraint is specified.
    pub property_enum: Option<Vec<String>>,
}

impl ToolParameterProperty {
    /// Creates an argument definition without an enum constraint.
    pub fn new(name: &str, property_type: ToolParameterPropertyType, description: &str) -> (property:
        Self)
        ensures
            property.name@ == name@,
            property.property_type == property_type,
            property.description@ == description@,
            property.property_enum is None,
    {
        ToolParameterProperty {
            name: name.to_owned(),
            property_type,
            description: description.to_owned(),
            property_enum: None,
        }
    }
}

/// The argument definitions for a tool.
#[derive(Debug)]
#[non_exhaustive]
pub struct ToolParameters {
    /// Arguments the tool accepts.
    pub properties: Vec<ToolParameterProperty>,
    /// Names of arguments that must be supplied.
    pub required: Vec<String>,
}

impl ToolParameters {
    /// Creates a parameter schema without validating the required names.
    pub fn new(properties: Vec<ToolParameterProperty>, required: Vec<String>) -> (parameters: Self)
        ensures
            parameters.properties == properties,
            parameters.required == required,
    {
        ToolParameters { properties, required }
    }
}

/// A function the model can ask the caller to execute.
///
/// Ferox passes tool definitions and calls between the caller and provider.
/// The caller is responsible for executing the requested function.
#[derive(Debug)]
#[non_exhaustive]
pub struct Tool {
    /// Function name used to identify the tool in requests and responses.
    pub name: String,
    /// Description sent to the model to explain when to use the tool.
    pub description: String,
    /// Argument schema, or `None` for a tool with no parameters.
    pub parameters: Option<ToolParameters>,
}

/// The arguments a tool declares, in the order they were added.
pub open spec fn tool_properties(tool: Tool) -> Seq<ToolParameterProperty> {
    match tool.parameters {
        Some(p) => p.properties@,
        None => Seq::empty(),
    }
}

/// The names a tool lists as required, in the order they were added.
pub open spec fn tool_required(tool: Tool) -> Seq<String> {
    match tool.parameters {
        Some(p) => p.required@,
        None => Seq::empty(),
    }
}

/// `added` is `tool` with `property` appended to its arguments, and its name
/// appended to the required names when `required` holds.
pub open spec fn tool_with_parameter(
    tool: Tool,
    added: Tool,
    property: ToolParameterProperty,
    required: bool,
) -> bool {
    &&& added.name == tool.name
    &&& added.description == tool.description
    &&& added.parameters is Some
    &&& tool_properties(added) == tool_properties(tool).push(property)
    &&& tool_required(added) == if required {
        tool_required(tool).push(property.name)
    } else {
        tool_required(tool)
    }
}

/// Every name the tool lists as required is the name of one of its arguments.
pub open spec fn required_declared(tool: Tool) -> bool {
    forall|i: int|
        0 <= i < tool_required(tool).len() ==> exists|j: int|
            0 <= j < tool_properties(tool).len() && (#[trigger] tool_properties(tool)[j]).name
                == #[trigger] tool_required(tool)[i]
}

/// A new tool lists no required name, and adding an argument, required or not,
/// keeps every required name the name of a declared argument: a tool built with
/// `Tool::new`, `required_parameter` and `optional_parameter` never requires an
/// argument it does not declare.
pub proof fn law_required_names_are_declared(
    tool: Tool,
    added: Tool,
    property: ToolParameterProperty,
    required: bool,
)
    requires
        required_declared(tool),
        tool_with_parameter(tool, added, property, required),
    ensures
        required_declared(added),
{
    let old_props = tool_properties(tool);
    let new_props = tool_properties(added);
    let old_req = tool_required(tool);
    let new_req = tool_required(added);
    assert forall|i: int| 0 <= i < new_req.len() implies exists|j: int|
        0 <= j < new_props.len() && (#[trigger] new_props[j]).name == #[trigger] new_req[i] by {
        if i < old_req.len() {
            assert(new_req[i] == old_req[i]);
            let j = choose|j: int|
                0 <= j < old_props.len() && (#[trigger] old_props[j]).name == #[trigger] old_req[i];
            assert(new_props[j] == old_props[j]);
        } else {
            assert(new_props[old_props.len() as int] == property);
        }
    }
}

impl Tool {
    /// Creates a tool with no parameters.
    pub fn new(name: &str, description: &str) -> (tool: Self)
        ensures
            tool.name@ == name@,
            tool.description@ == description@,
            tool.parameters is None,
            required_declared(tool),
    {
        Tool { name: name.to_owned(), description: description.to_owned(), parameters: None }
    }

    /// Adds an argument and records its name in the required list.
    pub fn required_parameter(self, parameter_property: ToolParameterProperty) -> (tool: Self)
        ensures
            tool_with_parameter(self, tool, parameter_property, true),
    {
        self.parameter(parameter_property, true)
    }

    /// Adds an argument without marking it as required.
    pub fn optional_parameter(self, parameter_property: ToolParameterProperty) -> (tool: Self)
        ensures
            tool_with_parameter(self, tool, parameter_property, false),
    {
        self.parameter(parameter_property, false)
    }

    fn parameter(self, parameter_property: ToolParameterProperty, required: bool) -> (tool: Self)
        ensures
            tool_with_parameter(self, tool, parameter_property, required),
    {
        let Tool { name, description, parameters } = self;
        let mut parameters = match parameters {
            Some(p) => p,
            None => ToolParameters { properties: Vec::new(), required: Vec::new() },
        };
        if required {
            parameters.required.push(parameter_property.name.clone());
        }
        parameters.properties.push(parameter_property);
        Tool { name, description, parameters: Some(parameters) }
    }
}

/// The requested reasoning level. Support and meaning depend on the provider and model.
#[derive(Clone, Copy, Debug)]
#[non_exhaustive]
pub enum ReasoningEffort {
    /// Requests no reasoning.
    NoReasoning,
    /// Requests minimal reasoning.
    Minimal,
    /// Requests low reasoning effort.
    Low,
    /// Requests medium reasoning effort.
    Medium,
    /// Requests high reasoning effort.
    High,
    /// Requests extra-high reasoning effort.
    XHigh,
    /// Requests the maximum reasoning effort.
    Max,
}

impl ReasoningEffort {
    /// All reasoning levels, ordered from none to maximum.
    pub const ALL: [ReasoningEffort; 7] = [
        ReasoningEffort::NoReasoning,
        ReasoningEffort::Minimal,
        ReasoningEffort::Low,
        ReasoningEffort::Medium,
        ReasoningEffort::High,
        ReasoningEffort::XHigh,
        ReasoningEffort::Max,
    ];
}

/// A completion request that borrows its conversation history.
#[non_exhaustive]
pub struct CompletionRequest<'a> {
    /// Provider model identifier to send the request to.
    pub model: String,
    /// Conversation history in the order the model should receive it.
    pub messages: &'a [Message],
    /// Tools available to the model, or `None` to omit tool definitions.
    pub tools: Option<Vec<Tool>>,
    /// Requested reasoning level, or `None` to leave it to the provider.
    pub reasoning_effort: Option<ReasoningEffort>,
}

impl<'a> CompletionRequest<'a> {
    /// Creates a request with no tools or explicit reasoning level.
    pub fn new(model: String, messages: &'a [Message]) -> (request: Self)
        ensures
            request.model == model,
            request.messages@ == messages@,
            request.tools is None,
            request.reasoning_effort is None,
    {
        CompletionRequest { model, messages, tools: None, reasoning_effort: None }
    }
}

/// A completed model response, which may contain text, reasoning, or tool calls.
#[derive(Debug)]
#[non_exhaustive]
pub struct CompletionResponse {
    /// Model identifier reported by the provider.
    pub model: String,
    /// Response text, when the provider supplies it.
    pub text: Option<String>,
    /// Reasoning text, when the provider exposes it.
    pub reasoning: Option<String>,
    /// Function calls requested by the model for the caller to execute.
    pub tool_calls: Vec<ToolCall>,
}

impl CompletionResponse {
    /// Creates a response with the supplied tool calls and no text or reasoning.
    pub fn new(model: String, tool_calls: Vec<ToolCall>) -> (response: Self)
        ensures
            response.model == model,
            response.text is None,
            response.reasoning is None,
            response.tool_calls == tool_calls,
    {
        CompletionResponse { model, text: None, reasoning: None, tool_calls }
    }
}

/// The reason a provider stopped generating a response.
#[derive(Debug)]
#[non_exhaustive]
pub enum FinishReason {
    /// The model finished normally or reached a stop sequence.
    Stop,
    /// Generation reached the output length limit.
    Length,
    /// The model requested one or more tool calls.
    ToolCalls,
    /// A content filter stopped generation.
    ContentFilter,
}

/// One update from a streaming completion.
///
/// Text and reasoning contain new fragments, not the full response so far.
#[derive(Debug)]
#[non_exhaustive]
pub struct CompletionChunk {
    /// New response text to append, if present.
    pub text: Option<String>,
    /// New reasoning text to append, if present.
    pub reasoning: Option<String>,
    /// Tool calls delivered in this update.
    /// The OpenAI-compatible adapter assembles them before emitting them on a finish event.
    pub tool_calls: Vec<ToolCall>,
    /// Reason generation stopped, if reported in this update.
    pub finished_reason: Option<FinishReason>,
}

impl CompletionChunk {
    /// Creates a chunk with the supplied tool calls and finish reason, without text or reasoning.
    pub fn new(tool_calls: Vec<ToolCall>, finished_reason: Option<FinishReason>) -> (chunk: Self)
        ensures
            chunk.text is None,
            chunk.reasoning is None,
            chunk.tool_calls == tool_calls,
            chunk.finished_reason == finished_reason,
    {
        CompletionChunk { text: None, reasoning: None, tool_calls, finished_reason }
    }
}

/// A function call requested by the model.
#[derive(Clone, Debug)]
#[non_exhaustive]
pub struct ToolCall {
    /// Provider call identifier used to match a tool result to this call.
    pub id: String,
    /// Name of the function to execute.
    pub name: String,
    /// Arguments as a JSON string. The caller must parse and validate them before use.
    pub arguments: String,
}

impl ToolCall {
    /// Creates a tool call without parsing or validating its arguments.
    pub fn new(id: String, name: String, arguments: String) -> (call: Self)
        ensures
            call.id == id,
            call.name == name,
            call.arguments == arguments,
    {
        ToolCall { id, name, arguments }
    }
}

/// One entry in a conversation sent to a model.
#[derive(Debug)]
#[non_exhaustive]
pub enum Message {
    /// Instructions that guide the model throughout the conversation.
    System {
        /// Instructions for the model.
        content: String,
    },
    /// Input from the user.
    User {
        /// Text supplied by the user.
        content: String,
    },
    /// A previous model response, including any requested tool calls.
    Assistant {
        /// Text from the model, if present.
        content: Option<String>,
        /// Function calls requested in this response.
        tool_calls: Vec<ToolCall>,
        /// Reasoning text to include in the conversation history, if present.
        reasoning: Option<String>,
    },
    /// The result of a tool call executed by the caller.
    Tool {
        /// Identifier of the tool call this result answers.
        tool_call_id: String,
        /// Tool output to return to the model.
        content: String,
    },
}

} // verus!
