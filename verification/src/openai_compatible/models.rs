//! The OpenAI-compatible wire types: what is sent to and received from a
//! chat completions provider, before and after JSON encoding.
use crate::error::LlmError;
use crate::models::ToolCall;
use vstd::prelude::*;
use vstd::string::StringExecFns;

verus! {

/// A model in the provider's model list.
#[derive(Debug)]
pub struct ProviderModel {
    /// Model identifier.
    pub id: String,
    /// Input format names; empty when the provider lists none.
    pub input_modalities: Vec<String>,
    /// Output format names; empty when the provider lists none.
    pub output_modalities: Vec<String>,
}

/// The provider's answer to a model-list request.
#[derive(Debug)]
pub struct ModelsResponse {
    /// The advertised models.
    pub data: Vec<ProviderModel>,
}

/// The function part of a tool call.
#[derive(Debug)]
pub struct ChatCompletionToolCallFunction {
    /// Function name.
    pub name: String,
    /// Arguments as a JSON string.
    pub arguments: String,
}

/// A tool call in the provider's format.
#[derive(Debug)]
pub struct ChatCompletionToolCall {
    /// Call identifier.
    pub id: String,
    /// Call kind; `function` for every call ferox sends.
    pub tool_type: String,
    /// The requested function.
    pub function: ChatCompletionToolCallFunction,
}

/// A conversation entry sent to the provider, tagged by its role.
#[derive(Debug)]
pub enum ChatCompletionsMessageRequest {
    /// Instructions for the model.
    System {
        /// Instruction text.
        content: String,
    },
    /// User input.
    User {
        /// User text.
        content: String,
    },
    /// An earlier model response.
    Assistant {
        /// Response text, if any.
        content: Option<String>,
        /// Tool calls the model requested.
        tool_calls: Vec<ChatCompletionToolCall>,
        /// Reasoning text; left out of the encoding when absent.
        reasoning_content: Option<String>,
    },
    /// The result of a tool call.
    Tool {
        /// The call this result answers.
        tool_call_id: String,
        /// Tool output.
        content: String,
    },
}

/// A conversation entry received from the provider, tagged by its role.
#[derive(Debug)]
pub enum ChatCompletionsMessage {
    /// Instructions for the model.
    System {
        /// Instruction text.
        content: String,
    },
    /// User input.
    User {
        /// User text.
        content: String,
    },
    /// A model response.
    Assistant {
        /// Response text, if any.
        content: Option<String>,
        /// Tool calls the model requested; empty when the provider sends none.
        tool_calls: Vec<ChatCompletionToolCall>,
        /// Reasoning text, if any.
        reasoning_content: Option<String>,
    },
}

/// The text of a message received from the provider, if it has any.
pub open spec fn message_content(message: ChatCompletionsMessage) -> Option<Seq<char>> {
    match message {
        ChatCompletionsMessage::System { content } => Some(content@),
        ChatCompletionsMessage::User { content } => Some(content@),
        ChatCompletionsMessage::Assistant { content, .. } => match content {
            Some(c) => Some(c@),
            None => None,
        },
    }
}

/// The reasoning text of a message received from the provider, if it has any.
pub open spec fn message_reasoning(message: ChatCompletionsMessage) -> Option<Seq<char>> {
    match message {
        ChatCompletionsMessage::Assistant { reasoning_content, .. } => match reasoning_content {
            Some(r) => Some(r@),
            None => None,
        },
        _ => None,
    }
}

/// The text of a received message is its content and nothing else, and its
/// reasoning is its reasoning content and nothing else: an assistant message
/// without content has no text whatever reasoning it carries, one without
/// reasoning content has no reasoning whatever text it carries, and system and
/// user messages carry no reasoning.
pub proof fn law_text_and_reasoning_stay_apart(message: ChatCompletionsMessage)
    ensures
        message matches ChatCompletionsMessage::Assistant { content: None, .. } ==> message_content(
            message,
        ) is None,
        message matches ChatCompletionsMessage::Assistant { content: Some(c), .. } ==> message_content(
            message,
        ) == Some(c@),
        message matches ChatCompletionsMessage::Assistant { reasoning_content: None, .. }
            ==> message_reasoning(message) is None,
        message matches ChatCompletionsMessage::Assistant { reasoning_content: Some(r), .. }
            ==> message_reasoning(message) == Some(r@),
        message matches ChatCompletionsMessage::System { content } ==> message_content(message)
            == Some(content@) && message_reasoning(message) is None,
        message matches ChatCompletionsMessage::User { content } ==> message_content(message) == Some(
            content@,
        ) && message_reasoning(message) is None,
{
}

/// The tool calls of a message received from the provider.
pub open spec fn message_tool_calls(message: ChatCompletionsMessage) -> Seq<ChatCompletionToolCall> {
    match message {
        ChatCompletionsMessage::Assistant { tool_calls, .. } => tool_calls@,
        _ => Seq::empty(),
    }
}

/// The text of an optional borrowed string.
pub open spec fn opt_str_view(s: Option<&str>) -> Option<Seq<char>> {
    match s {
        Some(t) => Some(t@),
        None => None,
    }
}

impl ChatCompletionsMessage {
    /// The message text: always present for system and user messages, optional for the assistant.
    pub fn content(&self) -> (content: Option<&str>)
        ensures
            opt_str_view(content) == message_content(*self),
            *self matches ChatCompletionsMessage::Assistant { content: None, .. } ==> content is None,
            *self matches ChatCompletionsMessage::Assistant { content: Some(c), .. } ==> content
                matches Some(t) && t@ == c@,
            *self matches ChatCompletionsMessage::System { content: c } ==> content matches Some(t)
                && t@ == c@,
            *self matches ChatCompletionsMessage::User { content: c } ==> content matches Some(t)
                && t@ == c@,
    {
        match self {
            ChatCompletionsMessage::System { content } => Some(content.as_str()),
            ChatCompletionsMessage::User { content } => Some(content.as_str()),
            ChatCompletionsMessage::Assistant { content, .. } => match content {
                Some(c) => Some(c.as_str()),
                None => None,
            },
        }
    }

    /// The reasoning text; only an assistant message can carry one.
    pub fn reasoning_content(&self) -> (reasoning: Option<&str>)
        ensures
            opt_str_view(reasoning) == message_reasoning(*self),
            *self matches ChatCompletionsMessage::Assistant { reasoning_content: None, .. }
                ==> reasoning is None,
            *self matches ChatCompletionsMessage::Assistant { reasoning_content: Some(r), .. }
                ==> reasoning matches Some(t) && t@ == r@,
            !(*self is Assistant) ==> reasoning is None,
    {
        match self {
            ChatCompletionsMessage::Assistant { reasoning_content, .. } => match reasoning_content {
                Some(r) => Some(r.as_str()),
                None => None,
            },
            _ => None,
        }
    }

    /// The tool calls; only an assistant message can carry any.
    pub fn tool_calls(&self) -> (calls: &[ChatCompletionToolCall])
        ensures
            calls@ == message_tool_calls(*self),
    {
        match self {
            ChatCompletionsMessage::Assistant { tool_calls, .. } => tool_calls.as_slice(),
            _ => &[],
        }
    }
}

/// The JSON schema type of a tool argument, in the provider's format.
#[derive(Debug)]
pub enum ChatCompletionToolParameterPropertyType {
    /// `string`
    String,
    /// `number`
    Number,
    /// `integer`
    Integer,
    /// `boolean`
    Boolean,
}

impl ChatCompletionToolParameterPropertyType {
    /// The JSON schema name of the type, as it is encoded.
    pub fn schema_name(&self) -> (name: &'static str)
        ensures
            name@ == match *self {
                ChatCompletionToolParameterPropertyType::String => "string"@,
                ChatCompletionToolParameterPropertyType::Number => "number"@,
                ChatCompletionToolParameterPropertyType::Integer => "integer"@,
                ChatCompletionToolParameterPropertyType::Boolean => "boolean"@,
            },
    {
        match self {
            ChatCompletionToolParameterPropertyType::String => "string",
            ChatCompletionToolParameterPropertyType::Number => "number",
            ChatCompletionToolParameterPropertyType::Integer => "integer",
            ChatCompletionToolParameterPropertyType::Boolean => "boolean",
        }
    }
}

/// One tool argument in the provider's format.
#[derive(Debug)]
pub struct ChatCompletionToolParameterProperty {
    /// JSON schema type.
    pub property_type: ChatCompletionToolParameterPropertyType,
    /// Description for the model.
    pub description: String,
    /// Allowed values; left out of the encoding when absent.
    pub property_enum: Option<Vec<String>>,
}

/// A tool's argument schema in the provider's format. The properties form a JSON
/// object, keyed by argument name: no name occurs twice.
#[derive(Debug)]
pub struct ChatCompletionToolParameters {
    /// Schema type; `object` for every schema ferox sends.
    pub parameter_type: String,
    /// Arguments by name.
    pub properties: Vec<(String, ChatCompletionToolParameterProperty)>,
    /// Names of the arguments that must be supplied.
    pub required: Vec<String>,
}

/// A tool definition in the provider's format.
#[derive(Debug)]
pub struct ChatCompletionTool {
    /// Definition kind; `function` for every tool ferox sends.
    pub tool_type: String,
    /// The function the model may call.
    pub function: ChatCompletionFunction,
}

/// A callable function in the provider's format.
#[derive(Debug)]
pub struct ChatCompletionFunction {
    /// Function name.
    pub name: String,
    /// Description for the model.
    pub description: String,
    /// Argument schema; left out of the encoding when absent.
    pub parameters: Option<ChatCompletionToolParameters>,
}

/// A chat completions request in the provider's format.
#[derive(Debug)]
pub struct ChatCompletionsRequest {
    /// Model identifier.
    pub model: String,
    /// Conversation history.
    pub messages: Vec<ChatCompletionsMessageRequest>,
    /// Whether the response is streamed as server-sent events.
    pub stream: bool,
    /// Tool definitions; encoded as `null` when absent.
    pub tools: Option<Vec<ChatCompletionTool>>,
    /// Requested reasoning level; left out of the encoding when absent.
    pub reasoning_effort: Option<String>,
}

/// Why the provider stopped generating.
#[derive(Debug)]
pub enum ChoicesFinishReason {
    /// `stop`
    Stop,
    /// `length`
    Length,
    /// `tool_calls`
    ToolCalls,
    /// `content_filter`
    ContentFilter,
}

/// One alternative of a chat completions response.
#[derive(Debug)]
pub struct ChatCompletionChoices {
    /// The generated message.
    pub message: ChatCompletionsMessage,
}

/// A chat completions response in the provider's format.
#[derive(Debug)]
pub struct ChatCompletionsResponse {
    /// The generated alternatives.
    pub choices: Vec<ChatCompletionChoices>,
    /// The model that answered.
    pub model: String,
}

/// A fragment of a streamed tool call, addressed by its position in the response.
#[derive(Debug)]
pub struct ChatCompletionsToolCallDelta {
    /// Position of the call the fragment belongs to.
    pub index: usize,
    /// Call identifier, when this fragment carries it.
    pub id: Option<String>,
    /// Function fragment.
    pub function: ChatCompletionsToolCallFunctionDelta,
}

/// A fragment of a streamed function call.
#[derive(Debug)]
pub struct ChatCompletionsToolCallFunctionDelta {
    /// Function name, when this fragment carries it.
    pub name: Option<String>,
    /// The next piece of the arguments text.
    pub arguments: Option<String>,
}

/// The new content of one streamed update.
#[derive(Debug)]
pub struct ChatCompletionsStreamDelta {
    /// New response text.
    pub content: Option<String>,
    /// New reasoning text (sent as `reasoning_content` or `reasoning`).
    pub reasoning_content: Option<String>,
    /// Tool call fragments; empty when the provider sends none.
    pub tool_calls: Vec<ChatCompletionsToolCallDelta>,
}

/// One alternative of a streamed update.
#[derive(Debug)]
pub struct ChatCompletionsStreamChoice {
    /// The new content.
    pub delta: ChatCompletionsStreamDelta,
    /// Set on the update that ends generation.
    pub finish_reason: Option<ChoicesFinishReason>,
}

/// One streamed update in the provider's format.
#[derive(Debug)]
pub struct ChatCompletionsStreamResponse {
    /// The alternatives.
    pub choices: Vec<ChatCompletionsStreamChoice>,
}

/// A tool call being assembled from streamed fragments.
#[derive(Debug)]
pub struct PendingToolCall {
    /// Identifier, once a fragment has carried it.
    pub id: Option<String>,
    /// Function name, once a fragment has carried it.
    pub name: Option<String>,
    /// The argument pieces received so far, joined.
    pub arguments: String,
}

impl Default for PendingToolCall {
    fn default() -> (call: Self)
        ensures
            call@ == empty_pending(),
    {
        PendingToolCall { id: None, name: None, arguments: String::new() }
    }
}

/// What a pending tool call holds, with its arguments as text.
pub struct PendingView {
    /// Identifier, once a fragment has carried it.
    pub id: Option<String>,
    /// Function name, once a fragment has carried it.
    pub name: Option<String>,
    /// The argument pieces received so far, joined.
    pub arguments: Seq<char>,
}

impl View for PendingToolCall {
    type V = PendingView;

    open spec fn view(&self) -> PendingView {
        PendingView { id: self.id, name: self.name, arguments: self.arguments@ }
    }
}

/// A call no fragment has reached yet.
pub open spec fn empty_pending() -> PendingView {
    PendingView { id: None, name: None, arguments: Seq::empty() }
}

/// `pending` with one fragment applied: a carried identifier or name replaces
/// the one held, and a carried argument piece is appended.
pub open spec fn apply_delta(pending: PendingView, delta: ChatCompletionsToolCallDelta) -> PendingView {
    PendingView {
        id: if delta.id is Some {
            delta.id
        } else {
            pending.id
        },
        name: if delta.function.name is Some {
            delta.function.name
        } else {
            pending.name
        },
        arguments: match delta.function.arguments {
            Some(a) => pending.arguments + a@,
            None => pending.arguments,
        },
    }
}

/// `pending` with `deltas` applied one after another, in order.
pub open spec fn apply_delta_seq(
    pending: PendingView,
    deltas: Seq<ChatCompletionsToolCallDelta>,
) -> PendingView
    decreases deltas.len(),
{
    if deltas.len() == 0 {
        pending
    } else {
        apply_delta_seq(apply_delta(pending, deltas[0]), deltas.drop_first())
    }
}

/// The identifier the last fragment that carries one carries, or `current`
/// when none does.
pub open spec fn latest_id(deltas: Seq<ChatCompletionsToolCallDelta>, current: Option<String>) -> Option<
    String,
>
    decreases deltas.len(),
{
    if deltas.len() == 0 {
        current
    } else {
        latest_id(
            deltas.drop_first(),
            if deltas[0].id is Some {
                deltas[0].id
            } else {
                current
            },
        )
    }
}

/// The function name the last fragment that carries one carries, or `current`
/// when none does.
pub open spec fn latest_name(deltas: Seq<ChatCompletionsToolCallDelta>, current: Option<String>) -> Option<
    String,
>
    decreases deltas.len(),
{
    if deltas.len() == 0 {
        current
    } else {
        latest_name(
            deltas.drop_first(),
            if deltas[0].function.name is Some {
                deltas[0].function.name
            } else {
                current
            },
        )
    }
}

/// The argument piece a fragment carries, empty when it carries none.
pub open spec fn argument_piece(delta: ChatCompletionsToolCallDelta) -> Seq<char> {
    match delta.function.arguments {
        Some(a) => a@,
        None => Seq::empty(),
    }
}

/// The argument pieces of `deltas`, joined in order.
pub open spec fn joined_arguments(deltas: Seq<ChatCompletionsToolCallDelta>) -> Seq<char>
    decreases deltas.len(),
{
    if deltas.len() == 0 {
        Seq::empty()
    } else {
        argument_piece(deltas[0]) + joined_arguments(deltas.drop_first())
    }
}

/// Fragments accumulate: after any sequence of fragments a pending call holds
/// the identifier and the name that the last fragment carrying one carried
/// (what it held before, when none did), and its arguments followed by every
/// argument piece, joined in arrival order.
pub proof fn law_fragments_accumulate(pending: PendingView, deltas: Seq<ChatCompletionsToolCallDelta>)
    ensures
        apply_delta_seq(pending, deltas) == (PendingView {
            id: latest_id(deltas, pending.id),
            name: latest_name(deltas, pending.name),
            arguments: pending.arguments + joined_arguments(deltas),
        }),
    decreases deltas.len(),
{
    if deltas.len() == 0 {
        assert(pending.arguments + Seq::<char>::empty() =~= pending.arguments);
    } else {
        let next = apply_delta(pending, deltas[0]);
        law_fragments_accumulate(next, deltas.drop_first());
        assert(next.arguments =~= pending.arguments + argument_piece(deltas[0]));
        assert(next.arguments + joined_arguments(deltas.drop_first()) =~= pending.arguments + (
        argument_piece(deltas[0]) + joined_arguments(deltas.drop_first())));
    }
}

/// A fragment that carries no identifier, no name and no argument piece
/// changes nothing.
pub proof fn law_empty_fragment_changes_nothing(
    pending: PendingView,
    delta: ChatCompletionsToolCallDelta,
)
    requires
        delta.id is None,
        delta.function.name is None,
        delta.function.arguments is None,
    ensures
        apply_delta(pending, delta) == pending,
{
}

/// The message reported when a streamed tool call never received an identifier.
pub open spec fn missing_id_message() -> Seq<char> {
    "streamed tool call was missing an id"@
}

/// The message reported when a streamed tool call never received a function name.
pub open spec fn missing_name_message() -> Seq<char> {
    "streamed tool call was missing a function name"@
}

/// Both the identifier and the name of the call have arrived.
pub open spec fn pending_complete(pending: PendingView) -> bool {
    pending.id is Some && pending.name is Some
}

/// `call` is what the completed `pending` call becomes.
pub open spec fn call_of_pending(pending: PendingView, call: ToolCall) -> bool {
    &&& pending.id == Some(call.id)
    &&& pending.name == Some(call.name)
    &&& call.arguments@ == pending.arguments
}

/// `error` reports what the incomplete `pending` call lacks, the identifier first.
pub open spec fn pending_error(pending: PendingView, error: LlmError) -> bool {
    error matches LlmError::InvalidResponse { message } && message@ == if pending.id is None {
        missing_id_message()
    } else {
        missing_name_message()
    }
}

/// The tool call a pending call becomes, or the error when its identifier or
/// name never arrived.
pub open spec fn finished_call(pending: PendingView, result: Result<ToolCall, LlmError>) -> bool {
    match result {
        Ok(call) => pending_complete(pending) && call_of_pending(pending, call),
        Err(e) => !pending_complete(pending) && pending_error(pending, e),
    }
}

impl PendingToolCall {
    /// Applies one streamed fragment to the call.
    pub fn apply(&mut self, delta: &ChatCompletionsToolCallDelta)
        ensures
            final(self)@ == apply_delta(old(self)@, *delta),
    {
        match &delta.id {
            Some(id) => {
                self.id = Some(id.clone());
            },
            None => {},
        }
        match &delta.function.name {
            Some(name) => {
                self.name = Some(name.clone());
            },
            None => {},
        }
        match &delta.function.arguments {
            Some(arguments) => {
                self.arguments.append(arguments.as_str());
            },
            None => {},
        }
    }

    /// The assembled tool call, or an error when its identifier or name is missing.
    pub fn finish(self) -> (call: Result<ToolCall, LlmError>)
        ensures
            finished_call(self@, call),
    {
        let id = match self.id {
            Some(id) => id,
            None => {
                let message = String::from_str("streamed tool call was missing an id");
                return Err(LlmError::InvalidResponse { message });
            },
        };
        let name = match self.name {
            Some(name) => name,
            None => {
                let message = String::from_str("streamed tool call was missing a function name");
                return Err(LlmError::InvalidResponse { message });
            },
        };
        Ok(ToolCall { id, name, arguments: self.arguments })
    }
}

} // verus!
