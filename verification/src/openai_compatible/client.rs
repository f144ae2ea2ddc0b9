//! The OpenAI-compatible client: its builder, the endpoints it calls, and what it
//! does with requests before they are sent and with responses once they arrive.
use crate::error::LlmError;
use crate::models::{CompletionRequest, CompletionResponse, Model, Tool, ToolCall};
use crate::openai_compatible::errors::{ClientBuildError, OpenAiClientError};
use crate::openai_compatible::mapping::{
    model_result, provider_message_of, provider_tool_of, reasoning_effort_name, to_domain_model,
    to_domain_toolcall, to_provider_message, to_provider_reasoning_effort, to_provider_tools,
};
use crate::openai_compatible::models::{
    message_content, message_reasoning, message_tool_calls, opt_str_view, ChatCompletionTool,
    ChatCompletionsMessage,
    ChatCompletionsMessageRequest, ChatCompletionsRequest, ChatCompletionsResponse, ProviderModel,
};
use crate::openai_compatible::sse::opt_string_view;
use core::time::Duration;
use vstd::prelude::*;
use vstd::string::StringExecFns;

verus! {

/// An HTTP client that sends the requests.
#[verifier::external_type_specification]
#[verifier::external_body]
pub struct ExReqwestClient(reqwest::Client);

/// The duration of a whole number of seconds.
pub uninterp spec fn seconds(secs: u64) -> Duration;

/// `Duration::from_secs` gives the duration of that many whole seconds.
pub assume_specification[ core::time::Duration::from_secs ](secs: u64) -> (d: Duration)
    ensures
        d == seconds(secs),
;

/// An HTTP client together with the read timeout it was built with.
struct TimedHttpClient {
    client: reqwest::Client,
    read_timeout: Ghost<Duration>,
}

/// Calls `reqwest::Client::builder().read_timeout(timeout).build()`. A client it
/// makes waits `timeout` for response data (`read_timeout` stores the value and
/// `build` hands it to the client). Whether building succeeds is not stated: it
/// can fail for reasons of the machine (its TLS backend, its resolver).
#[verifier::external_body]
fn build_http_client(timeout: Duration) -> (http: Result<TimedHttpClient, reqwest::Error>)
    ensures
        http matches Ok(h) ==> h.read_timeout@ == timeout,
{
    match reqwest::Client::builder().read_timeout(timeout).build() {
        Ok(client) => Ok(TimedHttpClient { client, read_timeout: Ghost(timeout) }),
        Err(e) => Err(e),
    }
}

/// The read timeout a new builder starts with, in seconds.
pub const DEFAULT_TIMEOUT_SECS: u64 = 120u64;

/// Collects the settings of an [`OpenAiCompatibleClient`].
pub struct OpenAiCompatibleClientBuilder {
    base_url: Option<String>,
    api_key: Option<String>,
    timeout: Duration,
}

impl OpenAiCompatibleClientBuilder {
    /// The base URL set so far.
    pub closed spec fn spec_base_url(self) -> Option<String> {
        self.base_url
    }

    /// The API key set so far.
    pub closed spec fn spec_api_key(self) -> Option<String> {
        self.api_key
    }

    /// The read timeout set so far.
    pub closed spec fn spec_timeout(self) -> Duration {
        self.timeout
    }

    /// A builder with no base URL, no API key and a read timeout of two minutes.
    pub fn new() -> (builder: Self)
        ensures
            builder.spec_base_url() is None,
            builder.spec_api_key() is None,
            builder.spec_timeout() == seconds(DEFAULT_TIMEOUT_SECS),
    {
        OpenAiCompatibleClientBuilder {
            base_url: None,
            api_key: None,
            timeout: Duration::from_secs(DEFAULT_TIMEOUT_SECS),
        }
    }

    /// Sets the provider's base URL, such as `http://localhost:8080/v1`.
    pub fn base_url(self, url: &str) -> (builder: Self)
        ensures
            builder.spec_base_url() matches Some(u) && u@ == url@,
            builder.spec_api_key() == self.spec_api_key(),
            builder.spec_timeout() == self.spec_timeout(),
    {
        OpenAiCompatibleClientBuilder { base_url: Some(url.to_owned()), ..self }
    }

    /// Sets the key sent as a bearer token.
    pub fn api_key(self, key: &str) -> (builder: Self)
        ensures
            builder.spec_api_key() matches Some(k) && k@ == key@,
            builder.spec_base_url() == self.spec_base_url(),
            builder.spec_timeout() == self.spec_timeout(),
    {
        OpenAiCompatibleClientBuilder { api_key: Some(key.to_owned()), ..self }
    }

    /// Sets how long to wait for response data before giving up.
    pub fn timeout(self, timeout: Duration) -> (builder: Self)
        ensures
            builder.spec_timeout() == timeout,
            builder.spec_base_url() == self.spec_base_url(),
            builder.spec_api_key() == self.spec_api_key(),
    {
        OpenAiCompatibleClientBuilder { timeout, ..self }
    }

    /// Builds the client. Without a base URL this fails with
    /// [`ClientBuildError::MissingBaseUrl`] before any HTTP client is made; a
    /// failure to make the HTTP client is [`ClientBuildError::HttpClient`]. A built
    /// client keeps the base URL and key, and its HTTP client has the builder's
    /// read timeout.
    pub fn build(self) -> (client: Result<OpenAiCompatibleClient, ClientBuildError>)
        ensures
            match self.spec_base_url() {
                None => client matches Err(ClientBuildError::MissingBaseUrl),
                Some(url) => match client {
                    Ok(c) => c.spec_base_url() == url && c.spec_api_key() == self.spec_api_key()
                        && c.spec_read_timeout() == self.spec_timeout(),
                    Err(e) => e is HttpClient,
                },
            },
    {
        let base_url = match self.base_url {
            Some(url) => url,
            None => {
                return Err(ClientBuildError::MissingBaseUrl);
            },
        };
        match build_http_client(self.timeout) {
            Ok(http) => Ok(OpenAiCompatibleClient { http, base_url, api_key: self.api_key }),
            Err(e) => Err(ClientBuildError::HttpClient(e)),
        }
    }
}

impl Default for OpenAiCompatibleClientBuilder {
    fn default() -> (builder: Self)
        ensures
            builder.spec_base_url() is None,
            builder.spec_api_key() is None,
            builder.spec_timeout() == seconds(DEFAULT_TIMEOUT_SECS),
    {
        Self::new()
    }
}

/// A client for a provider that speaks the OpenAI chat completions API.
pub struct OpenAiCompatibleClient {
    http: TimedHttpClient,
    base_url: String,
    api_key: Option<String>,
}

/// The text of `base` followed by `suffix`.
pub open spec fn joined(base: String, suffix: Seq<char>) -> Seq<char> {
    base@ + suffix
}

impl OpenAiCompatibleClient {
    /// The provider's base URL.
    pub closed spec fn spec_base_url(self) -> String {
        self.base_url
    }

    /// The key sent as a bearer token, if any.
    pub closed spec fn spec_api_key(self) -> Option<String> {
        self.api_key
    }

    /// The HTTP client the builder made, which every request goes through.
    pub closed spec fn spec_http(self) -> reqwest::Client {
        self.http.client
    }

    /// How long the HTTP client waits for response data.
    pub closed spec fn spec_read_timeout(self) -> Duration {
        self.http.read_timeout@
    }

    /// A builder with the default settings.
    pub fn builder() -> (builder: OpenAiCompatibleClientBuilder)
        ensures
            builder.spec_base_url() is None,
            builder.spec_api_key() is None,
            builder.spec_timeout() == seconds(DEFAULT_TIMEOUT_SECS),
    {
        OpenAiCompatibleClientBuilder::new()
    }

    /// The HTTP client requests go through.
    pub fn http(&self) -> (http: &reqwest::Client)
        ensures
            *http == self.spec_http(),
    {
        &self.http.client
    }

    /// The key sent as a bearer token, if any.
    pub fn api_key(&self) -> (key: Option<&str>)
        ensures
            opt_str_view(key) == opt_string_view(self.spec_api_key()),
    {
        match &self.api_key {
            Some(k) => Some(k.as_str()),
            None => None,
        }
    }

    /// The model-list endpoint: the base URL followed by `/models`.
    pub fn models_url(&self) -> (url: String)
        ensures
            url@ == joined(self.spec_base_url(), "/models"@),
    {
        let mut url = self.base_url.clone();
        url.append("/models");
        url
    }

    /// The chat completions endpoint: the base URL followed by `/chat/completions`.
    pub fn chat_completions_url(&self) -> (url: String)
        ensures
            url@ == joined(self.spec_base_url(), "/chat/completions"@),
    {
        let mut url = self.base_url.clone();
        url.append("/chat/completions");
        url
    }
}

/// Whether a status is a success: `200..300`.
pub fn is_success(code: u16) -> (success: bool)
    ensures
        success == (200 <= code < 300),
{
    200 <= code && code < 300
}

/// The body of a response whose status is a success (`200..300`); any other
/// status is an error that keeps the status and the body.
pub fn response_body(code: u16, body: String) -> (result: Result<String, OpenAiClientError>)
    ensures
        200 <= code < 300 ==> result == Ok::<String, OpenAiClientError>(body),
        !(200 <= code < 300) ==> result == Err::<String, OpenAiClientError>(
            OpenAiClientError::Status { code, body },
        ),
{
    if is_success(code) {
        Ok(body)
    } else {
        Err(OpenAiClientError::Status { code, body })
    }
}

/// `out` is the request in the provider's format: the model and the stream flag
/// as given, every message and tool translated one for one and in order, and
/// the reasoning level by the provider's name for it.
pub open spec fn chat_request_of(
    request: CompletionRequest,
    stream: bool,
    out: ChatCompletionsRequest,
) -> bool {
    &&& out.model == request.model
    &&& out.stream == stream
    &&& out.messages@.len() == request.messages@.len()
    &&& forall|i: int|
        0 <= i < request.messages@.len() ==> provider_message_of(
            request.messages@[i],
            #[trigger] out.messages@[i],
        )
    &&& match request.tools {
        None => out.tools is None,
        Some(tools) => out.tools matches Some(translated) && translated@.len() == tools@.len()
            && forall|i: int|
            0 <= i < tools@.len() ==> provider_tool_of(tools@[i], #[trigger] translated@[i]),
    }
    &&& match request.reasoning_effort {
        None => out.reasoning_effort is None,
        Some(effort) => out.reasoning_effort matches Some(name) && name@ == reasoning_effort_name(
            effort,
        ),
    }
}

/// Tool definitions in the provider's format, one for one and in order.
fn to_provider_tool_list(tools: Vec<Tool>) -> (out: Vec<ChatCompletionTool>)
    ensures
        out@.len() == tools@.len(),
        forall|i: int| 0 <= i < tools@.len() ==> provider_tool_of(tools@[i], #[trigger] out@[i]),
{
    let ghost all = tools@;
    let mut out: Vec<ChatCompletionTool> = Vec::new();
    for tool in it: tools
        invariant
            it.seq() == all,
            out@.len() == it.index(),
            forall|j: int| 0 <= j < it.index() ==> provider_tool_of(all[j], #[trigger] out@[j]),
    {
        out.push(to_provider_tools(tool));
    }
    out
}

/// The request to send for a completion, streamed or not.
pub fn chat_completions_request(request: CompletionRequest, stream: bool) -> (out:
    ChatCompletionsRequest)
    ensures
        chat_request_of(request, stream, out),
{
    let CompletionRequest { model, messages, tools, reasoning_effort } = request;
    let mut translated: Vec<ChatCompletionsMessageRequest> = Vec::new();
    let mut i: usize = 0;
    while i < messages.len()
        invariant
            0 <= i <= messages@.len(),
            translated@.len() == i,
            forall|j: int| 0 <= j < i ==> provider_message_of(messages@[j], #[trigger] translated@[j]),
        decreases messages@.len() - i,
    {
        translated.push(to_provider_message(&messages[i]));
        i = i + 1;
    }
    let tools = match tools {
        Some(t) => Some(to_provider_tool_list(t)),
        None => None,
    };
    let reasoning_effort = match reasoning_effort {
        Some(e) => Some(to_provider_reasoning_effort(e)),
        None => None,
    };
    ChatCompletionsRequest { model, messages: translated, stream, tools, reasoning_effort }
}

/// The error reported when a completion response holds no alternative.
pub open spec fn no_choices_message() -> Seq<char> {
    "Provider returned no choices"@
}

/// `out` is the first alternative of `response` in ferox's terms: the model that
/// answered, the message text and reasoning, and its tool calls one for one.
pub open spec fn completion_of(response: ChatCompletionsResponse, out: CompletionResponse) -> bool {
    let message = response.choices@[0].message;
    &&& out.model == response.model
    &&& opt_string_view(out.text) == message_content(message)
    &&& opt_string_view(out.reasoning) == message_reasoning(message)
    &&& out.tool_calls@.len() == message_tool_calls(message).len()
    &&& forall|i: int|
        0 <= i < out.tool_calls@.len() ==> {
            let call = #[trigger] out.tool_calls@[i];
            let sent = message_tool_calls(message)[i];
            &&& call.id == sent.id
            &&& call.name == sent.function.name
            &&& call.arguments == sent.function.arguments
        }
}

/// An owned copy of an optional borrowed string.
fn owned_opt(s: Option<&str>) -> (owned: Option<String>)
    ensures
        opt_string_view(owned) == opt_str_view(s),
{
    match s {
        Some(t) => Some(t.to_owned()),
        None => None,
    }
}

/// The completion a provider's response amounts to: its first alternative, or an
/// error when it has none.
pub fn completion_response(response: ChatCompletionsResponse) -> (result: Result<
    CompletionResponse,
    LlmError,
>)
    ensures
        response.choices@.len() == 0 ==> (result matches Err(LlmError::InvalidResponse { message })
            && message@ == no_choices_message()),
        response.choices@.len() > 0 ==> (result matches Ok(out) && completion_of(response, out)),
        response.choices@.len() > 0 ==> (response.choices@[0].message matches
            ChatCompletionsMessage::Assistant { content, reasoning_content, .. } ==> (result matches Ok(
            out,
        ) && opt_string_view(out.text) == opt_string_view(content) && opt_string_view(out.reasoning)
            == opt_string_view(reasoning_content))),
{
    if response.choices.len() == 0 {
        return Err(LlmError::InvalidResponse {
            message: String::from_str("Provider returned no choices"),
        });
    }
    let message = &response.choices[0].message;
    let text = owned_opt(message.content());
    let reasoning = owned_opt(message.reasoning_content());
    let sent = message.tool_calls();
    let mut tool_calls: Vec<ToolCall> = Vec::new();
    let mut i: usize = 0;
    while i < sent.len()
        invariant
            0 <= i <= sent@.len(),
            sent@ == message_tool_calls(*message),
            tool_calls@.len() == i,
            forall|j: int|
                0 <= j < i ==> {
                    let call = #[trigger] tool_calls@[j];
                    &&& call.id == sent@[j].id
                    &&& call.name == sent@[j].function.name
                    &&& call.arguments == sent@[j].function.arguments
                },
        decreases sent@.len() - i,
    {
        tool_calls.push(to_domain_toolcall(&sent[i]));
        i = i + 1;
    }
    Ok(CompletionResponse { model: response.model, text, reasoning, tool_calls })
}

/// Every format of the provider's model is one ferox knows.
pub open spec fn model_known(model: ProviderModel) -> bool {
    &&& forall|i: int|
        0 <= i < model.input_modalities@.len() ==> crate::openai_compatible::mapping::domain_modality(
            #[trigger] model.input_modalities@[i]@,
        ) is Some
    &&& forall|i: int|
        0 <= i < model.output_modalities@.len()
            ==> crate::openai_compatible::mapping::domain_modality(
            #[trigger] model.output_modalities@[i]@,
        ) is Some
}

/// `result` is every provider model in ferox's terms, in order, or the error for
/// the first model with a format ferox does not know.
pub open spec fn models_result(models: Seq<ProviderModel>, result: Result<Vec<Model>, LlmError>) -> bool {
    match result {
        Ok(v) => v@.len() == models.len() && forall|i: int|
            0 <= i < models.len() ==> model_result(#[trigger] models[i], Ok(v@[i])),
        Err(e) => exists|i: int|
            0 <= i < models.len() && !model_known(#[trigger] models[i]) && (forall|j: int|
                0 <= j < i ==> model_known(#[trigger] models[j])) && model_result(models[i], Err(e)),
    }
}

/// The provider's models in ferox's terms.
pub fn domain_models(provider_models: Vec<ProviderModel>) -> (result: Result<Vec<Model>, LlmError>)
    ensures
        models_result(provider_models@, result),
{
    let ghost all = provider_models@;
    let mut out: Vec<Model> = Vec::new();
    for provider_model in it: provider_models
        invariant
            it.seq() == all,
            out@.len() == it.index(),
            forall|j: int| 0 <= j < it.index() ==> model_result(all[j], Ok(#[trigger] out@[j])),
    {
        let ghost n = it.index() as int;
        match to_domain_model(provider_model) {
            Ok(model) => {
                out.push(model);
            },
            Err(e) => {
                proof {
                    assert forall|j: int| 0 <= j < n implies model_known(#[trigger] all[j]) by {
                        assert(model_result(all[j], Ok(out@[j])));
                    }
                }
                return Err(e);
            },
        }
    }
    Ok(out)
}

} // verus!
