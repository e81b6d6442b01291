//! What a request is made of: messages, generation settings, the request
//! body that joins the two, and the endpoint that the request goes to.

use crate::model::copy_text;
use crate::model::copy_texts;
use crate::model::text_view;
use crate::model::texts_view;
use crate::model::views;
use crate::scalar::copy_scalar;
use crate::scalar::Scalar;
use crate::scalar::scalar_view;
use crate::text::ascii_lowercase;
use crate::text::matches_keyword;
use vstd::prelude::*;
use vstd::string::StringExecFns;

verus! {

/// Who speaks in a message.
#[derive(Debug, Clone, Copy, PartialEq, Eq, Structural)]
pub enum Role {
    System,
    User,
    Assistant,
}

/// The role that `name` stands for, read without regard to the case of its
/// letters.
pub open spec fn role_named(name: Seq<char>) -> Option<Role> {
    let folded = ascii_lowercase(name);
    if folded == "system"@ {
        Some(Role::System)
    } else if folded == "assistant"@ {
        Some(Role::Assistant)
    } else if folded == "user"@ {
        Some(Role::User)
    } else {
        None
    }
}

impl Role {
    /// The role that `string` stands for, if it stands for one.
    pub fn from(string: &str) -> (role: Option<Role>)
        ensures
            role == role_named(string@),
    {
        if matches_keyword(string, "system") {
            Some(Role::System)
        } else if matches_keyword(string, "assistant") {
            Some(Role::Assistant)
        } else if matches_keyword(string, "user") {
            Some(Role::User)
        } else {
            None
        }
    }
}

/// One message of a conversation.
#[derive(Debug, PartialEq, Eq)]
pub struct Message {
    pub role: Role,
    pub content: String,
}

/// A [`Message`] as contracts see it.
pub struct MessageView {
    pub role: Role,
    pub content: Seq<char>,
}

impl View for Message {
    type V = MessageView;

    open spec fn view(&self) -> MessageView {
        MessageView { role: self.role, content: self.content@ }
    }
}

impl Clone for Message {
    fn clone(&self) -> (copy: Message)
        ensures
            copy@ == self@,
    {
        Message { role: self.role, content: self.content.clone() }
    }
}

impl Message {
    /// A message of the user.
    pub fn user(content: &str) -> (message: Message)
        ensures
            message@ == (MessageView { role: Role::User, content: content@ }),
    {
        Message { role: Role::User, content: String::from_str(content) }
    }

    /// A message of the assistant.
    pub fn assistant(content: &str) -> (message: Message)
        ensures
            message@ == (MessageView { role: Role::Assistant, content: content@ }),
    {
        Message { role: Role::Assistant, content: String::from_str(content) }
    }

    /// A message of the system.
    pub fn system(content: &str) -> (message: Message)
        ensures
            message@ == (MessageView { role: Role::System, content: content@ }),
    {
        Message { role: Role::System, content: String::from_str(content) }
    }
}

/// Copies a row of messages.
pub fn copy_messages(messages: &Vec<Message>) -> (copy: Vec<Message>)
    ensures
        views(copy@) == views(messages@),
{
    let mut copy: Vec<Message> = Vec::new();
    let mut i: usize = 0;
    while i < messages.len()
        invariant
            i <= messages.len(),
            copy@.len() == i,
            forall|k: int| 0 <= k < i ==> copy@[k]@ == messages@[k]@,
        decreases messages.len() - i,
    {
        copy.push(messages[i].clone());
        i += 1;
    }
    copy
}

/// The forms that the text of an answer can be asked to have.
#[derive(Debug, Clone, Copy, PartialEq, Eq, Structural)]
pub enum ResponseType {
    Text,
    JsonObject,
}

/// The form that the text of an answer is asked to have.
#[derive(Debug, Clone, Copy, PartialEq, Eq, Structural)]
pub struct ResponseFormat {
    pub kind: ResponseType,
}

impl ResponseFormat {
    /// An answer that is a JSON object.
    pub fn json_object() -> (format: ResponseFormat)
        ensures
            format.kind == ResponseType::JsonObject,
    {
        ResponseFormat { kind: ResponseType::JsonObject }
    }

    /// An answer that is plain text.
    pub fn text() -> (format: ResponseFormat)
        ensures
            format.kind == ResponseType::Text,
    {
        ResponseFormat { kind: ResponseType::Text }
    }
}

/// The generation settings, but for the model: what a configuration and a
/// request body have in common, as contracts see it.
pub struct SettingsView {
    pub stream: Option<bool>,
    pub temperature: Option<Seq<char>>,
    pub n: Option<usize>,
    pub max_tokens: Option<usize>,
    pub top_p: Option<Seq<char>>,
    pub frequency_penalty: Option<Seq<char>>,
    pub presence_penalty: Option<Seq<char>>,
    pub logprobs: Option<bool>,
    pub top_logprobs: Option<usize>,
    pub response_format: Option<ResponseFormat>,
    pub stop: Option<Seq<Seq<char>>>,
    pub seed: Option<isize>,
}

/// The settings of which none is set.
pub open spec fn no_settings() -> SettingsView {
    SettingsView {
        stream: None,
        temperature: None,
        n: None,
        max_tokens: None,
        top_p: None,
        frequency_penalty: None,
        presence_penalty: None,
        logprobs: None,
        top_logprobs: None,
        response_format: None,
        stop: None,
        seed: None,
    }
}

/// Generation settings, each of which may be left unset. The crate does not
/// hold the values to their ranges: that is the caller's part.
#[derive(Debug, PartialEq, Eq)]
pub struct ConfigurationBuilder {
    /// ID of the model to use.
    pub model: Option<String>,
    /// Whether the answer is sent in pieces as it is generated.
    pub stream: Option<bool>,
    /// Sampling temperature, between 0 and 2.
    pub temperature: Option<Scalar>,
    /// How many answers to generate, at least 1.
    pub n: Option<usize>,
    /// The most tokens that an answer may have, at least 1.
    pub max_tokens: Option<usize>,
    /// Probability mass of the tokens that sampling considers.
    pub top_p: Option<Scalar>,
    /// Penalty on tokens by how often they occurred, between -2 and 2.
    pub frequency_penalty: Option<Scalar>,
    /// Penalty on tokens that occurred at all, between -2 and 2.
    pub presence_penalty: Option<Scalar>,
    /// Whether to return the log probabilities of the tokens of the answer.
    pub logprobs: Option<bool>,
    /// How many of the likeliest tokens to return at each position, 0 to 5;
    /// asks for `logprobs`.
    pub top_logprobs: Option<usize>,
    /// The form that the answer must have.
    pub response_format: Option<ResponseFormat>,
    /// Up to 4 texts at which generation stops.
    pub stop: Option<Vec<String>>,
    /// Seed for sampling.
    pub seed: Option<isize>,
}

/// A [`ConfigurationBuilder`] as contracts see it.
pub struct ConfigurationView {
    pub model: Option<Seq<char>>,
    pub settings: SettingsView,
}

impl View for ConfigurationBuilder {
    type V = ConfigurationView;

    open spec fn view(&self) -> ConfigurationView {
        ConfigurationView {
            model: text_view(self.model),
            settings: SettingsView {
                stream: self.stream,
                temperature: scalar_view(self.temperature),
                n: self.n,
                max_tokens: self.max_tokens,
                top_p: scalar_view(self.top_p),
                frequency_penalty: scalar_view(self.frequency_penalty),
                presence_penalty: scalar_view(self.presence_penalty),
                logprobs: self.logprobs,
                top_logprobs: self.top_logprobs,
                response_format: self.response_format,
                stop: texts_view(self.stop),
                seed: self.seed,
            },
        }
    }
}

/// The body of a request: the messages and the settings that go with them.
#[derive(Debug, PartialEq, Eq)]
pub struct ChatCompletionsBody {
    pub messages: Vec<Message>,
    /// ID of the model to use.
    pub model: String,
    /// Whether the answer is sent in pieces as it is generated.
    pub stream: Option<bool>,
    /// Sampling temperature, between 0 and 2.
    pub temperature: Option<Scalar>,
    /// How many answers to generate, at least 1.
    pub n: Option<usize>,
    /// The most tokens that an answer may have, at least 1.
    pub max_tokens: Option<usize>,
    /// Probability mass of the tokens that sampling considers.
    pub top_p: Option<Scalar>,
    /// Penalty on tokens by how often they occurred, between -2 and 2.
    pub frequency_penalty: Option<Scalar>,
    /// Penalty on tokens that occurred at all, between -2 and 2.
    pub presence_penalty: Option<Scalar>,
    /// Whether to return the log probabilities of the tokens of the answer.
    pub logprobs: Option<bool>,
    /// How many of the likeliest tokens to return at each position, 0 to 5;
    /// asks for `logprobs`.
    pub top_logprobs: Option<usize>,
    /// The form that the answer must have.
    pub response_format: Option<ResponseFormat>,
    /// Up to 4 texts at which generation stops.
    pub stop: Option<Vec<String>>,
    /// Seed for sampling.
    pub seed: Option<isize>,
}

/// A [`ChatCompletionsBody`] as contracts see it.
pub struct BodyView {
    pub messages: Seq<MessageView>,
    pub model: Seq<char>,
    pub settings: SettingsView,
}

impl View for ChatCompletionsBody {
    type V = BodyView;

    open spec fn view(&self) -> BodyView {
        BodyView {
            messages: views(self.messages@),
            model: self.model@,
            settings: SettingsView {
                stream: self.stream,
                temperature: scalar_view(self.temperature),
                n: self.n,
                max_tokens: self.max_tokens,
                top_p: scalar_view(self.top_p),
                frequency_penalty: scalar_view(self.frequency_penalty),
                presence_penalty: scalar_view(self.presence_penalty),
                logprobs: self.logprobs,
                top_logprobs: self.top_logprobs,
                response_format: self.response_format,
                stop: texts_view(self.stop),
                seed: self.seed,
            },
        }
    }
}

/// The request body that a configuration makes of `messages`: none where the
/// model is unset; otherwise the messages as given, the model, and every
/// other setting as the configuration has it.
pub open spec fn built(configuration: ConfigurationView, messages: Seq<MessageView>) -> Option<
    BodyView,
> {
    match configuration.model {
        Some(model) => Some(BodyView { messages, model, settings: configuration.settings }),
        None => None,
    }
}

/// The view of a request body that may be absent.
pub open spec fn body_view(body: Option<ChatCompletionsBody>) -> Option<BodyView> {
    match body {
        Some(b) => Some(b@),
        None => None,
    }
}

impl Default for ConfigurationBuilder {
    /// The configuration in which nothing is set.
    fn default() -> (configuration: ConfigurationBuilder)
        ensures
            configuration@ == (ConfigurationView { model: None, settings: no_settings() }),
    {
        ConfigurationBuilder {
            model: None,
            stream: None,
            temperature: None,
            n: None,
            max_tokens: None,
            top_p: None,
            frequency_penalty: None,
            presence_penalty: None,
            logprobs: None,
            top_logprobs: None,
            response_format: None,
            stop: None,
            seed: None,
        }
    }
}

impl Clone for ConfigurationBuilder {
    fn clone(&self) -> (copy: ConfigurationBuilder)
        ensures
            copy@ == self@,
    {
        ConfigurationBuilder {
            model: copy_text(&self.model),
            stream: self.stream,
            temperature: copy_scalar(&self.temperature),
            n: self.n,
            max_tokens: self.max_tokens,
            top_p: copy_scalar(&self.top_p),
            frequency_penalty: copy_scalar(&self.frequency_penalty),
            presence_penalty: copy_scalar(&self.presence_penalty),
            logprobs: self.logprobs,
            top_logprobs: self.top_logprobs,
            response_format: self.response_format,
            stop: match &self.stop {
                Some(stop) => Some(copy_texts(stop)),
                None => None,
            },
            seed: self.seed,
        }
    }
}

/// Whether a configuration makes a request body depends on the model alone:
/// it makes none where the model is unset, whatever the messages and the
/// other settings are, and otherwise one that holds the messages and the
/// settings as they are.
pub proof fn lemma_built(configuration: ConfigurationView, messages: Seq<MessageView>)
    ensures
        built(configuration, messages) is None <==> configuration.model is None,
        built(configuration, messages) matches Some(body) ==> Some(body.model)
            == configuration.model && body.messages == messages && body.settings
            == configuration.settings,
{
}

impl ConfigurationBuilder {
    /// The same configuration with the model set.
    pub fn with_model(self, model: &str) -> (configuration: ConfigurationBuilder)
        ensures
            configuration@ == (ConfigurationView { model: Some(model@), ..self@ }),
    {
        let mut configuration = self;
        configuration.model = Some(String::from_str(model));
        configuration
    }

    /// The same configuration with `stream` set.
    pub fn with_stream(self, stream: bool) -> (configuration: ConfigurationBuilder)
        ensures
            configuration@ == (ConfigurationView {
                settings: SettingsView { stream: Some(stream), ..self@.settings },
                ..self@
            }),
    {
        let mut configuration = self;
        configuration.stream = Some(stream);
        configuration
    }

    /// The same configuration with `temperature` set.
    pub fn with_temperature(self, temperature: Scalar) -> (configuration: ConfigurationBuilder)
        ensures
            configuration@ == (ConfigurationView {
                settings: SettingsView { temperature: Some(temperature@), ..self@.settings },
                ..self@
            }),
    {
        let mut configuration = self;
        configuration.temperature = Some(temperature);
        configuration
    }

    /// The same configuration with `n` set.
    pub fn with_n(self, n: usize) -> (configuration: ConfigurationBuilder)
        ensures
            configuration@ == (ConfigurationView {
                settings: SettingsView { n: Some(n), ..self@.settings },
                ..self@
            }),
    {
        let mut configuration = self;
        configuration.n = Some(n);
        configuration
    }

    /// The same configuration with `max_tokens` set.
    pub fn with_max_tokens(self, max_tokens: usize) -> (configuration: ConfigurationBuilder)
        ensures
            configuration@ == (ConfigurationView {
                settings: SettingsView { max_tokens: Some(max_tokens), ..self@.settings },
                ..self@
            }),
    {
        let mut configuration = self;
        configuration.max_tokens = Some(max_tokens);
        configuration
    }

    /// The same configuration with `top_p` set.
    pub fn with_top_p(self, top_p: Scalar) -> (configuration: ConfigurationBuilder)
        ensures
            configuration@ == (ConfigurationView {
                settings: SettingsView { top_p: Some(top_p@), ..self@.settings },
                ..self@
            }),
    {
        let mut configuration = self;
        configuration.top_p = Some(top_p);
        configuration
    }

    /// The same configuration with `frequency_penalty` set.
    pub fn with_frequency_penalty(self, frequency_penalty: Scalar) -> (configuration:
        ConfigurationBuilder)
        ensures
            configuration@ == (ConfigurationView {
                settings: SettingsView {
                    frequency_penalty: Some(frequency_penalty@),
                    ..self@.settings
                },
                ..self@
            }),
    {
        let mut configuration = self;
        configuration.frequency_penalty = Some(frequency_penalty);
        configuration
    }

    /// The same configuration with `presence_penalty` set.
    pub fn with_presence_penalty(self, presence_penalty: Scalar) -> (configuration:
        ConfigurationBuilder)
        ensures
            configuration@ == (ConfigurationView {
                settings: SettingsView {
                    presence_penalty: Some(presence_penalty@),
                    ..self@.settings
                },
                ..self@
            }),
    {
        let mut configuration = self;
        configuration.presence_penalty = Some(presence_penalty);
        configuration
    }

    /// The same configuration with `logprobs` set.
    pub fn with_logprobs(self, logprobs: bool) -> (configuration: ConfigurationBuilder)
        ensures
            configuration@ == (ConfigurationView {
                settings: SettingsView { logprobs: Some(logprobs), ..self@.settings },
                ..self@
            }),
    {
        let mut configuration = self;
        configuration.logprobs = Some(logprobs);
        configuration
    }

    /// The same configuration with `response_format` set.
    pub fn with_response_format(self, response_format: ResponseFormat) -> (configuration:
        ConfigurationBuilder)
        ensures
            configuration@ == (ConfigurationView {
                settings: SettingsView {
                    response_format: Some(response_format),
                    ..self@.settings
                },
                ..self@
            }),
    {
        let mut configuration = self;
        configuration.response_format = Some(response_format);
        configuration
    }

    /// The same configuration with `stop` set.
    pub fn with_stop(self, stop: Vec<String>) -> (configuration: ConfigurationBuilder)
        ensures
            configuration@ == (ConfigurationView {
                settings: SettingsView { stop: Some(views(stop@)), ..self@.settings },
                ..self@
            }),
    {
        let mut configuration = self;
        configuration.stop = Some(stop);
        configuration
    }

    /// Joins the configuration with `messages` into a request body. There is
    /// none where the model is unset; nothing else is asked of the settings.
    pub fn build(self, messages: Vec<Message>) -> (body: Option<ChatCompletionsBody>)
        ensures
            body_view(body) == built(self@, views(messages@)),
            self@.model is None ==> body is None,
    {
        match self.model {
            None => None,
            Some(model) => Some(
                ChatCompletionsBody {
                    messages,
                    model,
                    stream: self.stream,
                    temperature: self.temperature,
                    n: self.n,
                    max_tokens: self.max_tokens,
                    top_p: self.top_p,
                    frequency_penalty: self.frequency_penalty,
                    presence_penalty: self.presence_penalty,
                    logprobs: self.logprobs,
                    top_logprobs: self.top_logprobs,
                    response_format: self.response_format,
                    stop: self.stop,
                    seed: self.seed,
                },
            ),
        }
    }
}

impl Clone for ChatCompletionsBody {
    fn clone(&self) -> (copy: ChatCompletionsBody)
        ensures
            copy@ == self@,
    {
        ChatCompletionsBody {
            messages: copy_messages(&self.messages),
            model: self.model.clone(),
            stream: self.stream,
            temperature: copy_scalar(&self.temperature),
            n: self.n,
            max_tokens: self.max_tokens,
            top_p: copy_scalar(&self.top_p),
            frequency_penalty: copy_scalar(&self.frequency_penalty),
            presence_penalty: copy_scalar(&self.presence_penalty),
            logprobs: self.logprobs,
            top_logprobs: self.top_logprobs,
            response_format: self.response_format,
            stop: match &self.stop {
                Some(stop) => Some(copy_texts(stop)),
                None => None,
            },
            seed: self.seed,
        }
    }
}

impl ChatCompletionsBody {
    /// The request body for `model` and `messages` in which no setting is
    /// set.
    pub fn new(model: &str, messages: Vec<Message>) -> (body: ChatCompletionsBody)
        ensures
            body@ == (BodyView {
                messages: views(messages@),
                model: model@,
                settings: no_settings(),
            }),
    {
        ChatCompletionsBody {
            messages,
            model: String::from_str(model),
            stream: None,
            temperature: None,
            n: None,
            max_tokens: None,
            top_p: None,
            frequency_penalty: None,
            presence_penalty: None,
            logprobs: None,
            top_logprobs: None,
            response_format: None,
            stop: None,
            seed: None,
        }
    }

    /// The same body for another model.
    pub fn with_model(self, model: &str) -> (body: ChatCompletionsBody)
        ensures
            body@ == (BodyView { model: model@, ..self@ }),
    {
        let mut body = self;
        body.model = String::from_str(model);
        body
    }

    /// The same body with `stream` set.
    pub fn with_stream(self, stream: bool) -> (body: ChatCompletionsBody)
        ensures
            body@ == (BodyView {
                settings: SettingsView { stream: Some(stream), ..self@.settings },
                ..self@
            }),
    {
        let mut body = self;
        body.stream = Some(stream);
        body
    }

    /// The same body with `temperature` set.
    pub fn with_temperature(self, temperature: Scalar) -> (body: ChatCompletionsBody)
        ensures
            body@ == (BodyView {
                settings: SettingsView { temperature: Some(temperature@), ..self@.settings },
                ..self@
            }),
    {
        let mut body = self;
        body.temperature = Some(temperature);
        body
    }

    /// The same body with `n` set.
    pub fn with_n(self, n: usize) -> (body: ChatCompletionsBody)
        ensures
            body@ == (BodyView { settings: SettingsView { n: Some(n), ..self@.settings }, ..self@ }),
    {
        let mut body = self;
        body.n = Some(n);
        body
    }

    /// The same body with `max_tokens` set.
    pub fn with_max_tokens(self, max_tokens: usize) -> (body: ChatCompletionsBody)
        ensures
            body@ == (BodyView {
                settings: SettingsView { max_tokens: Some(max_tokens), ..self@.settings },
                ..self@
            }),
    {
        let mut body = self;
        body.max_tokens = Some(max_tokens);
        body
    }

    /// The same body with `top_p` set.
    pub fn with_top_p(self, top_p: Scalar) -> (body: ChatCompletionsBody)
        ensures
            body@ == (BodyView {
                settings: SettingsView { top_p: Some(top_p@), ..self@.settings },
                ..self@
            }),
    {
        let mut body = self;
        body.top_p = Some(top_p);
        body
    }

    /// The same body with `frequency_penalty` set.
    pub fn with_frequency_penalty(self, frequency_penalty: Scalar) -> (body: ChatCompletionsBody)
        ensures
            body@ == (BodyView {
                settings: SettingsView {
                    frequency_penalty: Some(frequency_penalty@),
                    ..self@.settings
                },
                ..self@
            }),
    {
        let mut body = self;
        body.frequency_penalty = Some(frequency_penalty);
        body
    }

    /// The same body with `presence_penalty` set.
    pub fn with_presence_penalty(self, presence_penalty: Scalar) -> (body: ChatCompletionsBody)
        ensures
            body@ == (BodyView {
                settings: SettingsView {
                    presence_penalty: Some(presence_penalty@),
                    ..self@.settings
                },
                ..self@
            }),
    {
        let mut body = self;
        body.presence_penalty = Some(presence_penalty);
        body
    }

    /// The same body with `logprobs` set.
    pub fn with_logprobs(self, logprobs: bool) -> (body: ChatCompletionsBody)
        ensures
            body@ == (BodyView {
                settings: SettingsView { logprobs: Some(logprobs), ..self@.settings },
                ..self@
            }),
    {
        let mut body = self;
        body.logprobs = Some(logprobs);
        body
    }

    /// The same body with `response_format` set.
    pub fn with_response_format(self, response_format: ResponseFormat) -> (body:
        ChatCompletionsBody)
        ensures
            body@ == (BodyView {
                settings: SettingsView {
                    response_format: Some(response_format),
                    ..self@.settings
                },
                ..self@
            }),
    {
        let mut body = self;
        body.response_format = Some(response_format);
        body
    }

    /// The same body with `stop` set.
    pub fn with_stop(self, stop: Vec<String>) -> (body: ChatCompletionsBody)
        ensures
            body@ == (BodyView {
                settings: SettingsView { stop: Some(views(stop@)), ..self@.settings },
                ..self@
            }),
    {
        let mut body = self;
        body.stop = Some(stop);
        body
    }
}

/// Where a request goes, and the key that it goes with.
#[derive(Debug, PartialEq, Eq)]
pub struct ApiEndpoint {
    pub api_key: String,
    pub api_url: String,
}

/// An [`ApiEndpoint`] as contracts see it.
pub struct ApiEndpointView {
    pub api_key: Seq<char>,
    pub api_url: Seq<char>,
}

impl View for ApiEndpoint {
    type V = ApiEndpointView;

    open spec fn view(&self) -> ApiEndpointView {
        ApiEndpointView { api_key: self.api_key@, api_url: self.api_url@ }
    }
}

impl Clone for ApiEndpoint {
    fn clone(&self) -> (copy: ApiEndpoint)
        ensures
            copy@ == self@,
    {
        ApiEndpoint { api_key: self.api_key.clone(), api_url: self.api_url.clone() }
    }
}

impl ApiEndpoint {
    /// The chat completions endpoint of OpenAI.
    pub fn open_ai_chat_completions(api_key: &str) -> (endpoint: ApiEndpoint)
        ensures
            endpoint@ == (ApiEndpointView {
                api_key: api_key@,
                api_url: "https://api.openai.com/v1/chat/completions"@,
            }),
    {
        ApiEndpoint {
            api_key: String::from_str(api_key),
            api_url: String::from_str("https://api.openai.com/v1/chat/completions"),
        }
    }

    /// The chat completions endpoint of OctoAI.
    pub fn octo_ai_chat_completions(api_key: &str) -> (endpoint: ApiEndpoint)
        ensures
            endpoint@ == (ApiEndpointView {
                api_key: api_key@,
                api_url: "https://text.octoai.run/v1/chat/completions"@,
            }),
    {
        ApiEndpoint {
            api_key: String::from_str(api_key),
            api_url: String::from_str("https://text.octoai.run/v1/chat/completions"),
        }
    }

    /// The value of the `Authorization` header of a request to this
    /// endpoint: the word `Bearer`, a space, and the key.
    pub fn authorization(&self) -> (value: String)
        ensures
            value@ == "Bearer "@ + self@.api_key,
    {
        let mut value = String::from_str("Bearer ");
        value.append(self.api_key.as_str());
        value
    }
}

/// A request that is ready to be sent.
#[derive(Debug, Clone, PartialEq, Eq)]
pub struct ChatCompletionsRequest {
    pub api_endpoint: ApiEndpoint,
    pub body: ChatCompletionsBody,
    /// How long the whole call may take.
    pub timeout: Option<std::time::Duration>,
}

/// A [`ChatCompletionsRequest`] as contracts see it.
pub struct RequestView {
    pub api_endpoint: ApiEndpointView,
    pub body: BodyView,
    pub timeout: Option<std::time::Duration>,
}

impl View for ChatCompletionsRequest {
    type V = RequestView;

    open spec fn view(&self) -> RequestView {
        RequestView { api_endpoint: self.api_endpoint@, body: self.body@, timeout: self.timeout }
    }
}

/// The parts of a request, as far as they are known.
#[derive(Debug, Clone, PartialEq, Eq)]
pub struct ChatCompletionsRequestBuilder {
    pub api_endpoint: Option<ApiEndpoint>,
    pub body: Option<ChatCompletionsBody>,
    pub timeout: Option<std::time::Duration>,
}

/// A [`ChatCompletionsRequestBuilder`] as contracts see it.
pub struct RequestBuilderView {
    pub api_endpoint: Option<ApiEndpointView>,
    pub body: Option<BodyView>,
    pub timeout: Option<std::time::Duration>,
}

/// The view of an endpoint that may be absent.
pub open spec fn endpoint_view(endpoint: Option<ApiEndpoint>) -> Option<ApiEndpointView> {
    match endpoint {
        Some(e) => Some(e@),
        None => None,
    }
}

impl View for ChatCompletionsRequestBuilder {
    type V = RequestBuilderView;

    open spec fn view(&self) -> RequestBuilderView {
        RequestBuilderView {
            api_endpoint: endpoint_view(self.api_endpoint),
            body: body_view(self.body),
            timeout: self.timeout,
        }
    }
}

/// The request that the parts make: there is one where the endpoint and the
/// body are known.
pub open spec fn request_of(parts: RequestBuilderView) -> Option<RequestView> {
    match (parts.api_endpoint, parts.body) {
        (Some(api_endpoint), Some(body)) => Some(
            RequestView { api_endpoint, body, timeout: parts.timeout },
        ),
        _ => None,
    }
}

impl Default for ChatCompletionsRequestBuilder {
    /// The builder that knows no part yet.
    fn default() -> (builder: ChatCompletionsRequestBuilder)
        ensures
            builder@ == (RequestBuilderView { api_endpoint: None, body: None, timeout: None }),
    {
        ChatCompletionsRequestBuilder { api_endpoint: None, body: None, timeout: None }
    }
}

impl ChatCompletionsRequestBuilder {
    /// The same parts with the endpoint set.
    pub fn with_api_endpoint(self, api_endpoint: ApiEndpoint) -> (builder:
        ChatCompletionsRequestBuilder)
        ensures
            builder@ == (RequestBuilderView { api_endpoint: Some(api_endpoint@), ..self@ }),
    {
        let mut builder = self;
        builder.api_endpoint = Some(api_endpoint);
        builder
    }

    /// The same parts with the body set.
    pub fn with_body(self, body: ChatCompletionsBody) -> (builder: ChatCompletionsRequestBuilder)
        ensures
            builder@ == (RequestBuilderView { body: Some(body@), ..self@ }),
    {
        let mut builder = self;
        builder.body = Some(body);
        builder
    }

    /// The same parts with the timeout set.
    pub fn with_timeout(self, timeout: std::time::Duration) -> (builder:
        ChatCompletionsRequestBuilder)
        ensures
            builder@ == (RequestBuilderView { timeout: Some(timeout), ..self@ }),
    {
        let mut builder = self;
        builder.timeout = Some(timeout);
        builder
    }

    /// The request that the parts make, if the endpoint and the body are
    /// known.
    pub fn build(self) -> (request: Option<ChatCompletionsRequest>)
        ensures
            match request {
                Some(r) => request_of(self@) == Some(r@),
                None => request_of(self@) is None,
            },
    {
        match self.api_endpoint {
            Some(api_endpoint) => match self.body {
                Some(body) => Some(
                    ChatCompletionsRequest { api_endpoint, body, timeout: self.timeout },
                ),
                None => None,
            },
            None => None,
        }
    }
}

} // verus!
