use prompt_stream::client::ApiEndpoint;
use prompt_stream::client::ChatCompletionsBody;
use prompt_stream::client::ChatCompletionsRequestBuilder;
use prompt_stream::client::ConfigurationBuilder;
use prompt_stream::client::copy_messages;
use prompt_stream::client::Message;
use prompt_stream::client::ResponseFormat;
use prompt_stream::client::ResponseType;
use prompt_stream::client::Role;
use prompt_stream::scalar::Scalar;
use std::time::Duration;

fn scalar(text: &str) -> Scalar {
    Scalar::parse(text).unwrap()
}

fn messages() -> Vec<Message> {
    vec![Message::system("Be brief."), Message::user("Hello"), Message::assistant("Hi")]
}

#[test]
fn roles_are_read_in_any_case() {
    assert_eq!(Role::from("system"), Some(Role::System));
    assert_eq!(Role::from("user"), Some(Role::User));
    assert_eq!(Role::from("assistant"), Some(Role::Assistant));
    assert_eq!(Role::from("SYSTEM"), Some(Role::System));
    assert_eq!(Role::from("User"), Some(Role::User));
    assert_eq!(Role::from("aSSistanT"), Some(Role::Assistant));
}

#[test]
fn other_roles_are_refused() {
    assert_eq!(Role::from(""), None);
    assert_eq!(Role::from("tool"), None);
    assert_eq!(Role::from("users"), None);
    assert_eq!(Role::from(" user"), None);
    assert_eq!(Role::from("function"), None);
}

#[test]
fn messages_carry_their_role_and_content() {
    assert_eq!(Message::user("a"), Message { role: Role::User, content: "a".to_string() });
    assert_eq!(
        Message::assistant("b"),
        Message { role: Role::Assistant, content: "b".to_string() }
    );
    assert_eq!(Message::system("c"), Message { role: Role::System, content: "c".to_string() });
    assert_eq!(Message::user("a").clone(), Message::user("a"));
    assert_eq!(copy_messages(&messages()), messages());
}

#[test]
fn response_formats_are_of_two_kinds() {
    assert_eq!(ResponseFormat::json_object().kind, ResponseType::JsonObject);
    assert_eq!(ResponseFormat::text().kind, ResponseType::Text);
}

#[test]
fn nothing_is_set_in_the_default_configuration() {
    let configuration = ConfigurationBuilder::default();
    assert_eq!(configuration.model, None);
    assert_eq!(configuration.stream, None);
    assert_eq!(configuration.temperature, None);
    assert_eq!(configuration.n, None);
    assert_eq!(configuration.max_tokens, None);
    assert_eq!(configuration.top_p, None);
    assert_eq!(configuration.frequency_penalty, None);
    assert_eq!(configuration.presence_penalty, None);
    assert_eq!(configuration.logprobs, None);
    assert_eq!(configuration.top_logprobs, None);
    assert_eq!(configuration.response_format, None);
    assert_eq!(configuration.stop, None);
    assert_eq!(configuration.seed, None);
}

#[test]
fn build_without_model_gives_nothing() {
    assert_eq!(ConfigurationBuilder::default().build(Vec::new()), None);
    assert_eq!(ConfigurationBuilder::default().build(messages()), None);
    let configuration = ConfigurationBuilder::default()
        .with_stream(true)
        .with_temperature(scalar("0.7"))
        .with_n(2)
        .with_max_tokens(100)
        .with_top_p(scalar("0.9"))
        .with_frequency_penalty(scalar("0.1"))
        .with_presence_penalty(scalar("-0.1"))
        .with_logprobs(true)
        .with_response_format(ResponseFormat::json_object())
        .with_stop(vec!["END".to_string()]);
    assert_eq!(configuration.build(messages()), None);
}

#[test]
fn build_with_model_passes_every_setting_through() {
    let mut configuration = ConfigurationBuilder::default()
        .with_model("gpt-4")
        .with_stream(true)
        .with_temperature(scalar("0.7"))
        .with_n(2)
        .with_max_tokens(100)
        .with_top_p(scalar("0.9"))
        .with_frequency_penalty(scalar("0.1"))
        .with_presence_penalty(scalar("-0.1"))
        .with_logprobs(true)
        .with_response_format(ResponseFormat::json_object())
        .with_stop(vec!["END".to_string(), "STOP".to_string()]);
    configuration.top_logprobs = Some(3);
    configuration.seed = Some(-7);
    let body = configuration.clone().build(messages()).unwrap();
    assert_eq!(body.model, "gpt-4");
    assert_eq!(body.messages, messages());
    assert_eq!(body.stream, Some(true));
    assert_eq!(body.temperature, Some(scalar("0.7")));
    assert_eq!(body.n, Some(2));
    assert_eq!(body.max_tokens, Some(100));
    assert_eq!(body.top_p, Some(scalar("0.9")));
    assert_eq!(body.frequency_penalty, Some(scalar("0.1")));
    assert_eq!(body.presence_penalty, Some(scalar("-0.1")));
    assert_eq!(body.logprobs, Some(true));
    assert_eq!(body.top_logprobs, Some(3));
    assert_eq!(body.response_format, Some(ResponseFormat::json_object()));
    assert_eq!(body.stop, Some(vec!["END".to_string(), "STOP".to_string()]));
    assert_eq!(body.seed, Some(-7));
    assert_eq!(configuration.clone(), configuration);
}

#[test]
fn build_accepts_an_empty_model_and_no_messages() {
    let body = ConfigurationBuilder::default().with_model("").build(Vec::new()).unwrap();
    assert_eq!(body, ChatCompletionsBody::new("", Vec::new()));
}

#[test]
fn a_builder_method_sets_one_setting_and_keeps_the_rest() {
    let base = ConfigurationBuilder::default().with_model("m").with_n(1);
    let changed = base.clone().with_n(4);
    assert_eq!(changed.n, Some(4));
    assert_eq!(changed.model, base.model);
    assert_eq!(changed.stream, base.stream);
    assert_eq!(base.n, Some(1));
    let changed = base.clone().with_model("other");
    assert_eq!(changed.model, Some("other".to_string()));
    assert_eq!(changed.n, Some(1));
}

#[test]
fn a_new_body_has_no_setting() {
    let body = ChatCompletionsBody::new("gpt-4", messages());
    assert_eq!(body.model, "gpt-4");
    assert_eq!(body.messages, messages());
    assert_eq!(body.stream, None);
    assert_eq!(body.temperature, None);
    assert_eq!(body.n, None);
    assert_eq!(body.max_tokens, None);
    assert_eq!(body.top_p, None);
    assert_eq!(body.frequency_penalty, None);
    assert_eq!(body.presence_penalty, None);
    assert_eq!(body.logprobs, None);
    assert_eq!(body.top_logprobs, None);
    assert_eq!(body.response_format, None);
    assert_eq!(body.stop, None);
    assert_eq!(body.seed, None);
}

#[test]
fn a_body_is_changed_one_setting_at_a_time() {
    let body = ChatCompletionsBody::new("a", messages())
        .with_model("b")
        .with_stream(false)
        .with_temperature(scalar("1"))
        .with_n(3)
        .with_max_tokens(5)
        .with_top_p(scalar(".5"))
        .with_frequency_penalty(scalar("2"))
        .with_presence_penalty(scalar("-2"))
        .with_logprobs(false)
        .with_response_format(ResponseFormat::text())
        .with_stop(vec!["\n".to_string()]);
    assert_eq!(body.model, "b");
    assert_eq!(body.messages, messages());
    assert_eq!(body.stream, Some(false));
    assert_eq!(body.temperature, Some(scalar("1")));
    assert_eq!(body.n, Some(3));
    assert_eq!(body.max_tokens, Some(5));
    assert_eq!(body.top_p, Some(scalar(".5")));
    assert_eq!(body.frequency_penalty, Some(scalar("2")));
    assert_eq!(body.presence_penalty, Some(scalar("-2")));
    assert_eq!(body.logprobs, Some(false));
    assert_eq!(body.response_format, Some(ResponseFormat::text()));
    assert_eq!(body.stop, Some(vec!["\n".to_string()]));
    assert_eq!(body.clone(), body);
}

#[test]
fn endpoints_know_their_addresses() {
    let open_ai = ApiEndpoint::open_ai_chat_completions("key-1");
    assert_eq!(open_ai.api_key, "key-1");
    assert_eq!(open_ai.api_url, "https://api.openai.com/v1/chat/completions");
    let octo_ai = ApiEndpoint::octo_ai_chat_completions("key-2");
    assert_eq!(octo_ai.api_key, "key-2");
    assert_eq!(octo_ai.api_url, "https://text.octoai.run/v1/chat/completions");
    assert_eq!(open_ai.clone(), open_ai);
}

#[test]
fn the_authorization_is_the_bearer_of_the_key() {
    assert_eq!(ApiEndpoint::open_ai_chat_completions("abc").authorization(), "Bearer abc");
    assert_eq!(ApiEndpoint::octo_ai_chat_completions("").authorization(), "Bearer ");
}

#[test]
fn a_request_needs_an_endpoint_and_a_body() {
    let body = ChatCompletionsBody::new("m", messages());
    let endpoint = ApiEndpoint::open_ai_chat_completions("k");
    assert_eq!(ChatCompletionsRequestBuilder::default().build(), None);
    assert_eq!(ChatCompletionsRequestBuilder::default().with_body(body.clone()).build(), None);
    assert_eq!(
        ChatCompletionsRequestBuilder::default().with_api_endpoint(endpoint.clone()).build(),
        None
    );
    assert_eq!(
        ChatCompletionsRequestBuilder::default().with_timeout(Duration::from_secs(3)).build(),
        None
    );
    let request = ChatCompletionsRequestBuilder::default()
        .with_api_endpoint(endpoint.clone())
        .with_body(body.clone())
        .build()
        .unwrap();
    assert_eq!(request.api_endpoint, endpoint);
    assert_eq!(request.body, body);
    assert_eq!(request.timeout, None);
    let request = ChatCompletionsRequestBuilder::default()
        .with_timeout(Duration::from_millis(1500))
        .with_body(body.clone())
        .with_api_endpoint(endpoint.clone())
        .build()
        .unwrap();
    assert_eq!(request.timeout, Some(Duration::from_millis(1500)));
}
