use prompt_stream::client::Message;
use prompt_stream::client::ResponseFormat;
use prompt_stream::client::Role;
use prompt_stream::markup::MessageElement;
use prompt_stream::markup::PromptElement;
use prompt_stream::markup::fits;
use prompt_stream::markup::scan_prompt_elements;
use prompt_stream::markup::MAX_MARKUP_BYTES;
use prompt_stream::scalar::Scalar;
use prompt_stream::xml_dsl::InvalidRole;
use prompt_stream::xml_dsl::process_message_element;
use prompt_stream::xml_dsl::process_prompt_element;
use prompt_stream::xml_dsl::Prompt;
use prompt_stream::xml_dsl::PromptCollection;
use prompt_stream::xml_dsl::PromptNotFound;

fn element() -> PromptElement {
    PromptElement {
        name: None,
        model: None,
        stream: None,
        temperature: None,
        n: None,
        max_tokens: None,
        top_p: None,
        frequency_penalty: None,
        presence_penalty: None,
        logprobs: None,
        top_logprobs: None,
        response_format: None,
        stop: None,
        messages: Vec::new(),
    }
}

fn text(value: &str) -> Option<String> {
    Some(value.to_string())
}

fn message(role: Option<&str>, body: &str) -> MessageElement {
    MessageElement { role: role.map(str::to_string), body: body.to_string() }
}

#[test]
fn common_indentation_is_removed() {
    let lines = ["  line1", "    line2", "  line3"];
    let compiled = process_message_element(&message(None, &lines.join("\n"))).unwrap();
    let output: Vec<&str> = compiled.content.split('\n').collect();
    assert_eq!(output, vec!["line1", "  line2", "line3"]);
}

#[test]
fn the_body_of_a_message_is_trimmed_and_unindented() {
    let body = "\n        You are a poet.\n          Write in rhyme.\n\n        Be brief.\n    ";
    let compiled = process_message_element(&message(Some("system"), body)).unwrap();
    assert_eq!(
        compiled,
        Message::system("You are a poet.\n  Write in rhyme.\n\nBe brief.")
    );
    assert_eq!(process_message_element(&message(None, "  \n ")).unwrap(), Message::user(""));
    assert_eq!(process_message_element(&message(None, " one line ")).unwrap(), Message::user("one line"));
}

#[test]
fn a_message_without_role_is_of_the_user() {
    assert_eq!(process_message_element(&message(None, "hi")).unwrap().role, Role::User);
    assert_eq!(process_message_element(&message(Some("USER"), "hi")).unwrap().role, Role::User);
    assert_eq!(
        process_message_element(&message(Some("Assistant"), "hi")).unwrap().role,
        Role::Assistant
    );
    assert_eq!(
        process_message_element(&message(Some("system"), "hi")).unwrap().role,
        Role::System
    );
}

#[test]
fn a_message_with_another_role_is_a_fault() {
    assert_eq!(
        process_message_element(&message(Some("narrator"), "hi")),
        Err(InvalidRole("narrator".to_string()))
    );
    assert_eq!(process_message_element(&message(Some(""), "hi")), Err(InvalidRole(String::new())));
}

#[test]
fn attributes_set_the_settings() {
    let mut prompt = element();
    prompt.name = text("greeting");
    prompt.model = text("gpt-4");
    prompt.stream = text("true");
    prompt.temperature = text("0.5");
    prompt.n = text("2");
    prompt.max_tokens = text("256");
    prompt.top_p = text("1e-1");
    prompt.frequency_penalty = text("-2");
    prompt.presence_penalty = text("+.5");
    prompt.logprobs = text("false");
    prompt.top_logprobs = text("5");
    prompt.response_format = text("JSON-Object");
    prompt.stop = text("END");
    let compiled = process_prompt_element(&prompt).unwrap();
    assert_eq!(compiled.name, text("greeting"));
    let configuration = compiled.configuration;
    assert_eq!(configuration.model, text("gpt-4"));
    assert_eq!(configuration.stream, Some(true));
    assert_eq!(configuration.temperature, Scalar::parse("0.5"));
    assert_eq!(configuration.n, Some(2));
    assert_eq!(configuration.max_tokens, Some(256));
    assert_eq!(configuration.top_p, Scalar::parse("1e-1"));
    assert_eq!(configuration.frequency_penalty, Scalar::parse("-2"));
    assert_eq!(configuration.presence_penalty, Scalar::parse("+.5"));
    assert_eq!(configuration.logprobs, Some(false));
    assert_eq!(configuration.top_logprobs, Some(5));
    assert_eq!(configuration.response_format, Some(ResponseFormat::json_object()));
    assert_eq!(configuration.stop, Some(vec!["END".to_string()]));
    assert_eq!(configuration.seed, None);
    assert!(compiled.messages.is_empty());
}

#[test]
fn a_value_of_the_wrong_kind_leaves_its_setting_unset() {
    let mut prompt = element();
    prompt.model = text("gpt-4");
    prompt.stream = text("yes");
    prompt.temperature = text("warm");
    prompt.n = text("-1");
    prompt.max_tokens = text("many");
    prompt.top_p = text("");
    prompt.frequency_penalty = text("0,5");
    prompt.presence_penalty = text("1e");
    prompt.logprobs = text("True");
    prompt.top_logprobs = text("5.0");
    prompt.response_format = text("xml");
    prompt.messages = vec![message(None, "hi")];
    let compiled = process_prompt_element(&prompt).unwrap();
    let configuration = &compiled.configuration;
    assert_eq!(configuration.model, text("gpt-4"));
    assert_eq!(configuration.stream, None);
    assert_eq!(configuration.temperature, None);
    assert_eq!(configuration.n, None);
    assert_eq!(configuration.max_tokens, None);
    assert_eq!(configuration.top_p, None);
    assert_eq!(configuration.frequency_penalty, None);
    assert_eq!(configuration.presence_penalty, None);
    assert_eq!(configuration.logprobs, None);
    assert_eq!(configuration.top_logprobs, None);
    assert_eq!(configuration.response_format, None);
    assert_eq!(configuration.stop, None);
    assert_eq!(compiled.messages, vec![Message::user("hi")]);
}

#[test]
fn response_formats_are_read_in_any_case() {
    for (value, expected) in [
        ("json-object", Some(ResponseFormat::json_object())),
        ("json_object", Some(ResponseFormat::json_object())),
        ("JSON_OBJECT", Some(ResponseFormat::json_object())),
        ("text", Some(ResponseFormat::text())),
        ("Text", Some(ResponseFormat::text())),
        ("json", None),
        ("jsonobject", None),
        ("", None),
    ] {
        let mut prompt = element();
        prompt.response_format = text(value);
        assert_eq!(
            process_prompt_element(&prompt).unwrap().configuration.response_format,
            expected,
            "{:?}",
            value
        );
    }
}

#[test]
fn one_message_with_a_wrong_role_is_the_fault_of_the_prompt() {
    let mut prompt = element();
    prompt.model = text("m");
    prompt.messages = vec![
        message(Some("system"), "a"),
        message(Some("narrator"), "b"),
        message(Some("oracle"), "c"),
    ];
    assert_eq!(process_prompt_element(&prompt), Err(InvalidRole("narrator".to_string())));
}

#[test]
fn a_prompt_with_a_wrong_role_is_left_out_of_the_collection() {
    let mut good = element();
    good.name = text("good");
    good.messages = vec![message(None, "hi")];
    let mut bad = element();
    bad.name = text("bad");
    bad.messages = vec![message(Some("narrator"), "hi")];
    let mut last = element();
    last.name = text("last");
    let collection = PromptCollection::from_elements(&vec![bad, good, last]);
    assert_eq!(collection.len(), 2);
    assert_eq!(collection.at(0).name, text("good"));
    assert_eq!(collection.at(1).name, text("last"));
    assert!(collection.get("bad").is_none());
    assert!(collection.get("good").is_some());
}

#[test]
fn get_finds_the_first_prompt_of_a_name() {
    let mut first = element();
    first.name = text("x");
    first.model = text("a");
    let mut second = element();
    second.name = text("x");
    second.model = text("b");
    let mut unnamed = element();
    unnamed.model = text("c");
    let collection = PromptCollection::from_elements(&vec![unnamed, first, second]);
    assert_eq!(collection.len(), 3);
    assert_eq!(collection.get("x").unwrap().configuration.model, text("a"));
    assert_eq!(collection.get("y"), None);
    assert_eq!(collection.get(""), None);
    assert_eq!(collection.get("X"), None);
    assert_eq!(PromptCollection::from_elements(&Vec::new()).get("x"), None);
}

#[test]
fn get_finds_the_first_prompt_of_a_name_in_markup() {
    let collection = PromptCollection::parse(
        r#"<prompt name="x" model="a"></prompt><prompt name="x" model="b"></prompt>"#,
    );
    assert_eq!(collection.len(), 2);
    assert_eq!(collection.get("x").unwrap().configuration.model, text("a"));
    assert_eq!(collection.get("unknown"), None);
}

#[test]
fn a_prompt_in_markup_becomes_a_request_body() {
    let source = r#"
        <prompt name="poet" model="m" temperature="0.5">
            <message role="system">
                You are a poet.
            </message>
            <message role="user">
                Write about the sea.
                  Keep it short.
                Use plain words.
            </message>
        </prompt>
    "#;
    let prompt = Prompt::parse(source, "poet").unwrap();
    let body = prompt.build_body().unwrap();
    assert_eq!(body.model, "m");
    assert_eq!(body.temperature.as_ref().unwrap().as_str().parse::<f32>().unwrap(), 0.5);
    assert_eq!(body.messages.len(), 2);
    assert_eq!(body.messages[0], Message::system("You are a poet."));
    assert_eq!(body.messages[1], Message::user("Write about the sea.\n  Keep it short.\nUse plain words."));
    assert_eq!(body.stream, None);
    assert_eq!(body.n, None);
    assert_eq!(body.stop, None);
}

#[test]
fn markup_is_scanned_for_prompt_elements() {
    let source = r#"<p>before</p>
        <prompt name="a" model="m" stream="true" temperature="0.2" n="1" max-tokens="10"
                top-p="0.3" frequency-penalty="0.4" presence-penalty="0.5" logprobs="false"
                top-logprobs="2" response-format="text" stop="END" other="ignored">
            <message>first</message>
            <message role="Assistant"><b>second</b></message>
        </prompt>
        <prompt></prompt>"#;
    let elements = scan_prompt_elements(source);
    assert_eq!(elements.len(), 2);
    let first = &elements[0];
    assert_eq!(first.name, text("a"));
    assert_eq!(first.model, text("m"));
    assert_eq!(first.stream, text("true"));
    assert_eq!(first.temperature, text("0.2"));
    assert_eq!(first.n, text("1"));
    assert_eq!(first.max_tokens, text("10"));
    assert_eq!(first.top_p, text("0.3"));
    assert_eq!(first.frequency_penalty, text("0.4"));
    assert_eq!(first.presence_penalty, text("0.5"));
    assert_eq!(first.logprobs, text("false"));
    assert_eq!(first.top_logprobs, text("2"));
    assert_eq!(first.response_format, text("text"));
    assert_eq!(first.stop, text("END"));
    assert_eq!(
        first.messages,
        vec![message(None, "first"), message(Some("Assistant"), "<b>second</b>")]
    );
    assert_eq!(elements[1], element());
    assert!(scan_prompt_elements("").is_empty());
    assert!(scan_prompt_elements("no prompts here").is_empty());
}

#[test]
fn a_document_may_hold_prompts_that_fail() {
    let source = r#"
        <prompt name="one" model="m"><message role="wizard">x</message></prompt>
        <prompt name="two" model="m"><message>y</message></prompt>
    "#;
    let collection = PromptCollection::parse(source);
    assert_eq!(collection.len(), 1);
    assert_eq!(collection.at(0).name, text("two"));
    assert_eq!(Prompt::parse(source, "one"), Err(PromptNotFound("one".to_string())));
    assert_eq!(Prompt::parse(source, "two").unwrap().messages, vec![Message::user("y")]);
}

#[test]
fn a_prompt_is_looked_up_in_a_collection() {
    let collection = PromptCollection::parse(r#"<prompt name="a" model="m"></prompt>"#);
    assert_eq!(Prompt::find(&collection, "a").unwrap().name, text("a"));
    assert_eq!(Prompt::find(&collection, "b"), Err(PromptNotFound("b".to_string())));
}

#[test]
fn a_prompt_without_model_makes_no_body() {
    let prompt = Prompt::parse(r#"<prompt name="a"><message>x</message></prompt>"#, "a").unwrap();
    assert_eq!(prompt.build_body(), None);
    assert_eq!(prompt.request_builder(), None);
}

#[test]
fn a_prompt_makes_the_body_of_a_request() {
    let prompt =
        Prompt::parse(r#"<prompt name="a" model="m" n="3"><message>x</message></prompt>"#, "a")
            .unwrap();
    let builder = prompt.request_builder().unwrap();
    assert_eq!(builder.api_endpoint, None);
    assert_eq!(builder.timeout, None);
    let body = builder.body.unwrap();
    assert_eq!(Some(body.clone()), prompt.build_body());
    assert_eq!(body.model, "m");
    assert_eq!(body.n, Some(3));
    assert_eq!(body.messages, vec![Message::user("x")]);
    assert_eq!(prompt.clone(), prompt);
}

fn blank(c: char) -> bool {
    c == ' ' || c == '\t'
}

fn content_by_the_rules(body: &str) -> String {
    let text = body.trim();
    let lines: Vec<&str> = text.split('\n').collect();
    let indent = lines[1..]
        .iter()
        .filter(|line| !line.chars().all(blank))
        .map(|line| line.chars().take_while(|c| blank(*c)).count())
        .min()
        .unwrap_or(0);
    let mut out = vec![lines[0].to_string()];
    for line in &lines[1..] {
        if line.chars().count() > indent {
            out.push(line.chars().skip(indent).collect());
        } else {
            out.push(String::new());
        }
    }
    out.join("\n")
}

#[test]
fn content_follows_the_rules_of_indentation() {
    let pieces = ["", " ", "   ", "\t", "a", "é b", "\n", "\r\n", "\n  "];
    for a in pieces {
        for b in pieces {
            for c in pieces {
                for d in pieces {
                    for e in pieces {
                        let body = format!("{}{}{}{}{}", a, b, c, d, e);
                        let compiled = process_message_element(&message(None, &body)).unwrap();
                        assert_eq!(compiled.content, content_by_the_rules(&body), "{:?}", body);
                    }
                }
            }
        }
    }
}

#[test]
fn lines_that_hold_blanks_only_do_not_count() {
    let body = "first\n      deep\n \n    shallow\n\n     between";
    let compiled = process_message_element(&message(None, body)).unwrap();
    assert_eq!(compiled.content, "first\n  deep\n\nshallow\n\n between");
    let body = "first\n\tone\n\t\ttwo";
    let compiled = process_message_element(&message(None, body)).unwrap();
    assert_eq!(compiled.content, "first\none\n\ttwo");
}

#[test]
fn faults_are_put_into_words() {
    assert_eq!(PromptNotFound("poet".to_string()).message(), "Cannot find prompt: \"poet\".");
    assert_eq!(
        PromptNotFound("a \"b\"\n".to_string()).message(),
        "Cannot find prompt: \"a \\\"b\\\"\\n\"."
    );
    assert_eq!(InvalidRole("wizard".to_string()).message(), "Invalid role: \"wizard\".");
}

#[test]
fn prompts_are_found_at_any_depth_and_keep_the_order_of_the_document() {
    let source = r#"
        <div><prompt name="a" model="m"><message>one</message></prompt></div>
        <prompt name="b" model="m">
            <message>two</message>
            <prompt name="c" model="m"><message role="system">three</message></prompt>
        </prompt>
    "#;
    let collection = PromptCollection::parse(source);
    assert_eq!(collection.len(), 3);
    assert_eq!(collection.at(0).name, text("a"));
    assert_eq!(collection.at(1).name, text("b"));
    assert_eq!(collection.at(2).name, text("c"));
    assert_eq!(collection.at(0).messages, vec![Message::user("one")]);
    assert_eq!(collection.at(1).messages, vec![Message::user("two"), Message::system("three")]);
    assert_eq!(collection.at(2).messages, vec![Message::system("three")]);
}

#[test]
fn markup_inside_a_message_is_kept_as_markup() {
    let source = r#"<prompt name="a" model="m"><message>1 &lt; 2 <b>bold</b></message></prompt>"#;
    let prompt = Prompt::parse(source, "a").unwrap();
    assert_eq!(prompt.messages, vec![Message::user("1 &lt; 2 <b>bold</b>")]);
}

#[test]
fn attribute_names_are_read_in_any_case_but_values_are_kept() {
    let source = r#"<PROMPT NAME="Mixed" Model="GPT"><MESSAGE ROLE="System">Hi</MESSAGE></PROMPT>"#;
    let collection = PromptCollection::parse(source);
    assert_eq!(collection.len(), 1);
    let prompt = collection.get("Mixed").unwrap();
    assert_eq!(prompt.configuration.model, text("GPT"));
    assert_eq!(prompt.messages, vec![Message::system("Hi")]);
}

#[test]
fn markup_is_measured_in_bytes() {
    assert!(fits(""));
    assert!(fits("<prompt></prompt>"));
    let longest = "a".repeat(MAX_MARKUP_BYTES);
    assert!(fits(&longest));
    let mut beyond = longest;
    beyond.push('a');
    assert!(!fits(&beyond));
    let wide = "é".repeat(MAX_MARKUP_BYTES / 2);
    assert!(fits(&wide));
    let mut wider = wide;
    wider.push('a');
    assert!(!fits(&wider));
}

#[test]
fn a_long_document_is_parsed() {
    let mut source = String::new();
    for i in 0..2000 {
        source.push_str(&format!(
            "<prompt name=\"p{}\" model=\"m\"><message>{}</message></prompt>\n",
            i,
            "word ".repeat(200)
        ));
    }
    assert!(fits(&source));
    let collection = PromptCollection::parse(&source);
    assert_eq!(collection.len(), 2000);
    assert_eq!(collection.get("p1999").unwrap().configuration.model, text("m"));
}
