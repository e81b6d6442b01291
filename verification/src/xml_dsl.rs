//! Prompts written in markup: how a prompt element becomes a prompt, and the
//! collection of the prompts of one document.
//!
//! An attribute of a prompt element is read on its own. Where its value is
//! not of the kind that the setting asks for, the setting stays unset and the
//! prompt is compiled all the same. The role of a message is held to more:
//! a message with a role that is none of the three is a fault of the whole
//! prompt, and the prompt is left out of the collection.

use crate::client::body_view;
use crate::client::built;
use crate::client::ChatCompletionsBody;
use crate::client::ChatCompletionsRequestBuilder;
use crate::client::ConfigurationBuilder;
use crate::client::ConfigurationView;
use crate::client::copy_messages;
use crate::client::Message;
use crate::client::MessageView;
use crate::client::ResponseFormat;
use crate::client::ResponseType;
use crate::client::Role;
use crate::client::role_named;
use crate::client::SettingsView;
use crate::indent::unindent;
use crate::indent::unindented;
use crate::markup::markup_fits;
use crate::markup::MessageElement;
use crate::markup::MessageElementView;
use crate::markup::prompt_elements;
use crate::markup::PromptElement;
use crate::markup::PromptElementView;
use crate::markup::scan_prompt_elements;
use crate::model::copy_text;
use crate::model::text_view;
use crate::model::texts_view;
use crate::model::views;
use crate::scalar::is_scalar_notation;
use crate::scalar::Scalar;
use crate::scalar::scalar_view;
use crate::text::ascii_lowercase;
use crate::text::lemma_trimmed;
use crate::text::matches_keyword;
use crate::text::parse_bool;
use crate::text::parse_usize;
use crate::text::parsed_bool;
use crate::text::parsed_usize;
use crate::text::quote;
use crate::text::quoted;
use crate::text::text_equals;
use crate::text::trim;
use crate::text::trimmed;
use vstd::prelude::*;
use vstd::string::StringExecFns;

verus! {

/// A prompt: generation settings and the messages that they go with, under a
/// name by which the prompt is found.
#[derive(Debug, PartialEq, Eq)]
pub struct Prompt {
    pub name: Option<String>,
    pub configuration: ConfigurationBuilder,
    pub messages: Vec<Message>,
}

/// A [`Prompt`] as contracts see it.
pub struct PromptView {
    pub name: Option<Seq<char>>,
    pub configuration: ConfigurationView,
    pub messages: Seq<MessageView>,
}

impl View for Prompt {
    type V = PromptView;

    open spec fn view(&self) -> PromptView {
        PromptView {
            name: text_view(self.name),
            configuration: self.configuration@,
            messages: views(self.messages@),
        }
    }
}

impl Clone for Prompt {
    fn clone(&self) -> (copy: Prompt)
        ensures
            copy@ == self@,
    {
        Prompt {
            name: copy_text(&self.name),
            configuration: self.configuration.clone(),
            messages: copy_messages(&self.messages),
        }
    }
}

/// The fault of a message whose role is none of the three; it holds the role
/// as it was written.
#[derive(Debug, Clone, PartialEq, Eq)]
pub struct InvalidRole(pub String);

impl View for InvalidRole {
    type V = Seq<char>;

    open spec fn view(&self) -> Seq<char> {
        self.0@
    }
}

/// The fault of asking a collection for a prompt that it does not hold; it
/// holds the name that was asked for.
#[derive(Debug, Clone, PartialEq, Eq)]
pub struct PromptNotFound(pub String);

impl View for PromptNotFound {
    type V = Seq<char>;

    open spec fn view(&self) -> Seq<char> {
        self.0@
    }
}

impl PromptNotFound {
    /// A sentence that names the prompt.
    pub fn message(&self) -> (sentence: String)
        ensures
            sentence@ == "Cannot find prompt: "@ + quoted(self@) + "."@,
    {
        let mut sentence = String::from_str("Cannot find prompt: ");
        sentence.append(quote(self.0.as_str()).as_str());
        sentence.append(".");
        sentence
    }
}

impl InvalidRole {
    /// A sentence that names the role.
    pub fn message(&self) -> (sentence: String)
        ensures
            sentence@ == "Invalid role: "@ + quoted(self@) + "."@,
    {
        let mut sentence = String::from_str("Invalid role: ");
        sentence.append(quote(self.0.as_str()).as_str());
        sentence.append(".");
        sentence
    }
}

/// The truth value that an attribute sets: the one that its value spells,
/// and none where the attribute is absent or spells none.
pub open spec fn flag_of(value: Option<Seq<char>>) -> Option<bool> {
    match value {
        Some(text) => parsed_bool(text),
        None => None,
    }
}

/// The count that an attribute sets: the one that its value spells, and none
/// where the attribute is absent or spells none.
pub open spec fn count_of(value: Option<Seq<char>>) -> Option<usize> {
    match value {
        Some(text) => parsed_usize(text),
        None => None,
    }
}

/// The real value that an attribute sets: its value as it is written, where
/// that denotes a real value, and none otherwise.
pub open spec fn scalar_of(value: Option<Seq<char>>) -> Option<Seq<char>> {
    match value {
        Some(text) => if is_scalar_notation(text) {
            Some(text)
        } else {
            None
        },
        None => None,
    }
}

/// The form of the answer that an attribute sets. Its value is read without
/// regard to the case of letters: `json-object` and `json_object` ask for a
/// JSON object, `text` asks for text, and anything else sets nothing.
pub open spec fn format_of(value: Option<Seq<char>>) -> Option<ResponseFormat> {
    match value {
        Some(text) => {
            let folded = ascii_lowercase(text);
            if folded == "json-object"@ || folded == "json_object"@ {
                Some(ResponseFormat { kind: ResponseType::JsonObject })
            } else if folded == "text"@ {
                Some(ResponseFormat { kind: ResponseType::Text })
            } else {
                None
            }
        },
        None => None,
    }
}

/// The stop texts that an attribute sets: its value, as the one text at
/// which generation stops.
pub open spec fn stop_of(value: Option<Seq<char>>) -> Option<Seq<Seq<char>>> {
    match value {
        Some(text) => Some(seq![text]),
        None => None,
    }
}

/// The configuration that the attributes of a prompt element set.
pub open spec fn configuration_of(element: PromptElementView) -> ConfigurationView {
    ConfigurationView {
        model: element.model,
        settings: SettingsView {
            stream: flag_of(element.stream),
            temperature: scalar_of(element.temperature),
            n: count_of(element.n),
            max_tokens: count_of(element.max_tokens),
            top_p: scalar_of(element.top_p),
            frequency_penalty: scalar_of(element.frequency_penalty),
            presence_penalty: scalar_of(element.presence_penalty),
            logprobs: flag_of(element.logprobs),
            top_logprobs: count_of(element.top_logprobs),
            response_format: format_of(element.response_format),
            stop: stop_of(element.stop),
            seed: None,
        },
    }
}

/// The role that a message element is written with: `user` where it has no
/// attribute `role`.
pub open spec fn written_role(element: MessageElementView) -> Seq<char> {
    match element.role {
        Some(role) => role,
        None => "user"@,
    }
}

/// The content of a message: the markup inside the element, without the
/// white space at its two ends and then without the indentation that its
/// lines have in common.
pub open spec fn content_of_body(body: Seq<char>) -> Seq<char> {
    unindented(trimmed(body))
}

/// The message that a message element stands for, or the role that stands in
/// its way.
pub open spec fn message_of(element: MessageElementView) -> Result<MessageView, Seq<char>> {
    match role_named(written_role(element)) {
        Some(role) => Ok(MessageView { role, content: content_of_body(element.body) }),
        None => Err(written_role(element)),
    }
}

/// The messages that a row of message elements stands for, in their order,
/// or the role of the first element that stands for none.
pub open spec fn messages_of(elements: Seq<MessageElementView>) -> Result<
    Seq<MessageView>,
    Seq<char>,
>
    decreases elements.len(),
{
    if elements.len() == 0 {
        Ok(Seq::empty())
    } else {
        match messages_of(elements.drop_last()) {
            Ok(before) => match message_of(elements.last()) {
                Ok(message) => Ok(before.push(message)),
                Err(role) => Err(role),
            },
            Err(role) => Err(role),
        }
    }
}

/// The prompt that a prompt element stands for, or the role that stands in
/// its way.
pub open spec fn compiled(element: PromptElementView) -> Result<PromptView, Seq<char>> {
    match messages_of(element.messages) {
        Ok(messages) => Ok(
            PromptView {
                name: element.name,
                configuration: configuration_of(element),
                messages,
            },
        ),
        Err(role) => Err(role),
    }
}

/// The prompts that a row of prompt elements stands for: one for each
/// element that stands for a prompt, in the order of the elements.
pub open spec fn compiled_all(elements: Seq<PromptElementView>) -> Seq<PromptView>
    decreases elements.len(),
{
    if elements.len() == 0 {
        Seq::empty()
    } else {
        match compiled(elements.last()) {
            Ok(prompt) => compiled_all(elements.drop_last()).push(prompt),
            Err(_) => compiled_all(elements.drop_last()),
        }
    }
}

/// The view of the outcome of compiling a prompt element.
pub open spec fn outcome_view(outcome: Result<Prompt, InvalidRole>) -> Result<
    PromptView,
    Seq<char>,
> {
    match outcome {
        Ok(prompt) => Ok(prompt@),
        Err(fault) => Err(fault@),
    }
}

/// Reads the truth value that an attribute sets.
fn read_flag(value: &Option<String>) -> (flag: Option<bool>)
    ensures
        flag == flag_of(text_view(*value)),
{
    match value {
        Some(text) => parse_bool(text.as_str()),
        None => None,
    }
}

/// Reads the count that an attribute sets.
fn read_count(value: &Option<String>) -> (count: Option<usize>)
    ensures
        count == count_of(text_view(*value)),
{
    match value {
        Some(text) => parse_usize(text.as_str()),
        None => None,
    }
}

/// Reads the real value that an attribute sets.
fn read_scalar(value: &Option<String>) -> (scalar: Option<Scalar>)
    ensures
        scalar_view(scalar) == scalar_of(text_view(*value)),
{
    match value {
        Some(text) => Scalar::parse(text.as_str()),
        None => None,
    }
}

/// Reads the form of the answer that an attribute sets.
fn read_format(value: &Option<String>) -> (format: Option<ResponseFormat>)
    ensures
        format == format_of(text_view(*value)),
{
    match value {
        Some(text) => {
            if matches_keyword(text.as_str(), "json-object") || matches_keyword(
                text.as_str(),
                "json_object",
            ) {
                Some(ResponseFormat::json_object())
            } else if matches_keyword(text.as_str(), "text") {
                Some(ResponseFormat::text())
            } else {
                None
            }
        },
        None => None,
    }
}

/// Reads the stop texts that an attribute sets.
fn read_stop(value: &Option<String>) -> (stop: Option<Vec<String>>)
    ensures
        texts_view(stop) == stop_of(text_view(*value)),
{
    match value {
        Some(text) => {
            let mut stop: Vec<String> = Vec::new();
            stop.push(text.clone());
            Some(stop)
        },
        None => None,
    }
}

/// Compiles a message element.
pub fn process_message_element(element: &MessageElement) -> (outcome: Result<Message, InvalidRole>)
    ensures
        match outcome {
            Ok(message) => message_of(element@) == Ok::<MessageView, Seq<char>>(message@),
            Err(fault) => message_of(element@) == Err::<MessageView, Seq<char>>(fault@),
        },
{
    let written: String = match &element.role {
        Some(role) => role.clone(),
        None => String::from_str("user"),
    };
    match Role::from(written.as_str()) {
        Some(role) => {
            let inside = trim(element.body.as_str());
            proof {
                lemma_trimmed(element.body@);
            }
            let content = unindent(inside.as_str());
            Ok(Message { role, content })
        },
        None => Err(InvalidRole(written)),
    }
}

/// Compiles a prompt element: the settings that its attributes set, and the
/// messages below it. A value that is not of the kind that its setting asks
/// for leaves the setting unset. A message whose role is none of the three
/// is the fault of the whole element; the role of the first such message is
/// returned.
pub fn process_prompt_element(element: &PromptElement) -> (outcome: Result<Prompt, InvalidRole>)
    ensures
        outcome_view(outcome) == compiled(element@),
{
    let mut messages: Vec<Message> = Vec::new();
    let mut i: usize = 0;
    assert(views(messages@) =~= Seq::<MessageView>::empty());
    while i < element.messages.len()
        invariant
            i <= element.messages.len(),
            messages_of(views(element.messages@).take(i as int)) == Ok::<
                Seq<MessageView>,
                Seq<char>,
            >(views(messages@)),
        decreases element.messages.len() - i,
    {
        let ghost before = views(element.messages@).take(i as int);
        let ghost after = views(element.messages@).take(i + 1);
        assert(after.drop_last() =~= before);
        match process_message_element(&element.messages[i]) {
            Ok(message) => {
                let ghost old_messages = views(messages@);
                messages.push(message);
                assert(views(messages@) =~= old_messages.push(message@));
            },
            Err(fault) => {
                proof {
                    lemma_messages_fail(views(element.messages@), i as int);
                }
                return Err(fault);
            },
        }
        i += 1;
    }
    assert(views(element.messages@).take(i as int) =~= views(element.messages@));
    let configuration = ConfigurationBuilder {
        model: copy_text(&element.model),
        stream: read_flag(&element.stream),
        temperature: read_scalar(&element.temperature),
        n: read_count(&element.n),
        max_tokens: read_count(&element.max_tokens),
        top_p: read_scalar(&element.top_p),
        frequency_penalty: read_scalar(&element.frequency_penalty),
        presence_penalty: read_scalar(&element.presence_penalty),
        logprobs: read_flag(&element.logprobs),
        top_logprobs: read_count(&element.top_logprobs),
        response_format: read_format(&element.response_format),
        stop: read_stop(&element.stop),
        seed: None,
    };
    Ok(Prompt { name: copy_text(&element.name), configuration, messages })
}

/// Where the elements before the one at `at` stand for messages and that one
/// stands for none, the row stands for none, and the fault is that of the
/// element at `at`.
pub proof fn lemma_messages_fail(elements: Seq<MessageElementView>, at: int)
    requires
        0 <= at < elements.len(),
        messages_of(elements.take(at)) is Ok,
        message_of(elements[at]) is Err,
    ensures
        messages_of(elements) == Err::<Seq<MessageView>, Seq<char>>(
            message_of(elements[at])->Err_0,
        ),
    decreases elements.len(),
{
    if at < elements.len() - 1 {
        assert(elements.drop_last().take(at) =~= elements.take(at));
        lemma_messages_fail(elements.drop_last(), at);
    }
}

/// Where a row of message elements stands for messages, there is one message
/// for each element, in the order of the elements.
pub proof fn lemma_messages_in_order(elements: Seq<MessageElementView>)
    requires
        messages_of(elements) is Ok,
    ensures
        messages_of(elements)->Ok_0.len() == elements.len(),
        forall|i: int|
            0 <= i < elements.len() ==> message_of(#[trigger] elements[i]) == Ok::<
                MessageView,
                Seq<char>,
            >(messages_of(elements)->Ok_0[i]),
    decreases elements.len(),
{
    if elements.len() > 0 {
        let rest = elements.drop_last();
        lemma_messages_in_order(rest);
        assert forall|i: int| 0 <= i < elements.len() implies message_of(#[trigger] elements[i])
            == Ok::<MessageView, Seq<char>>(messages_of(elements)->Ok_0[i]) by {
            if i < rest.len() {
                assert(elements[i] == rest[i]);
            }
        }
    }
}

/// From markup to request body: a prompt element that stands for a prompt
/// makes a request body exactly where it names a model. The body is for that
/// model, holds the settings that the attributes set, and holds one message
/// for each message element, in the order of the elements.
pub proof fn lemma_compiled_body(element: PromptElementView)
    requires
        compiled(element) is Ok,
    ensures
        ({
            let prompt = compiled(element)->Ok_0;
            let body = built(prompt.configuration, prompt.messages);
            &&& body is Some <==> element.model is Some
            &&& body matches Some(b) ==> {
                &&& Some(b.model) == element.model
                &&& b.settings == configuration_of(element).settings
                &&& b.messages.len() == element.messages.len()
                &&& forall|i: int|
                    0 <= i < element.messages.len() ==> message_of(#[trigger] element.messages[i])
                        == Ok::<MessageView, Seq<char>>(b.messages[i])
            }
        }),
{
    lemma_messages_in_order(element.messages);
}

/// A prompt element stands for a prompt unless one of its messages has a role
/// that is none of the three: no value of any attribute stands in the way.
pub proof fn lemma_only_roles_are_fatal(element: PromptElementView)
    ensures
        compiled(element) is Err <==> exists|i: int|
            0 <= i < element.messages.len() && role_named(
                written_role(#[trigger] element.messages[i]),
            ) is None,
{
    lemma_roles_decide(element.messages);
}

/// A row of message elements stands for messages unless one of them has a
/// role that is none of the three.
pub proof fn lemma_roles_decide(elements: Seq<MessageElementView>)
    ensures
        messages_of(elements) is Err <==> exists|i: int|
            0 <= i < elements.len() && role_named(written_role(#[trigger] elements[i])) is None,
    decreases elements.len(),
{
    if elements.len() > 0 {
        let rest = elements.drop_last();
        lemma_roles_decide(rest);
        if messages_of(elements) is Err {
            if messages_of(rest) is Err {
                let i = choose|i: int|
                    0 <= i < rest.len() && role_named(written_role(#[trigger] rest[i])) is None;
            }
        } else {
            assert forall|i: int| 0 <= i < elements.len() implies role_named(
                written_role(#[trigger] elements[i]),
            ) is Some by {
                if i < rest.len() {
                    assert(elements[i] == rest[i]);
                }
            }
        }
    }
}

/// The first prompt of a row that goes by `name`.
pub open spec fn first_named(prompts: Seq<PromptView>, name: Seq<char>) -> Option<PromptView>
    decreases prompts.len(),
{
    if prompts.len() == 0 {
        None
    } else if prompts[0].name == Some(name) {
        Some(prompts[0])
    } else {
        first_named(prompts.drop_first(), name)
    }
}

/// The view of a prompt that may be absent.
pub open spec fn prompt_view(prompt: Option<Prompt>) -> Option<PromptView> {
    match prompt {
        Some(p) => Some(p@),
        None => None,
    }
}

/// Which prompt a name finds: the one at the least position that goes by the
/// name. Prompts of the same name that stand after it are never found, and
/// a name that no prompt goes by finds nothing.
pub proof fn lemma_first_named(prompts: Seq<PromptView>, name: Seq<char>)
    ensures
        match first_named(prompts, name) {
            Some(prompt) => exists|i: int|
                0 <= i < prompts.len() && prompts[i] == prompt && prompt.name == Some(name)
                    && forall|j: int| 0 <= j < i ==> (#[trigger] prompts[j]).name != Some(name),
            None => forall|i: int| 0 <= i < prompts.len() ==> (#[trigger] prompts[i]).name != Some(
                name,
            ),
        },
    decreases prompts.len(),
{
    if prompts.len() > 0 && prompts[0].name != Some(name) {
        let rest = prompts.drop_first();
        lemma_first_named(rest, name);
        match first_named(rest, name) {
            Some(prompt) => {
                let i = choose|i: int|
                    0 <= i < rest.len() && rest[i] == prompt && prompt.name == Some(name)
                        && forall|j: int| 0 <= j < i ==> (#[trigger] rest[j]).name != Some(name);
                assert forall|j: int| 0 <= j < i + 1 implies (#[trigger] prompts[j]).name != Some(
                    name,
                ) by {
                    if j > 0 {
                        assert(prompts[j] == rest[j - 1]);
                    }
                }
            },
            None => {
                assert forall|i: int| 0 <= i < prompts.len() implies (#[trigger] prompts[i]).name
                    != Some(name) by {
                    if i > 0 {
                        assert(prompts[i] == rest[i - 1]);
                    }
                }
            },
        }
    } else if prompts.len() > 0 {
    }
}

/// The prompts of one document, in the order of the document.
#[derive(Debug, Clone, PartialEq, Eq)]
pub struct PromptCollection {
    prompts: Vec<Prompt>,
}

impl View for PromptCollection {
    type V = Seq<PromptView>;

    closed spec fn view(&self) -> Seq<PromptView> {
        views(self.prompts@)
    }
}

impl PromptCollection {
    /// Compiles a row of prompt elements. An element with a message whose
    /// role is none of the three is left out; the others are compiled, each
    /// on its own, and keep their order.
    pub fn from_elements(elements: &Vec<PromptElement>) -> (collection: PromptCollection)
        ensures
            collection@ == compiled_all(views(elements@)),
    {
        let mut prompts: Vec<Prompt> = Vec::new();
        let mut i: usize = 0;
        while i < elements.len()
            invariant
                i <= elements.len(),
                views(prompts@) == compiled_all(views(elements@).take(i as int)),
            decreases elements.len() - i,
        {
            let ghost before = views(elements@).take(i as int);
            let ghost after = views(elements@).take(i + 1);
            assert(after.drop_last() =~= before);
            match process_prompt_element(&elements[i]) {
                Ok(prompt) => {
                    prompts.push(prompt);
                },
                Err(_) => {},
            }
            i += 1;
        }
        assert(views(elements@).take(i as int) =~= views(elements@));
        PromptCollection { prompts }
    }

    /// Compiles the prompts of a document written in markup, which must be
    /// short enough to be parsed.
    pub fn parse(contents: &str) -> (collection: PromptCollection)
        requires
            markup_fits(contents@),
        ensures
            collection@ == compiled_all(prompt_elements(contents@)),
    {
        let elements = scan_prompt_elements(contents);
        PromptCollection::from_elements(&elements)
    }

    /// The first prompt that goes by `prompt_name`, if there is one.
    pub fn get(&self, prompt_name: &str) -> (prompt: Option<Prompt>)
        ensures
            prompt_view(prompt) == first_named(self@, prompt_name@),
            (forall|i: int| 0 <= i < self@.len() ==> (#[trigger] self@[i]).name != Some(prompt_name@))
                ==> prompt is None,
    {
        let mut i: usize = 0;
        assert(views(self.prompts@).skip(0) =~= views(self.prompts@));
        while i < self.prompts.len()
            invariant
                i <= self.prompts.len(),
                first_named(self@, prompt_name@) == first_named(
                    views(self.prompts@).skip(i as int),
                    prompt_name@,
                ),
            decreases self.prompts.len() - i,
        {
            let ghost rest = views(self.prompts@).skip(i as int);
            let found = match &self.prompts[i].name {
                Some(name) => text_equals(name.as_str(), prompt_name),
                None => false,
            };
            if found {
                proof {
                    lemma_first_named(self@, prompt_name@);
                }
                return Some(self.prompts[i].clone());
            }
            assert(rest.drop_first() =~= views(self.prompts@).skip(i + 1));
            i += 1;
        }
        None
    }

    /// How many prompts the collection holds.
    pub fn len(&self) -> (count: usize)
        ensures
            count == self@.len(),
    {
        self.prompts.len()
    }

    /// The prompt at position `index`.
    pub fn at(&self, index: usize) -> (prompt: &Prompt)
        requires
            index < self@.len(),
        ensures
            prompt@ == self@[index as int],
    {
        &self.prompts[index]
    }
}

impl Prompt {
    /// Compiles the prompts of a document written in markup, and looks for
    /// the first that goes by `prompt_name`. The document must be short
    /// enough to be parsed.
    pub fn parse(contents: &str, prompt_name: &str) -> (found: Result<Prompt, PromptNotFound>)
        requires
            markup_fits(contents@),
        ensures
            match found {
                Ok(prompt) => first_named(compiled_all(prompt_elements(contents@)), prompt_name@)
                    == Some(prompt@),
                Err(fault) => first_named(compiled_all(prompt_elements(contents@)), prompt_name@)
                    is None && fault@ == prompt_name@,
            },
    {
        let collection = PromptCollection::parse(contents);
        Prompt::find(&collection, prompt_name)
    }

    /// Looks in `collection` for the first prompt that goes by `prompt_name`.
    pub fn find(collection: &PromptCollection, prompt_name: &str) -> (found: Result<
        Prompt,
        PromptNotFound,
    >)
        ensures
            match found {
                Ok(prompt) => first_named(collection@, prompt_name@) == Some(prompt@),
                Err(fault) => first_named(collection@, prompt_name@) is None && fault@
                    == prompt_name@,
            },
    {
        match collection.get(prompt_name) {
            Some(prompt) => Ok(prompt),
            None => Err(PromptNotFound(String::from_str(prompt_name))),
        }
    }

    /// The request body that the prompt makes: its messages under its
    /// settings. There is none where the model is unset.
    pub fn build_body(&self) -> (body: Option<ChatCompletionsBody>)
        ensures
            body_view(body) == built(self@.configuration, self@.messages),
    {
        self.configuration.clone().build(copy_messages(&self.messages))
    }

    /// The parts of a request of which the body is known: the one that the
    /// prompt makes. There are none where the model is unset.
    pub fn request_builder(&self) -> (builder: Option<ChatCompletionsRequestBuilder>)
        ensures
            match builder {
                Some(b) => built(self@.configuration, self@.messages) == b@.body && b@.body is Some
                    && b@.api_endpoint is None && b@.timeout is None,
                None => built(self@.configuration, self@.messages) is None,
            },
    {
        match self.build_body() {
            Some(body) => Some(ChatCompletionsRequestBuilder::default().with_body(body)),
            None => None,
        }
    }
}

} // verus!
