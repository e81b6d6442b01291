//! Markup, as `scraper` parses and queries it, and the elements that a prompt
//! document is made of.
//!
//! The crate reads markup through this module only. What `scraper` does is
//! not verified here: the contracts of the functions that call it say what
//! is taken for granted, and the rest of the module is proved from those
//! contracts.

use crate::model::text_view;
use crate::model::views;
use vstd::prelude::*;

verus! {

/// A parsed document of `scraper`.
#[verifier::external_type_specification]
#[verifier::external_body]
pub struct ExHtml(scraper::Html);

/// A reference of `scraper` to an element of a parsed document.
#[verifier::external_type_specification]
#[verifier::external_body]
pub struct ExElementRef<'a>(scraper::ElementRef<'a>);

/// A selector of `scraper`.
#[verifier::external_type_specification]
#[verifier::external_body]
pub struct ExSelector(scraper::Selector);

/// The document that `source` is parsed into, as a fragment.
pub uninterp spec fn parsed_fragment(source: Seq<char>) -> scraper::Html;

/// The selector that `text` is parsed into.
pub uninterp spec fn parsed_selector(text: Seq<char>) -> scraper::Selector;

/// The elements of `document` that `selector` matches, in the order in which
/// the document yields them.
pub uninterp spec fn selected(document: &scraper::Html, selector: scraper::Selector) -> Seq<
    scraper::ElementRef<'_>,
>;

/// The elements below `element` that `selector` matches, in the order in
/// which the element yields them.
pub uninterp spec fn selected_within(
    element: scraper::ElementRef,
    selector: scraper::Selector,
) -> Seq<scraper::ElementRef>;

/// The value of the attribute of `element` that is called `name`, if the
/// element has one.
pub uninterp spec fn attribute(element: scraper::ElementRef, name: Seq<char>) -> Option<Seq<char>>;

/// The markup inside `element`, written out again.
pub uninterp spec fn inner_html(element: scraper::ElementRef) -> Seq<char>;

/// The most bytes that a text may have to be parsed as markup. The parser
/// keeps text in buffers that hold less than four gibibytes and that grow by
/// doubling, and it panics where one would grow beyond that; a text within
/// this bound, and whatever the parser makes of it, stays well within.
pub const MAX_MARKUP_BYTES: usize = 0x1000_0000;

/// Whether `source` is short enough to be parsed as markup: written out in
/// UTF-8 it has [`MAX_MARKUP_BYTES`] bytes at most.
pub open spec fn markup_fits(source: Seq<char>) -> bool {
    vstd::utf8::encode_utf8(source).len() <= MAX_MARKUP_BYTES
}

/// Decides [`markup_fits`].
pub fn fits(source: &str) -> (short: bool)
    ensures
        short == markup_fits(source@),
{
    source.as_bytes().len() <= MAX_MARKUP_BYTES
}

/// Whether `tag` is a plain tag name: one or more small letters of the basic
/// alphabet.
pub open spec fn is_tag_name(tag: Seq<char>) -> bool {
    tag.len() > 0 && forall|i: int| 0 <= i < tag.len() ==> 'a' <= #[trigger] tag[i] <= 'z'
}

/// `scraper::Html::parse_fragment`: parses `source` as a fragment of a
/// document. Parsing reports no failure, but it panics on a text that its
/// buffers cannot hold, so the text must be short enough. The contract
/// gives the document a name, [`parsed_fragment`].
#[verifier::external_body]
pub(crate) fn parse_fragment(source: &str) -> (document: scraper::Html)
    requires
        markup_fits(source@),
    ensures
        document == parsed_fragment(source@),
{
    scraper::Html::parse_fragment(source)
}

/// `scraper::Selector::parse`, for a plain tag name, which always is a
/// selector. The contract gives the selector a name, [`parsed_selector`].
#[verifier::external_body]
pub(crate) fn tag_selector(tag: &str) -> (selector: scraper::Selector)
    requires
        is_tag_name(tag@),
    ensures
        selector == parsed_selector(tag@),
{
    scraper::Selector::parse(tag).unwrap()
}

/// `scraper::Html::select`: the elements of a document that a selector
/// matches. The contract gives the row of them a name, [`selected`].
#[verifier::external_body]
pub(crate) fn select<'a>(document: &'a scraper::Html, selector: &scraper::Selector) -> (found: Vec<
    scraper::ElementRef<'a>,
>)
    ensures
        found@ == selected(document, *selector),
{
    document.select(selector).collect()
}

/// `scraper::ElementRef::select`: the elements below an element that a
/// selector matches. The contract gives the row of them a name,
/// [`selected_within`].
#[verifier::external_body]
pub(crate) fn select_within<'a>(
    element: &scraper::ElementRef<'a>,
    selector: &scraper::Selector,
) -> (found: Vec<scraper::ElementRef<'a>>)
    ensures
        found@ == selected_within(*element, *selector),
{
    element.select(selector).collect()
}

/// `scraper::ElementRef::attr`: the value of an attribute of an element. The
/// contract gives the value a name, [`attribute`].
#[verifier::external_body]
pub(crate) fn attr(element: &scraper::ElementRef, name: &str) -> (value: Option<String>)
    ensures
        text_view(value) == attribute(*element, name@),
{
    element.attr(name).map(str::to_string)
}

/// `scraper::ElementRef::inner_html`: the markup inside an element. The
/// contract gives the markup a name, [`inner_html`].
#[verifier::external_body]
pub(crate) fn inner(element: &scraper::ElementRef) -> (markup: String)
    ensures
        markup@ == inner_html(*element),
{
    element.inner_html()
}

/// A message element of a prompt document, as it stands in the markup.
#[derive(Debug, Clone, PartialEq, Eq)]
pub struct MessageElement {
    /// The value of the attribute `role`.
    pub role: Option<String>,
    /// The markup inside the element.
    pub body: String,
}

/// A [`MessageElement`] as contracts see it.
pub struct MessageElementView {
    pub role: Option<Seq<char>>,
    pub body: Seq<char>,
}

impl View for MessageElement {
    type V = MessageElementView;

    open spec fn view(&self) -> MessageElementView {
        MessageElementView { role: text_view(self.role), body: self.body@ }
    }
}

/// A prompt element of a prompt document, as it stands in the markup: the
/// values of its attributes, and the message elements below it.
#[derive(Debug, Clone, PartialEq, Eq)]
pub struct PromptElement {
    /// The value of the attribute `name`.
    pub name: Option<String>,
    /// The value of the attribute `model`.
    pub model: Option<String>,
    /// The value of the attribute `stream`.
    pub stream: Option<String>,
    /// The value of the attribute `temperature`.
    pub temperature: Option<String>,
    /// The value of the attribute `n`.
    pub n: Option<String>,
    /// The value of the attribute `max-tokens`.
    pub max_tokens: Option<String>,
    /// The value of the attribute `top-p`.
    pub top_p: Option<String>,
    /// The value of the attribute `frequency-penalty`.
    pub frequency_penalty: Option<String>,
    /// The value of the attribute `presence-penalty`.
    pub presence_penalty: Option<String>,
    /// The value of the attribute `logprobs`.
    pub logprobs: Option<String>,
    /// The value of the attribute `top-logprobs`.
    pub top_logprobs: Option<String>,
    /// The value of the attribute `response-format`.
    pub response_format: Option<String>,
    /// The value of the attribute `stop`.
    pub stop: Option<String>,
    pub messages: Vec<MessageElement>,
}

/// A [`PromptElement`] as contracts see it.
pub struct PromptElementView {
    pub name: Option<Seq<char>>,
    pub model: Option<Seq<char>>,
    pub stream: Option<Seq<char>>,
    pub temperature: Option<Seq<char>>,
    pub n: Option<Seq<char>>,
    pub max_tokens: Option<Seq<char>>,
    pub top_p: Option<Seq<char>>,
    pub frequency_penalty: Option<Seq<char>>,
    pub presence_penalty: Option<Seq<char>>,
    pub logprobs: Option<Seq<char>>,
    pub top_logprobs: Option<Seq<char>>,
    pub response_format: Option<Seq<char>>,
    pub stop: Option<Seq<char>>,
    pub messages: Seq<MessageElementView>,
}

impl View for PromptElement {
    type V = PromptElementView;

    open spec fn view(&self) -> PromptElementView {
        PromptElementView {
            name: text_view(self.name),
            model: text_view(self.model),
            stream: text_view(self.stream),
            temperature: text_view(self.temperature),
            n: text_view(self.n),
            max_tokens: text_view(self.max_tokens),
            top_p: text_view(self.top_p),
            frequency_penalty: text_view(self.frequency_penalty),
            presence_penalty: text_view(self.presence_penalty),
            logprobs: text_view(self.logprobs),
            top_logprobs: text_view(self.top_logprobs),
            response_format: text_view(self.response_format),
            stop: text_view(self.stop),
            messages: views(self.messages@),
        }
    }
}

/// What a message element holds.
pub open spec fn message_element_of(element: scraper::ElementRef) -> MessageElementView {
    MessageElementView { role: attribute(element, "role"@), body: inner_html(element) }
}

/// What a row of message elements holds.
pub open spec fn message_elements_of(elements: Seq<scraper::ElementRef>) -> Seq<
    MessageElementView,
> {
    Seq::new(elements.len(), |i: int| message_element_of(elements[i]))
}

/// What a prompt element holds: the values of the attributes that a prompt
/// can have, and the message elements below it.
pub open spec fn prompt_element_of(element: scraper::ElementRef) -> PromptElementView {
    PromptElementView {
        name: attribute(element, "name"@),
        model: attribute(element, "model"@),
        stream: attribute(element, "stream"@),
        temperature: attribute(element, "temperature"@),
        n: attribute(element, "n"@),
        max_tokens: attribute(element, "max-tokens"@),
        top_p: attribute(element, "top-p"@),
        frequency_penalty: attribute(element, "frequency-penalty"@),
        presence_penalty: attribute(element, "presence-penalty"@),
        logprobs: attribute(element, "logprobs"@),
        top_logprobs: attribute(element, "top-logprobs"@),
        response_format: attribute(element, "response-format"@),
        stop: attribute(element, "stop"@),
        messages: message_elements_of(selected_within(element, parsed_selector("message"@))),
    }
}

/// What a row of prompt elements holds.
pub open spec fn prompt_elements_of(elements: Seq<scraper::ElementRef>) -> Seq<PromptElementView> {
    Seq::new(elements.len(), |i: int| prompt_element_of(elements[i]))
}

/// The prompt elements of a document: the elements called `prompt` that the
/// parsed markup holds, in the order of the document.
pub open spec fn prompt_elements(source: Seq<char>) -> Seq<PromptElementView> {
    prompt_elements_of(selected(&parsed_fragment(source), parsed_selector("prompt"@)))
}

/// Reads a message element.
fn read_message_element(element: &scraper::ElementRef) -> (read: MessageElement)
    ensures
        read@ == message_element_of(*element),
{
    MessageElement { role: attr(element, "role"), body: inner(element) }
}

/// Reads a prompt element; `messages` selects the message elements.
fn read_prompt_element(element: &scraper::ElementRef, messages: &scraper::Selector) -> (read:
    PromptElement)
    requires
        *messages == parsed_selector("message"@),
    ensures
        read@ == prompt_element_of(*element),
{
    let found = select_within(element, messages);
    let mut read_messages: Vec<MessageElement> = Vec::new();
    let mut i: usize = 0;
    while i < found.len()
        invariant
            i <= found.len(),
            read_messages@.len() == i,
            forall|k: int| 0 <= k < i ==> read_messages@[k]@ == message_element_of(found@[k]),
        decreases found.len() - i,
    {
        read_messages.push(read_message_element(&found[i]));
        i += 1;
    }
    assert(views(read_messages@) =~= message_elements_of(found@));
    PromptElement {
        name: attr(element, "name"),
        model: attr(element, "model"),
        stream: attr(element, "stream"),
        temperature: attr(element, "temperature"),
        n: attr(element, "n"),
        max_tokens: attr(element, "max-tokens"),
        top_p: attr(element, "top-p"),
        frequency_penalty: attr(element, "frequency-penalty"),
        presence_penalty: attr(element, "presence-penalty"),
        logprobs: attr(element, "logprobs"),
        top_logprobs: attr(element, "top-logprobs"),
        response_format: attr(element, "response-format"),
        stop: attr(element, "stop"),
        messages: read_messages,
    }
}

/// Reads the prompt elements of a document, which must be short enough to
/// be parsed.
pub fn scan_prompt_elements(source: &str) -> (elements: Vec<PromptElement>)
    requires
        markup_fits(source@),
    ensures
        views(elements@) == prompt_elements(source@),
{
    proof {
        reveal_strlit("prompt");
        reveal_strlit("message");
    }
    let document = parse_fragment(source);
    let prompts = tag_selector("prompt");
    let messages = tag_selector("message");
    let found = select(&document, &prompts);
    let mut elements: Vec<PromptElement> = Vec::new();
    let mut i: usize = 0;
    while i < found.len()
        invariant
            i <= found.len(),
            messages == parsed_selector("message"@),
            elements@.len() == i,
            forall|k: int| 0 <= k < i ==> elements@[k]@ == prompt_element_of(found@[k]),
        decreases found.len() - i,
    {
        elements.push(read_prompt_element(&found[i], &messages));
        i += 1;
    }
    elements
}

} // verus!
