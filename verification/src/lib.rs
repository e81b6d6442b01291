//! Client-side logic for a streaming chat-completion service, together with a
//! small markup language for reusable prompts.
//!
//! The crate holds everything that decides or computes: how a response status
//! is classified, how rate-limit headers are read, how the body of a streamed
//! response is cut into lines and turned into chunks, how chunks are joined
//! into the final text, and how a markup document is compiled into prompts.
//! Moving bytes over the network and reading files is left to the caller.
//!
//! From a prompt document to an answer:
//!
//! 1. [`xml_dsl::PromptCollection::parse`] compiles the prompts of a document
//!    that is short enough to be parsed ([`markup::fits`]), and
//!    [`xml_dsl::PromptCollection::get`] finds one by its name.
//! 2. [`xml_dsl::Prompt::build_body`] joins its settings and messages into a
//!    request body.
//! 3. The caller sends the body. [`stream::ChatCompletionsStream::open`]
//!    decides from the status and the headers of the response how the call
//!    goes on.
//! 4. [`stream::ChatCompletionsStream::push_segment`] takes in the body as it
//!    arrives, and [`stream::ChatCompletionsStream::finish`] ends it.
//! 5. [`response::ChatCompletionsResponse::content`] is the text of a choice.

pub mod chunk;
pub mod client;
pub mod indent;
pub mod json;
pub mod markup;
pub mod model;
pub mod rate_limit;
pub mod response;
pub mod scalar;
pub mod status;
pub mod stream;
pub mod text;
pub mod xml_dsl;
