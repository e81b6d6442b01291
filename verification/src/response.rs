//! The whole answer, and the text of each of its choices.

use crate::chunk::ChoiceView;
use crate::chunk::ChunkView;
use crate::chunk::CompletionChunk;
use crate::chunk::delta_texts;
use crate::chunk::joined_content;
use crate::model::views;
use crate::rate_limit::metadata_view;
use crate::rate_limit::RateLimitMetadata;
use crate::rate_limit::RateLimitMetadataView;
use vstd::prelude::*;
use vstd::string::StringExecFns;

verus! {

/// The whole of an answer, once its stream has ended.
#[derive(Debug, Clone, PartialEq, Eq)]
pub struct ChatCompletionsResponse {
    pub rate_limit_metadata: Option<RateLimitMetadata>,
    pub output: Vec<CompletionChunk>,
}

impl View for ChatCompletionsResponse {
    type V = ResponseView;

    open spec fn view(&self) -> ResponseView {
        ResponseView {
            rate_limit_metadata: metadata_view(self.rate_limit_metadata),
            output: views(self.output@),
        }
    }
}

/// A [`ChatCompletionsResponse`] as contracts see it.
pub struct ResponseView {
    pub rate_limit_metadata: Option<RateLimitMetadataView>,
    pub output: Seq<ChunkView>,
}

/// The text that a row of choices adds to the choice of index `index`: the
/// contents of the deltas of that index, one after the other.
pub open spec fn choices_content(choices: Seq<ChoiceView>, index: usize) -> Seq<char>
    decreases choices.len(),
{
    if choices.len() == 0 {
        Seq::empty()
    } else {
        choices_content(choices.drop_last(), index) + match choices.last().delta.content {
            Some(text) => if choices.last().index == index {
                text
            } else {
                Seq::empty()
            },
            None => Seq::empty(),
        }
    }
}

/// The text of the choice of index `index` in a row of chunks: what each
/// chunk adds to that choice, in the order of the chunks.
pub open spec fn content_of(chunks: Seq<ChunkView>, index: usize) -> Seq<char>
    decreases chunks.len(),
{
    if chunks.len() == 0 {
        Seq::empty()
    } else {
        content_of(chunks.drop_last(), index) + choices_content(chunks.last().choices, index)
    }
}

/// Whether a row of choices holds one of index `index`.
pub open spec fn has_choice(choices: Seq<ChoiceView>, index: usize) -> bool {
    exists|i: int| 0 <= i < choices.len() && (#[trigger] choices[i]).index == index
}

/// Whether a row of chunks holds a choice of index `index`.
pub open spec fn mentions(chunks: Seq<ChunkView>, index: usize) -> bool {
    exists|i: int| 0 <= i < chunks.len() && has_choice((#[trigger] chunks[i]).choices, index)
}

/// Choices of other indices add nothing to the choice of index `index`.
pub proof fn lemma_choices_content_absent(choices: Seq<ChoiceView>, index: usize)
    requires
        !has_choice(choices, index),
    ensures
        choices_content(choices, index) == Seq::<char>::empty(),
    decreases choices.len(),
{
    if choices.len() > 0 {
        let rest = choices.drop_last();
        lemma_choices_content_absent(rest, index);
    }
}

/// The text of a choice that no chunk mentions is empty.
pub proof fn lemma_content_absent(chunks: Seq<ChunkView>, index: usize)
    requires
        !mentions(chunks, index),
    ensures
        content_of(chunks, index) == Seq::<char>::empty(),
    decreases chunks.len(),
{
    if chunks.len() > 0 {
        let rest = chunks.drop_last();
        lemma_content_absent(rest, index);
        lemma_choices_content_absent(chunks.last().choices, index);
    }
}

/// The text of a choice in two rows of chunks, one after the other, is its
/// text in the first and then its text in the second.
pub proof fn lemma_content_concat(first: Seq<ChunkView>, second: Seq<ChunkView>, index: usize)
    ensures
        content_of(first + second, index) == content_of(first, index) + content_of(second, index),
    decreases second.len(),
{
    if second.len() > 0 {
        let both = first + second;
        assert(both.drop_last() =~= first + second.drop_last());
        lemma_content_concat(first, second.drop_last(), index);
    }
}

/// A row of texts, one after the other.
pub open spec fn flattened(texts: Seq<Seq<char>>) -> Seq<char>
    decreases texts.len(),
{
    if texts.len() == 0 {
        Seq::empty()
    } else {
        flattened(texts.drop_last()) + texts.last()
    }
}

/// Whether every choice of a row is of index `index`.
pub open spec fn all_of_index(choices: Seq<ChoiceView>, index: usize) -> bool {
    forall|i: int| 0 <= i < choices.len() ==> (#[trigger] choices[i]).index == index
}

/// Where every choice of a row is of one index, what the row adds to the
/// choice of that index is all that it adds.
pub proof fn lemma_choices_of_one_index(choices: Seq<ChoiceView>, index: usize)
    requires
        all_of_index(choices, index),
    ensures
        choices_content(choices, index) == joined_content(choices),
    decreases choices.len(),
{
    if choices.len() > 0 {
        let rest = choices.drop_last();
        lemma_choices_of_one_index(rest, index);
    }
}

/// What is reported on the way is what is had in the end: where the answer
/// has one choice only, the texts of its chunks, one after the other, are
/// the text of that choice.
pub proof fn lemma_one_choice(chunks: Seq<ChunkView>, index: usize)
    requires
        forall|i: int| 0 <= i < chunks.len() ==> all_of_index((#[trigger] chunks[i]).choices, index),
    ensures
        content_of(chunks, index) == flattened(delta_texts(chunks)),
    decreases chunks.len(),
{
    if chunks.len() > 0 {
        let rest = chunks.drop_last();
        lemma_one_choice(rest, index);
        lemma_choices_of_one_index(chunks.last().choices, index);
        assert(delta_texts(chunks).drop_last() =~= delta_texts(rest));
    }
}

impl ChatCompletionsResponse {
    /// The text of the choice of index `index`: what the chunks add to that
    /// choice, in the order in which they came. It is empty where no chunk
    /// mentions the choice.
    pub fn content(&self, index: usize) -> (text: String)
        ensures
            text@ == content_of(self@.output, index),
            !mentions(self@.output, index) ==> text@ == Seq::<char>::empty(),
    {
        let mut text = String::new();
        let mut i: usize = 0;
        while i < self.output.len()
            invariant
                i <= self.output.len(),
                text@ == content_of(views(self.output@).take(i as int), index),
            decreases self.output.len() - i,
        {
            let chunk = &self.output[i];
            let ghost chunks_before = views(self.output@).take(i as int);
            let ghost chunks_after = views(self.output@).take(i + 1);
            assert(chunks_after.drop_last() =~= chunks_before);
            let ghost begun = text@;
            let mut j: usize = 0;
            while j < chunk.choices.len()
                invariant
                    j <= chunk.choices.len(),
                    text@ == begun + choices_content(views(chunk.choices@).take(j as int), index),
                decreases chunk.choices.len() - j,
            {
                let choice = &chunk.choices[j];
                let ghost before = views(chunk.choices@).take(j as int);
                let ghost after = views(chunk.choices@).take(j + 1);
                assert(after.drop_last() =~= before);
                match &choice.delta.content {
                    Some(content) => {
                        if choice.index == index {
                            text.append(content.as_str());
                        }
                    },
                    None => {},
                }
                j += 1;
            }
            assert(views(chunk.choices@).take(j as int) =~= views(chunk.choices@));
            i += 1;
        }
        assert(views(self.output@).take(i as int) =~= views(self.output@));
        proof {
            if !mentions(self@.output, index) {
                lemma_content_absent(self@.output, index);
            }
        }
        text
    }
}

} // verus!
