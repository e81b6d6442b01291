//! Chunks, the pieces of a streamed answer, and how they are read from
//! JSON.

use crate::json::as_array;
use crate::json::as_i64;
use crate::json::as_text;
use crate::json::as_u64;
use crate::json::get_member;
use crate::json::integer;
use crate::json::is_null;
use crate::json::is_object;
use crate::json::Json;
use crate::json::json_of;
use crate::json::jsons_of;
use crate::json::member;
use crate::model::text_view;
use crate::model::views;
use vstd::prelude::*;
use vstd::string::StringExecFns;

verus! {

/// The piece of text that a chunk adds to one choice.
#[derive(Debug, Clone, PartialEq, Eq)]
pub struct ChatResponseDelta {
    pub content: Option<String>,
}

/// A [`ChatResponseDelta`] as contracts see it.
pub struct DeltaView {
    pub content: Option<Seq<char>>,
}

impl View for ChatResponseDelta {
    type V = DeltaView;

    open spec fn view(&self) -> DeltaView {
        DeltaView { content: text_view(self.content) }
    }
}

/// What a chunk holds for one of the answers that are generated side by side.
#[derive(Debug, Clone, PartialEq, Eq)]
pub struct ChatResponseChoice {
    /// Which of the answers this is.
    pub index: usize,
    pub delta: ChatResponseDelta,
    pub finish_reason: Option<String>,
}

/// A [`ChatResponseChoice`] as contracts see it.
pub struct ChoiceView {
    pub index: usize,
    pub delta: DeltaView,
    pub finish_reason: Option<Seq<char>>,
}

impl View for ChatResponseChoice {
    type V = ChoiceView;

    open spec fn view(&self) -> ChoiceView {
        ChoiceView {
            index: self.index,
            delta: self.delta@,
            finish_reason: text_view(self.finish_reason),
        }
    }
}

/// One piece of a streamed answer.
#[derive(Debug, Clone, PartialEq, Eq)]
pub struct CompletionChunk {
    pub id: String,
    pub choices: Vec<ChatResponseChoice>,
    /// When the answer was created, in seconds since the epoch.
    pub created: i64,
    pub model: String,
    pub system_fingerprint: Option<String>,
    pub object: String,
}

/// A [`CompletionChunk`] as contracts see it.
pub struct ChunkView {
    pub id: Seq<char>,
    pub choices: Seq<ChoiceView>,
    pub created: i64,
    pub model: Seq<char>,
    pub system_fingerprint: Option<Seq<char>>,
    pub object: Seq<char>,
}

impl View for CompletionChunk {
    type V = ChunkView;

    open spec fn view(&self) -> ChunkView {
        ChunkView {
            id: self.id@,
            choices: views(self.choices@),
            created: self.created,
            model: self.model@,
            system_fingerprint: text_view(self.system_fingerprint),
            object: self.object@,
        }
    }
}

/// The text that the member `key` of an object must hold.
pub open spec fn required_text(json: Json, key: Seq<char>) -> Option<Seq<char>> {
    match member(json, key) {
        Some(Json::Text(text)) => Some(text),
        _ => None,
    }
}

/// The text that the member `key` of an object may hold: the member may be
/// left out or be `null`. The outer `None` says that it holds something else.
pub open spec fn optional_text(json: Json, key: Seq<char>) -> Option<Option<Seq<char>>> {
    match member(json, key) {
        None => Some(None),
        Some(Json::Null) => Some(None),
        Some(Json::Text(text)) => Some(Some(text)),
        Some(_) => None,
    }
}

/// The delta that a JSON value stands for: an object whose member `content`,
/// if it has one, is a text or `null`.
pub open spec fn delta_of(json: Json) -> Option<DeltaView> {
    if json is Object {
        match optional_text(json, "content"@) {
            Some(content) => Some(DeltaView { content }),
            None => None,
        }
    } else {
        None
    }
}

/// The index that a JSON value stands for: an integer that is not negative
/// and that a `usize` can hold.
pub open spec fn index_of(json: Json) -> Option<usize> {
    match integer(json) {
        Some(n) => if 0 <= n <= usize::MAX {
            Some(n as usize)
        } else {
            None
        },
        None => None,
    }
}

/// The time that a JSON value stands for: an integer that an `i64` can hold.
pub open spec fn time_of(json: Json) -> Option<i64> {
    match integer(json) {
        Some(n) => if i64::MIN <= n <= i64::MAX {
            Some(n as i64)
        } else {
            None
        },
        None => None,
    }
}

/// The choice that a JSON value stands for: an object with an index, a delta
/// and, if it has one, a reason for finishing.
pub open spec fn choice_of(json: Json) -> Option<ChoiceView> {
    match (member(json, "index"@), member(json, "delta"@), optional_text(json, "finish_reason"@)) {
        (Some(index), Some(delta), Some(finish_reason)) => match (index_of(index), delta_of(delta)) {
            (Some(index), Some(delta)) => Some(ChoiceView { index, delta, finish_reason }),
            _ => None,
        },
        _ => None,
    }
}

/// The choices that a row of JSON values stands for: every one of them must
/// stand for a choice.
pub open spec fn choices_of(items: Seq<Json>) -> Option<Seq<ChoiceView>>
    decreases items.len(),
{
    if items.len() == 0 {
        Some(Seq::empty())
    } else {
        match (choices_of(items.drop_last()), choice_of(items.last())) {
            (Some(before), Some(last)) => Some(before.push(last)),
            _ => None,
        }
    }
}

/// The choices that the member `choices` of an object holds.
pub open spec fn required_choices(json: Json) -> Option<Seq<ChoiceView>> {
    match member(json, "choices"@) {
        Some(Json::Array(items)) => choices_of(items),
        _ => None,
    }
}

/// The time that the member `created` of an object holds.
pub open spec fn required_time(json: Json) -> Option<i64> {
    match member(json, "created"@) {
        Some(time) => time_of(time),
        None => None,
    }
}

/// The chunk that a JSON value stands for: an object that holds an `id`, the
/// `choices`, the time `created`, the `model`, the kind of `object`, and, if
/// it has one, a `system_fingerprint`. Members of other names do not matter.
pub open spec fn chunk_of(json: Json) -> Option<ChunkView> {
    match (
        required_text(json, "id"@),
        required_choices(json),
        required_time(json),
        required_text(json, "model"@),
        optional_text(json, "system_fingerprint"@),
        required_text(json, "object"@),
    ) {
        (
            Some(id),
            Some(choices),
            Some(created),
            Some(model),
            Some(system_fingerprint),
            Some(object),
        ) => Some(ChunkView { id, choices, created, model, system_fingerprint, object }),
        _ => None,
    }
}

/// The view of a chunk that may be absent.
pub open spec fn chunk_view(chunk: Option<CompletionChunk>) -> Option<ChunkView> {
    match chunk {
        Some(c) => Some(c@),
        None => None,
    }
}

/// Reads the text that the member `key` must hold.
fn read_required_text(value: &serde_json::Value, key: &str) -> (text: Option<String>)
    ensures
        text_view(text) == required_text(json_of(*value), key@),
{
    match get_member(value, key) {
        Some(held) => match as_text(held) {
            Some(text) => Some(text.to_owned()),
            None => None,
        },
        None => None,
    }
}

/// Reads the text that the member `key` may hold. The outer `None` says that
/// the member holds something else.
fn read_optional_text(value: &serde_json::Value, key: &str) -> (text: Option<Option<String>>)
    ensures
        match text {
            Some(t) => optional_text(json_of(*value), key@) == Some(text_view(t)),
            None => optional_text(json_of(*value), key@) is None,
        },
{
    match get_member(value, key) {
        None => Some(None),
        Some(held) => {
            if is_null(held) {
                Some(None)
            } else {
                match as_text(held) {
                    Some(text) => Some(Some(text.to_owned())),
                    None => None,
                }
            }
        },
    }
}

impl ChatResponseDelta {
    /// The delta that `value` stands for, if it stands for one.
    pub fn from_json(value: &serde_json::Value) -> (delta: Option<ChatResponseDelta>)
        ensures
            match delta {
                Some(d) => delta_of(json_of(*value)) == Some(d@),
                None => delta_of(json_of(*value)) is None,
            },
    {
        if !is_object(value) {
            return None;
        }
        match read_optional_text(value, "content") {
            Some(content) => Some(ChatResponseDelta { content }),
            None => None,
        }
    }
}

impl ChatResponseChoice {
    /// The choice that `value` stands for, if it stands for one.
    pub fn from_json(value: &serde_json::Value) -> (choice: Option<ChatResponseChoice>)
        ensures
            match choice {
                Some(c) => choice_of(json_of(*value)) == Some(c@),
                None => choice_of(json_of(*value)) is None,
            },
    {
        let index = match get_member(value, "index") {
            Some(held) => match as_u64(held) {
                Some(n) => {
                    if n > usize::MAX as u64 {
                        return None;
                    }
                    n as usize
                },
                None => {
                    return None;
                },
            },
            None => {
                return None;
            },
        };
        let delta = match get_member(value, "delta") {
            Some(held) => match ChatResponseDelta::from_json(held) {
                Some(delta) => delta,
                None => {
                    return None;
                },
            },
            None => {
                return None;
            },
        };
        match read_optional_text(value, "finish_reason") {
            Some(finish_reason) => Some(ChatResponseChoice { index, delta, finish_reason }),
            None => None,
        }
    }
}

/// Reads the choices that a row of values stands for.
fn read_choices(items: &Vec<serde_json::Value>) -> (choices: Option<Vec<ChatResponseChoice>>)
    ensures
        match choices {
            Some(c) => choices_of(jsons_of(items@)) == Some(views(c@)),
            None => choices_of(jsons_of(items@)) is None,
        },
{
    let mut choices: Vec<ChatResponseChoice> = Vec::new();
    let mut i: usize = 0;
    while i < items.len()
        invariant
            i <= items.len(),
            choices_of(jsons_of(items@).take(i as int)) == Some(views(choices@)),
        decreases items.len() - i,
    {
        let ghost before = jsons_of(items@).take(i as int);
        let ghost after = jsons_of(items@).take(i + 1);
        assert(after.drop_last() =~= before);
        match ChatResponseChoice::from_json(&items[i]) {
            Some(choice) => {
                choices.push(choice);
            },
            None => {
                proof {
                    lemma_choices_fail(jsons_of(items@), i as int);
                }
                return None;
            },
        }
        i += 1;
    }
    assert(jsons_of(items@).take(i as int) =~= jsons_of(items@));
    Some(choices)
}

/// Where one item of a row stands for no choice, the row stands for no
/// choices.
pub proof fn lemma_choices_fail(items: Seq<Json>, at: int)
    requires
        0 <= at < items.len(),
        choice_of(items[at]) is None,
    ensures
        choices_of(items) is None,
    decreases items.len(),
{
    if at < items.len() - 1 {
        lemma_choices_fail(items.drop_last(), at);
    }
}

impl CompletionChunk {
    /// The chunk that `value` stands for, if it stands for one.
    pub fn from_json(value: &serde_json::Value) -> (chunk: Option<CompletionChunk>)
        ensures
            chunk_view(chunk) == chunk_of(json_of(*value)),
    {
        let id = match read_required_text(value, "id") {
            Some(text) => text,
            None => {
                return None;
            },
        };
        let choices = match get_member(value, "choices") {
            Some(held) => match as_array(held) {
                Some(items) => match read_choices(items) {
                    Some(choices) => choices,
                    None => {
                        return None;
                    },
                },
                None => {
                    return None;
                },
            },
            None => {
                return None;
            },
        };
        let created = match get_member(value, "created") {
            Some(held) => match as_i64(held) {
                Some(time) => time,
                None => {
                    return None;
                },
            },
            None => {
                return None;
            },
        };
        let model = match read_required_text(value, "model") {
            Some(text) => text,
            None => {
                return None;
            },
        };
        let system_fingerprint = match read_optional_text(value, "system_fingerprint") {
            Some(text) => text,
            None => {
                return None;
            },
        };
        let object = match read_required_text(value, "object") {
            Some(text) => text,
            None => {
                return None;
            },
        };
        Some(CompletionChunk { id, choices, created, model, system_fingerprint, object })
    }
}

/// The text that a row of choices adds: the contents of their deltas, one
/// after the other, whatever the index of each choice.
pub open spec fn joined_content(choices: Seq<ChoiceView>) -> Seq<char>
    decreases choices.len(),
{
    if choices.len() == 0 {
        Seq::empty()
    } else {
        joined_content(choices.drop_last()) + match choices.last().delta.content {
            Some(text) => text,
            None => Seq::empty(),
        }
    }
}

/// For each chunk of a row, the text that its choices add.
pub open spec fn delta_texts(chunks: Seq<ChunkView>) -> Seq<Seq<char>> {
    Seq::new(chunks.len(), |i: int| joined_content(chunks[i].choices))
}

impl CompletionChunk {
    /// The text that the chunk adds, over all its choices.
    pub fn delta(&self) -> (text: String)
        ensures
            text@ == joined_content(self@.choices),
    {
        let mut text = String::new();
        let mut i: usize = 0;
        while i < self.choices.len()
            invariant
                i <= self.choices.len(),
                text@ == joined_content(views(self.choices@).take(i as int)),
            decreases self.choices.len() - i,
        {
            let ghost before = views(self.choices@).take(i as int);
            let ghost after = views(self.choices@).take(i + 1);
            assert(after.drop_last() =~= before);
            match &self.choices[i].delta.content {
                Some(content) => {
                    text.append(content.as_str());
                },
                None => {},
            }
            i += 1;
        }
        assert(views(self.choices@).take(i as int) =~= views(self.choices@));
        text
    }
}

} // verus!
