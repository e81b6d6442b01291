//! The streamed answer while it comes in: how its bytes are cut into lines,
//! which chunk a line stands for, and what has come so far.
//!
//! The body of a response arrives in segments of any size. A segment may end
//! in the middle of a line, and a line may span several segments, so the
//! bytes of the line that is not complete yet are kept from one segment to
//! the next. A line that stands for no chunk is passed over: nothing that a
//! line holds makes the reading fail.

use crate::chunk::chunk_of;
use crate::chunk::chunk_view;
use crate::chunk::ChunkView;
use crate::chunk::CompletionChunk;
use crate::chunk::delta_texts;
use crate::json::parse_json;
use crate::json::parsed_json;
use crate::model::views;
use crate::rate_limit::carried_metadata;
use crate::rate_limit::Header;
use crate::rate_limit::metadata_view;
use crate::rate_limit::RateLimitMetadata;
use crate::rate_limit::RateLimitMetadataView;
use crate::response::ChatCompletionsResponse;
use crate::response::ResponseView;
use crate::status::ApiError;
use crate::status::status_error;
use vstd::prelude::*;
use vstd::slice::slice_subrange;

verus! {

/// The byte that ends a line.
pub const LINE_FEED: u8 = 10;

/// The byte that may stand before the one that ends a line.
pub const CARRIAGE_RETURN: u8 = 13;

/// How many bytes stand before the first line feed of `bytes`; all of them,
/// where it holds none.
pub open spec fn line_length(bytes: Seq<u8>) -> nat
    decreases bytes.len(),
{
    if bytes.len() > 0 && bytes[0] != LINE_FEED {
        1 + line_length(bytes.drop_first())
    } else {
        0
    }
}

/// A line without the carriage return that it may end with.
pub open spec fn without_return(line: Seq<u8>) -> Seq<u8> {
    if line.len() > 0 && line.last() == CARRIAGE_RETURN {
        line.drop_last()
    } else {
        line
    }
}

/// The lines of `bytes` that are complete: each ends with a line feed, which
/// is no part of it, nor is a carriage return just before the line feed.
pub open spec fn complete_lines(bytes: Seq<u8>) -> Seq<Seq<u8>>
    decreases bytes.len(),
{
    let n = line_length(bytes) as int;
    if n < bytes.len() {
        seq![without_return(bytes.take(n))] + complete_lines(bytes.skip(n + 1))
    } else {
        Seq::empty()
    }
}

/// What follows the last line feed of `bytes`: the beginning of a line that
/// is not complete yet.
pub open spec fn pending_line(bytes: Seq<u8>) -> Seq<u8>
    decreases bytes.len(),
{
    let n = line_length(bytes) as int;
    if n < bytes.len() {
        pending_line(bytes.skip(n + 1))
    } else {
        bytes
    }
}

/// The line that is left when the stream ends: what is pending, if anything.
pub open spec fn last_lines(pending: Seq<u8>) -> Seq<Seq<u8>> {
    if pending.len() > 0 {
        seq![pending]
    } else {
        Seq::empty()
    }
}

/// The bytes that a line of data begins with: `data: `.
pub open spec fn data_prefix() -> Seq<u8> {
    seq![100u8, 97u8, 116u8, 97u8, 58u8, 32u8]
}

/// What a line of data holds after its prefix; none for any other line.
pub open spec fn payload_of(line: Seq<u8>) -> Option<Seq<u8>> {
    if line.len() >= 6 && line.take(6) == data_prefix() {
        Some(line.skip(6))
    } else {
        None
    }
}

/// The chunk that a line stands for: the line is a line of data, what it
/// holds is JSON, and the JSON stands for a chunk. Any other line stands for
/// nothing.
pub open spec fn line_chunk(line: Seq<u8>) -> Option<ChunkView> {
    match payload_of(line) {
        Some(payload) => match parsed_json(payload) {
            Some(json) => chunk_of(json),
            None => None,
        },
        None => None,
    }
}

/// The chunks that a row of lines stands for, in the order of the lines.
pub open spec fn decoded(lines: Seq<Seq<u8>>) -> Seq<ChunkView>
    decreases lines.len(),
{
    if lines.len() == 0 {
        Seq::empty()
    } else {
        match line_chunk(lines.last()) {
            Some(chunk) => decoded(lines.drop_last()).push(chunk),
            None => decoded(lines.drop_last()),
        }
    }
}

/// The bytes before the first line feed hold no line feed, and one follows
/// them unless they are all there is.
pub proof fn lemma_line_length(bytes: Seq<u8>)
    ensures
        line_length(bytes) <= bytes.len(),
        forall|i: int| 0 <= i < line_length(bytes) ==> #[trigger] bytes[i] != LINE_FEED,
        line_length(bytes) < bytes.len() ==> bytes[line_length(bytes) as int] == LINE_FEED,
    decreases bytes.len(),
{
    if bytes.len() > 0 && bytes[0] != LINE_FEED {
        let rest = bytes.drop_first();
        lemma_line_length(rest);
        assert forall|i: int| 0 <= i < line_length(bytes) implies #[trigger] bytes[i]
            != LINE_FEED by {
            if i > 0 {
                assert(bytes[i] == rest[i - 1]);
            }
        }
    }
}

/// A run of bytes without a line feed that a line feed follows, or nothing,
/// is what stands before the first line feed.
pub proof fn lemma_line_length_is(bytes: Seq<u8>, n: int)
    requires
        0 <= n <= bytes.len(),
        forall|i: int| 0 <= i < n ==> #[trigger] bytes[i] != LINE_FEED,
        n < bytes.len() ==> bytes[n] == LINE_FEED,
    ensures
        line_length(bytes) == n,
    decreases bytes.len(),
{
    if n > 0 {
        let rest = bytes.drop_first();
        lemma_line_length_is(rest, n - 1);
    }
}

/// The lines of two rows of bytes, one after the other: those of the first,
/// then those of what the first left pending followed by the second.
pub proof fn lemma_lines_of_concat(first: Seq<u8>, second: Seq<u8>)
    ensures
        complete_lines(first + second) == complete_lines(first) + complete_lines(
            pending_line(first) + second,
        ),
        pending_line(first + second) == pending_line(pending_line(first) + second),
    decreases first.len(),
{
    let n = line_length(first) as int;
    lemma_line_length(first);
    if n < first.len() {
        let both = first + second;
        lemma_line_length_is(both, n);
        assert(both.take(n) =~= first.take(n));
        assert(both.skip(n + 1) =~= first.skip(n + 1) + second);
        lemma_lines_of_concat(first.skip(n + 1), second);
    }
}

/// Whether `bytes` hold no line feed.
pub open spec fn is_unbroken(bytes: Seq<u8>) -> bool {
    forall|i: int| 0 <= i < bytes.len() ==> #[trigger] bytes[i] != LINE_FEED
}

/// Bytes that hold no line feed hold no complete line and are pending as
/// they are.
pub proof fn lemma_unbroken(bytes: Seq<u8>)
    requires
        is_unbroken(bytes),
    ensures
        complete_lines(bytes) == Seq::<Seq<u8>>::empty(),
        pending_line(bytes) == bytes,
{
    lemma_line_length_is(bytes, bytes.len() as int);
}

/// What is pending holds no line feed.
pub proof fn lemma_pending_is_unbroken(bytes: Seq<u8>)
    ensures
        is_unbroken(pending_line(bytes)),
    decreases bytes.len(),
{
    lemma_line_length(bytes);
    let n = line_length(bytes) as int;
    if n < bytes.len() {
        lemma_pending_is_unbroken(bytes.skip(n + 1));
    }
}

/// What one more byte does: a line feed completes the line that was pending,
/// and any other byte is added to it.
pub proof fn lemma_next_byte(bytes: Seq<u8>, next: u8)
    ensures
        next == LINE_FEED ==> complete_lines(bytes.push(next)) == complete_lines(bytes).push(
            without_return(pending_line(bytes)),
        ) && pending_line(bytes.push(next)) == Seq::<u8>::empty(),
        next != LINE_FEED ==> complete_lines(bytes.push(next)) == complete_lines(bytes)
            && pending_line(bytes.push(next)) == pending_line(bytes).push(next),
{
    let pending = pending_line(bytes);
    let grown = pending + seq![next];
    assert(bytes.push(next) =~= bytes + seq![next]);
    lemma_lines_of_concat(bytes, seq![next]);
    lemma_pending_is_unbroken(bytes);
    if next == LINE_FEED {
        lemma_line_length_is(grown, pending.len() as int);
        assert(grown.take(pending.len() as int) =~= pending);
        assert(grown.skip(pending.len() as int + 1) =~= Seq::<u8>::empty());
        lemma_unbroken(Seq::<u8>::empty());
    } else {
        lemma_unbroken(grown);
    }
}

/// The chunks of two rows of lines, one after the other, are the chunks of
/// the first and then those of the second.
pub proof fn lemma_decoded_concat(first: Seq<Seq<u8>>, second: Seq<Seq<u8>>)
    ensures
        decoded(first + second) == decoded(first) + decoded(second),
    decreases second.len(),
{
    if second.len() > 0 {
        let both = first + second;
        assert(both.drop_last() =~= first + second.drop_last());
        lemma_decoded_concat(first, second.drop_last());
    }
}

/// The texts of two rows of chunks, one after the other, are the texts of
/// the first and then those of the second.
pub proof fn lemma_delta_texts_concat(first: Seq<ChunkView>, second: Seq<ChunkView>)
    ensures
        delta_texts(first + second) == delta_texts(first) + delta_texts(second),
{
}

/// The chunk that `line` stands for, if it stands for one.
pub fn decode_line(line: &[u8]) -> (chunk: Option<CompletionChunk>)
    ensures
        chunk_view(chunk) == line_chunk(line@),
{
    if line.len() < 6 {
        return None;
    }
    if !(line[0] == 100 && line[1] == 97 && line[2] == 116 && line[3] == 97 && line[4] == 58
        && line[5] == 32) {
        return None;
    }
    assert(line@.take(6) =~= data_prefix());
    let payload = slice_subrange(line, 6, line.len());
    match parse_json(payload) {
        Some(value) => CompletionChunk::from_json(&value),
        None => None,
    }
}

/// The answer to a request that failed: the kind of failure, and the
/// rate-limit metadata of the response where it carries all of it.
#[derive(Debug, Clone, PartialEq, Eq)]
pub struct ApiFailure {
    pub error: ApiError,
    pub rate_limit_metadata: Option<RateLimitMetadata>,
}

/// A streamed answer while it is read: the chunks that its complete lines
/// stood for, and the bytes of the line that is not complete yet.
#[derive(Debug, PartialEq, Eq)]
pub struct ChatCompletionsStream {
    rate_limit_metadata: Option<RateLimitMetadata>,
    buffer: Vec<u8>,
    output: Vec<CompletionChunk>,
}

/// A [`ChatCompletionsStream`] as contracts see it.
pub struct StreamView {
    pub rate_limit_metadata: Option<RateLimitMetadataView>,
    /// The bytes since the last line feed.
    pub pending: Seq<u8>,
    /// The chunks so far, in the order in which they came.
    pub chunks: Seq<ChunkView>,
}

impl StreamView {
    /// Whether the stream is as a stream can be: what is pending holds no
    /// line feed.
    pub open spec fn well_formed(self) -> bool {
        is_unbroken(self.pending)
    }

    /// The lines that become complete when `segment` arrives.
    pub open spec fn lines_with(self, segment: Seq<u8>) -> Seq<Seq<u8>> {
        complete_lines(self.pending + segment)
    }

    /// The stream after `segment` has arrived.
    pub open spec fn fed(self, segment: Seq<u8>) -> StreamView {
        StreamView {
            rate_limit_metadata: self.rate_limit_metadata,
            pending: pending_line(self.pending + segment),
            chunks: self.chunks + decoded(self.lines_with(segment)),
        }
    }

    /// The answer once the stream has ended: what is pending counts as the
    /// last line.
    pub open spec fn finished(self) -> ResponseView {
        ResponseView {
            rate_limit_metadata: self.rate_limit_metadata,
            output: self.chunks + decoded(last_lines(self.pending)),
        }
    }
}

impl View for ChatCompletionsStream {
    type V = StreamView;

    closed spec fn view(&self) -> StreamView {
        StreamView {
            rate_limit_metadata: metadata_view(self.rate_limit_metadata),
            pending: self.buffer@,
            chunks: views(self.output@),
        }
    }
}

/// A line without the carriage return that it may end with.
fn strip_return(line: &[u8]) -> (stripped: &[u8])
    ensures
        stripped@ == without_return(line@),
{
    let n = line.len();
    if n > 0 && line[n - 1] == CARRIAGE_RETURN {
        let stripped = slice_subrange(line, 0, n - 1);
        stripped
    } else {
        line
    }
}

impl ChatCompletionsStream {
    /// The bytes that are kept from one segment to the next hold no line
    /// feed: a line is decoded as soon as it is complete.
    #[verifier::type_invariant]
    spec fn buffer_is_unbroken(self) -> bool {
        is_unbroken(self.buffer@)
    }

    /// A stream of which nothing has arrived yet, for a response without
    /// rate-limit metadata.
    pub fn new() -> (stream: ChatCompletionsStream)
        ensures
            stream@ == (StreamView {
                rate_limit_metadata: None,
                pending: Seq::empty(),
                chunks: Seq::empty(),
            }),
            stream@.well_formed(),
    {
        let stream = ChatCompletionsStream {
            rate_limit_metadata: None,
            buffer: Vec::new(),
            output: Vec::new(),
        };
        assert(views(stream.output@) =~= Seq::<ChunkView>::empty());
        stream
    }

    /// Decides, from the status and the headers of a response, how the call
    /// goes on. A status that reports no success ends it with the error of
    /// that status, and the body is not read. Otherwise the body is read as
    /// a stream, of which nothing has arrived yet. Either way the rate-limit
    /// metadata goes along, where the headers carry all of it.
    pub fn open(status: u16, headers: &Vec<Header>) -> (opened: Result<
        ChatCompletionsStream,
        ApiFailure,
    >)
        ensures
            match opened {
                Ok(stream) => status_error(status) is None && stream@.well_formed() && stream@
                    == (StreamView {
                    rate_limit_metadata: carried_metadata(views(headers@)),
                    pending: Seq::empty(),
                    chunks: Seq::empty(),
                }),
                Err(failure) => status_error(status) == Some(failure.error) && metadata_view(
                    failure.rate_limit_metadata,
                ) == carried_metadata(views(headers@)),
            },
    {
        let rate_limit_metadata = RateLimitMetadata::extract(headers);
        match ApiError::from_code(status) {
            Some(error) => Err(ApiFailure { error, rate_limit_metadata }),
            None => {
                let stream = ChatCompletionsStream {
                    rate_limit_metadata,
                    buffer: Vec::new(),
                    output: Vec::new(),
                };
                assert(views(stream.output@) =~= Seq::<ChunkView>::empty());
                Ok(stream)
            },
        }
    }

    /// Takes in the next segment of the body. Every line that the segment
    /// completes is decoded, and the chunks that the lines stand for are
    /// added. For each of these chunks, and in their order, the text that
    /// the chunk adds is returned: it is what the caller reports as it
    /// arrives. A line that stands for no chunk is passed over.
    pub fn push_segment(&mut self, segment: &[u8]) -> (deltas: Vec<String>)
        ensures
            final(self)@.well_formed(),
            final(self)@ == old(self)@.fed(segment@),
            views(deltas@) == delta_texts(decoded(old(self)@.lines_with(segment@))),
    {
        let ghost before = self@;
        proof {
            use_type_invariant(&*self);
        }
        let mut buffer: Vec<u8> = Vec::new();
        let mut output: Vec<CompletionChunk> = Vec::new();
        core::mem::swap(&mut buffer, &mut self.buffer);
        core::mem::swap(&mut output, &mut self.output);
        let mut deltas: Vec<String> = Vec::new();
        let mut i: usize = 0;
        proof {
            lemma_unbroken(before.pending);
        }
        while i < segment.len()
            invariant
                i <= segment.len(),
                is_unbroken(buffer@),
                buffer@ == pending_line(before.pending + segment@.take(i as int)),
                views(output@) == before.chunks + decoded(
                    complete_lines(before.pending + segment@.take(i as int)),
                ),
                views(deltas@) == delta_texts(
                    decoded(complete_lines(before.pending + segment@.take(i as int))),
                ),
            decreases segment.len() - i,
        {
            let next = segment[i];
            let ghost so_far = before.pending + segment@.take(i as int);
            proof {
                lemma_next_byte(so_far, next);
                assert(so_far.push(next) =~= before.pending + segment@.take(i + 1));
            }
            if next == LINE_FEED {
                let ghost line = without_return(buffer@);
                let ghost done = complete_lines(so_far);
                proof {
                    assert(done.push(line).drop_last() =~= done);
                }
                match decode_line(strip_return(buffer.as_slice())) {
                    Some(chunk) => {
                        let ghost old_output = views(output@);
                        let ghost old_deltas = views(deltas@);
                        let text = chunk.delta();
                        deltas.push(text);
                        output.push(chunk);
                        proof {
                            assert(views(output@) =~= old_output.push(chunk@));
                            assert(views(deltas@) =~= old_deltas.push(text@));
                        }
                    },
                    None => {},
                }
                buffer.clear();
            } else {
                buffer.push(next);
            }
            i += 1;
        }
        assert(segment@.take(i as int) =~= segment@);
        self.buffer = buffer;
        self.output = output;
        deltas
    }

    /// Ends the stream. What is pending counts as the last line; the text
    /// that its chunk adds, if it stands for one, is returned beside the
    /// whole answer.
    pub fn finish(self) -> (ended: (ChatCompletionsResponse, Vec<String>))
        ensures
            ended.0@ == self@.finished(),
            views(ended.1@) == delta_texts(decoded(last_lines(self@.pending))),
    {
        let mut output = self.output;
        let mut deltas: Vec<String> = Vec::new();
        let ghost chunks = views(output@);
        let ghost lines = last_lines(self.buffer@);
        proof {
            assert(decoded(Seq::<Seq<u8>>::empty()) =~= Seq::<ChunkView>::empty());
        }
        if self.buffer.len() > 0 {
            assert(lines.drop_last() =~= Seq::<Seq<u8>>::empty());
            match decode_line(self.buffer.as_slice()) {
                Some(chunk) => {
                    let text = chunk.delta();
                    deltas.push(text);
                    output.push(chunk);
                    proof {
                        assert(views(output@) =~= chunks + decoded(lines));
                    }
                },
                None => {},
            }
        }
        (ChatCompletionsResponse { rate_limit_metadata: self.rate_limit_metadata, output }, deltas)
    }

    /// How many chunks have come so far.
    pub fn chunk_count(&self) -> (count: usize)
        ensures
            count == self@.chunks.len(),
    {
        self.output.len()
    }

    /// How many bytes are pending.
    pub fn pending_len(&self) -> (count: usize)
        ensures
            count == self@.pending.len(),
    {
        self.buffer.len()
    }
}

/// However the bytes of a body are cut into segments, the stream ends up the
/// same, and the same texts are reported on the way: to take in two segments
/// one after the other is to take in the two as one.
pub proof fn lemma_segments_join(stream: StreamView, first: Seq<u8>, second: Seq<u8>)
    ensures
        stream.fed(first).fed(second) == stream.fed(first + second),
        delta_texts(decoded(stream.lines_with(first))) + delta_texts(
            decoded(stream.fed(first).lines_with(second)),
        ) == delta_texts(decoded(stream.lines_with(first + second))),
{
    let begun = stream.pending + first;
    assert(stream.pending + (first + second) =~= begun + second);
    lemma_lines_of_concat(begun, second);
    lemma_decoded_concat(complete_lines(begun), complete_lines(pending_line(begun) + second));
    lemma_delta_texts_concat(
        decoded(complete_lines(begun)),
        decoded(complete_lines(pending_line(begun) + second)),
    );
    assert(stream.chunks + (decoded(complete_lines(begun)) + decoded(
        complete_lines(pending_line(begun) + second),
    )) =~= (stream.chunks + decoded(complete_lines(begun))) + decoded(
        complete_lines(pending_line(begun) + second),
    ));
}

/// The stream after a row of segments has arrived, one after the other.
pub open spec fn fed_all(stream: StreamView, segments: Seq<Seq<u8>>) -> StreamView
    decreases segments.len(),
{
    if segments.len() == 0 {
        stream
    } else {
        fed_all(stream, segments.drop_last()).fed(segments.last())
    }
}

/// The bytes of a row of segments, one after the other.
pub open spec fn all_bytes(segments: Seq<Seq<u8>>) -> Seq<u8>
    decreases segments.len(),
{
    if segments.len() == 0 {
        Seq::empty()
    } else {
        all_bytes(segments.drop_last()) + segments.last()
    }
}

/// The cuts do not matter: a stream that has taken in a row of segments is
/// the stream that has taken in all their bytes at once.
pub proof fn lemma_any_segmentation(stream: StreamView, segments: Seq<Seq<u8>>)
    requires
        stream.well_formed(),
    ensures
        fed_all(stream, segments) == stream.fed(all_bytes(segments)),
    decreases segments.len(),
{
    if segments.len() == 0 {
        lemma_unbroken(stream.pending);
    } else {
        lemma_any_segmentation(stream, segments.drop_last());
        lemma_segments_join(stream, all_bytes(segments.drop_last()), segments.last());
    }
}

/// The texts that are reported while a row of segments arrives, one segment
/// after the other.
pub open spec fn reported_all(stream: StreamView, segments: Seq<Seq<u8>>) -> Seq<Seq<char>>
    decreases segments.len(),
{
    if segments.len() == 0 {
        Seq::empty()
    } else {
        reported_all(stream, segments.drop_last()) + delta_texts(
            decoded(fed_all(stream, segments.drop_last()).lines_with(segments.last())),
        )
    }
}

/// The cuts do not matter to what is reported either: the texts reported
/// while a row of segments arrives are those reported when all their bytes
/// arrive at once.
pub proof fn lemma_reported_whatever_the_cuts(stream: StreamView, segments: Seq<Seq<u8>>)
    requires
        stream.well_formed(),
    ensures
        reported_all(stream, segments) == delta_texts(
            decoded(stream.lines_with(all_bytes(segments))),
        ),
    decreases segments.len(),
{
    if segments.len() == 0 {
        lemma_unbroken(stream.pending);
    } else {
        let before = segments.drop_last();
        lemma_reported_whatever_the_cuts(stream, before);
        lemma_any_segmentation(stream, before);
        lemma_segments_join(stream, all_bytes(before), segments.last());
    }
}

/// The answer to a body that came whole and without fault is made of the
/// chunks of its lines, in their order; the last line need not end with a
/// line feed.
pub proof fn lemma_whole_body(body: Seq<u8>)
    ensures
        ({
            let start = StreamView {
                rate_limit_metadata: None,
                pending: Seq::empty(),
                chunks: Seq::empty(),
            };
            start.fed(body).finished().output == decoded(
                complete_lines(body) + last_lines(pending_line(body)),
            )
        }),
{
    lemma_decoded_concat(complete_lines(body), last_lines(pending_line(body)));
}

/// A line that stands for no chunk changes nothing: the lines around it
/// stand for the same chunks with it and without it.
pub proof fn lemma_undecodable_line(before: Seq<Seq<u8>>, line: Seq<u8>, after: Seq<Seq<u8>>)
    requires
        line_chunk(line) is None,
    ensures
        decoded(before + seq![line] + after) == decoded(before + after),
{
    lemma_decoded_concat(before + seq![line], after);
    lemma_decoded_concat(before, seq![line]);
    lemma_decoded_concat(before, after);
    assert(seq![line].drop_last() =~= Seq::<Seq<u8>>::empty());
    assert(decoded(Seq::<Seq<u8>>::empty()) =~= Seq::<ChunkView>::empty());
}

/// A line that is no line of data stands for no chunk.
pub proof fn lemma_other_line(line: Seq<u8>)
    requires
        payload_of(line) is None,
    ensures
        line_chunk(line) is None,
{
}

} // verus!
