//! Server-sent event decoding for OpenAI-compatible streams.
use std::collections::{BTreeMap, VecDeque};
use vstd::prelude::*;

use super::super::event::{
    coded_error, ChatEvent, ChatEventView, ModelError, ModelErrorView, ModelResult,
};
use super::super::response::FinishReason;
use super::wire::{
    decode_finish_reason, decode_usage, find_choice, first_choice, number_at, object_at,
    object_field, optional_u64, provider_reason, provider_usage, text_at, text_field,
};
use crate::json::{field, json_views, lookup, parsed_json, Json, JsonMap, JsonView};
use crate::message::{generate_id, is_generated_id};
use crate::text::{
    concat2, decode_text, join, joined, lines, lines_of, same_text, strip_prefix, text_option,
    texts, trim_start, trim_start_text, utf8_fault, without_prefix,
};
use crate::view::view_option;

verus! {

broadcast use {vstd::std_specs::btree::group_btree_axioms, vstd::laws_cmp::group_laws_cmp};

/// The failure for a stream that does not have the expected form.
pub open spec fn invalid_stream_error(message: Seq<char>) -> ModelErrorView {
    coded_error(message, "invalid_stream"@)
}

/// A failure for a stream that does not have the expected form.
pub fn invalid_stream(message: &str) -> (error: ModelError)
    ensures
        error@ == invalid_stream_error(message@),
{
    ModelError::new(message).with_code("invalid_stream")
}

/// Whether a pattern stands at a position.
pub open spec fn stands_at(bytes: Seq<u8>, pattern: Seq<u8>, position: int) -> bool {
    &&& 0 <= position
    &&& position + pattern.len() <= bytes.len()
    &&& bytes.subrange(position, position + pattern.len()) == pattern
}

/// The first position at or after `start` where a pattern stands.
pub open spec fn pattern_from(bytes: Seq<u8>, pattern: Seq<u8>, start: int) -> Option<int>
    decreases bytes.len() + 1 - start,
{
    if start < 0 || start + pattern.len() > bytes.len() {
        None
    } else if stands_at(bytes, pattern, start) {
        Some(start)
    } else {
        pattern_from(bytes, pattern, start + 1)
    }
}

/// Two line ends of carriage return and line feed.
pub open spec fn crlf_delimiter() -> Seq<u8> {
    seq![13u8, 10u8, 13u8, 10u8]
}

/// Two line feeds.
pub open spec fn lf_delimiter() -> Seq<u8> {
    seq![10u8, 10u8]
}

/// The position and the length of the delimiter that comes first.
pub open spec fn delimiter(bytes: Seq<u8>) -> Option<(int, int)> {
    match (
        pattern_from(bytes, crlf_delimiter(), 0),
        pattern_from(bytes, lf_delimiter(), 0),
    ) {
        (Some(crlf), Some(lf)) => if crlf <= lf {
            Some((crlf, 4))
        } else {
            Some((lf, 2))
        },
        (Some(crlf), None) => Some((crlf, 4)),
        (None, Some(lf)) => Some((lf, 2)),
        (None, None) => None,
    }
}

/// The first frame in a buffer and the bytes behind its delimiter.
pub open spec fn first_frame(bytes: Seq<u8>) -> Option<(Seq<u8>, Seq<u8>)> {
    match delimiter(bytes) {
        Some((position, length)) => Some(
            (
                bytes.subrange(0, position),
                bytes.subrange(position + length, bytes.len() as int),
            ),
        ),
        None => None,
    }
}

/// A pattern found is the first one.
pub proof fn lemma_pattern_from(bytes: Seq<u8>, pattern: Seq<u8>, start: int)
    requires
        0 <= start,
    ensures
        match pattern_from(bytes, pattern, start) {
            Some(found) => start <= found && stands_at(bytes, pattern, found) && forall|j: int|
                start <= j < found ==> !#[trigger] stands_at(bytes, pattern, j),
            None => forall|j: int| start <= j ==> !#[trigger] stands_at(bytes, pattern, j),
        },
    decreases bytes.len() + 1 - start,
{
    if start + pattern.len() <= bytes.len() && !stands_at(bytes, pattern, start) {
        lemma_pattern_from(bytes, pattern, start + 1);
    }
}

/// The first place where a pattern stands, as a loop finds it.
proof fn lemma_pattern_from_is(bytes: Seq<u8>, pattern: Seq<u8>, start: int, found: int)
    requires
        0 <= start <= found,
        stands_at(bytes, pattern, found) || found + pattern.len() > bytes.len(),
        forall|j: int| start <= j < found ==> !#[trigger] stands_at(bytes, pattern, j),
    ensures
        pattern_from(bytes, pattern, start) == if found + pattern.len() <= bytes.len() {
            Some(found)
        } else {
            None
        },
    decreases found - start,
{
    if start < found {
        assert(!stands_at(bytes, pattern, start));
        lemma_pattern_from_is(bytes, pattern, start + 1, found);
    }
}

fn find_crlf(buffer: &Vec<u8>) -> (position: Option<usize>)
    ensures
        match position {
            Some(found) => pattern_from(buffer@, crlf_delimiter(), 0) == Some(found as int),
            None => pattern_from(buffer@, crlf_delimiter(), 0) is None,
        },
{
    let mut i: usize = 0;
    while i < buffer.len() && buffer.len() - i >= 4
        invariant
            i <= buffer@.len(),
            forall|j: int| 0 <= j < i ==> !#[trigger] stands_at(buffer@, crlf_delimiter(), j),
        decreases buffer@.len() - i,
    {
        let ghost window = buffer@.subrange(i as int, i + 4);
        if buffer[i] == 13 && buffer[i + 1] == 10 && buffer[i + 2] == 13 && buffer[i + 3] == 10 {
            proof {
                assert(window =~= crlf_delimiter());
                lemma_pattern_from_is(buffer@, crlf_delimiter(), 0, i as int);
            }
            return Some(i);
        }
        assert(window[0] == buffer@[i as int] && window[1] == buffer@[i + 1] && window[2] == buffer@[i
            + 2] && window[3] == buffer@[i + 3]);
        i += 1;
    }
    proof {
        assert(crlf_delimiter().len() == 4);
        lemma_pattern_from_is(buffer@, crlf_delimiter(), 0, i as int);
    }
    None
}

fn find_lf(buffer: &Vec<u8>) -> (position: Option<usize>)
    ensures
        match position {
            Some(found) => pattern_from(buffer@, lf_delimiter(), 0) == Some(found as int),
            None => pattern_from(buffer@, lf_delimiter(), 0) is None,
        },
{
    let mut i: usize = 0;
    while i < buffer.len() && buffer.len() - i >= 2
        invariant
            i <= buffer@.len(),
            forall|j: int| 0 <= j < i ==> !#[trigger] stands_at(buffer@, lf_delimiter(), j),
        decreases buffer@.len() - i,
    {
        let ghost window = buffer@.subrange(i as int, i + 2);
        if buffer[i] == 10 && buffer[i + 1] == 10 {
            proof {
                assert(window =~= lf_delimiter());
                lemma_pattern_from_is(buffer@, lf_delimiter(), 0, i as int);
            }
            return Some(i);
        }
        assert(window[0] == buffer@[i as int] && window[1] == buffer@[i + 1]);
        i += 1;
    }
    proof {
        assert(lf_delimiter().len() == 2);
        lemma_pattern_from_is(buffer@, lf_delimiter(), 0, i as int);
    }
    None
}

/// The position and the length of the delimiter that comes first.
pub fn find_delimiter(buffer: &Vec<u8>) -> (found: Option<(usize, usize)>)
    ensures
        match found {
            Some((position, length)) => delimiter(buffer@) == Some((position as int, length as int))
                && position + length <= buffer@.len() && length >= 2,
            None => delimiter(buffer@) is None,
        },
{
    let crlf = find_crlf(buffer);
    let lf = find_lf(buffer);
    proof {
        lemma_pattern_from(buffer@, crlf_delimiter(), 0);
        lemma_pattern_from(buffer@, lf_delimiter(), 0);
    }
    match (crlf, lf) {
        (Some(crlf), Some(lf)) => if crlf <= lf {
            Some((crlf, 4))
        } else {
            Some((lf, 2))
        },
        (Some(crlf), None) => Some((crlf, 4)),
        (None, Some(lf)) => Some((lf, 2)),
        (None, None) => None,
    }
}

/// Takes the first frame out of a buffer, with its delimiter.
pub fn take_frame(buffer: &mut Vec<u8>) -> (frame: Option<Vec<u8>>)
    ensures
        match frame {
            Some(taken) => first_frame(old(buffer)@) == Some((taken@, final(buffer)@))
                && final(buffer)@.len() < old(buffer)@.len(),
            None => first_frame(old(buffer)@) is None && final(buffer)@ == old(buffer)@,
        },
{
    match find_delimiter(buffer) {
        None => None,
        Some((position, length)) => {
            let ghost before = buffer@;
            assert(position + length <= buffer.len());
            let mut rest = buffer.split_off(position + length);
            buffer.truncate(position);
            std::mem::swap(buffer, &mut rest);
            proof {
                assert(rest@ =~= before.subrange(0, position as int));
                assert(buffer@ =~= before.subrange(position + length, before.len() as int));
            }
            Some(rest)
        },
    }
}

/// Where a frame ends does not depend on the bytes behind it: however a stream
/// is cut into chunks, the same frames come out.
pub proof fn frames_do_not_depend_on_chunks(bytes: Seq<u8>, more: Seq<u8>)
    requires
        first_frame(bytes) is Some,
    ensures
        first_frame(bytes + more) == Some(
            ((first_frame(bytes)->0).0, (first_frame(bytes)->0).1 + more),
        ),
{
    let whole = bytes + more;
    let (position, length) = delimiter(bytes)->0;
    lemma_pattern_from(bytes, crlf_delimiter(), 0);
    lemma_pattern_from(bytes, lf_delimiter(), 0);
    lemma_pattern_from(whole, crlf_delimiter(), 0);
    lemma_pattern_from(whole, lf_delimiter(), 0);
    lemma_pattern_kept(bytes, more, crlf_delimiter());
    lemma_pattern_kept(bytes, more, lf_delimiter());
    // A delimiter of the other form that begins before this one would share
    // bytes with it and be no delimiter.
    match (
        pattern_from(bytes, crlf_delimiter(), 0),
        pattern_from(bytes, lf_delimiter(), 0),
        pattern_from(whole, crlf_delimiter(), 0),
        pattern_from(whole, lf_delimiter(), 0),
    ) {
        (None, Some(lf), Some(crlf), _) => {
            if crlf <= lf {
                let w = whole.subrange(crlf, crlf + 4);
                assert(w[0] == 13 && w[1] == 10 && w[2] == 13 && w[3] == 10);
                assert(whole[crlf] == w[0] && whole[crlf + 1] == w[1] && whole[crlf + 2] == w[2]
                    && whole[crlf + 3] == w[3]);
                let v = bytes.subrange(lf, lf + 2);
                assert(v[0] == 10 && v[1] == 10);
                assert(whole[lf] == v[0] && whole[lf + 1] == v[1]);
                if crlf + 4 <= bytes.len() {
                    assert(bytes.subrange(crlf, crlf + 4) =~= w);
                    assert(stands_at(bytes, crlf_delimiter(), crlf));
                }
                assert(false);
            }
        },
        (Some(crlf), None, _, Some(lf)) => {
            if lf < crlf {
                assert(bytes.subrange(lf, lf + 2) =~= whole.subrange(lf, lf + 2));
                assert(stands_at(bytes, lf_delimiter(), lf));
                assert(false);
            }
        },
        _ => {},
    }
    assert(delimiter(whole) == Some((position, length)));
    assert(whole.subrange(0, position) =~= bytes.subrange(0, position));
    assert(whole.subrange(position + length, whole.len() as int) =~= bytes.subrange(
        position + length,
        bytes.len() as int,
    ) + more);
}

/// A first match stays the first when bytes are added behind.
proof fn lemma_pattern_kept(bytes: Seq<u8>, more: Seq<u8>, pattern: Seq<u8>)
    requires
        pattern.len() > 0,
    ensures
        pattern_from(bytes, pattern, 0) is Some ==> pattern_from(bytes + more, pattern, 0)
            == pattern_from(bytes, pattern, 0),
{
    let whole = bytes + more;
    if let Some(found) = pattern_from(bytes, pattern, 0) {
        lemma_pattern_from(bytes, pattern, 0);
        assert(whole.subrange(found, found + pattern.len()) =~= bytes.subrange(
            found,
            found + pattern.len(),
        ));
        assert forall|j: int| 0 <= j < found implies !#[trigger] stands_at(whole, pattern, j) by {
            assert(whole.subrange(j, j + pattern.len()) =~= bytes.subrange(j, j + pattern.len()));
            assert(!stands_at(bytes, pattern, j));
        }
        lemma_pattern_from_is(whole, pattern, 0, found);
    }
}

/// A tool call of which deltas have arrived.
#[derive(Debug)]
pub struct PartialToolCall {
    id: Option<String>,
    name: Option<String>,
    announced: bool,
}

/// What is known of a tool call of which deltas have arrived.
#[verifier::ext_equal]
pub struct PartialView {
    pub id: Option<Seq<char>>,
    pub name: Option<Seq<char>>,
    pub announced: bool,
}

impl View for PartialToolCall {
    type V = PartialView;

    closed spec fn view(&self) -> PartialView {
        PartialView {
            id: text_option(self.id),
            name: text_option(self.name),
            announced: self.announced,
        }
    }
}

/// An event or a failure of a stream.
pub type EventResultView = Result<ChatEventView, ModelErrorView>;

/// What an event or a failure holds.
pub open spec fn event_view(result: ModelResult<ChatEvent>) -> EventResultView {
    match result {
        Ok(event) => Ok(event@),
        Err(error) => Err(error@),
    }
}

/// Decodes the bytes of an event stream.
#[derive(Debug)]
pub struct SseDecoder {
    pub(crate) buffer: Vec<u8>,
    pub(crate) pending: VecDeque<ModelResult<ChatEvent>>,
    pub(crate) text_block_id: String,
    pub(crate) thinking_block_id: String,
    pub(crate) structured_output_schema: Option<Json>,
    pub(crate) tool_calls: BTreeMap<u64, PartialToolCall>,
    pub(crate) finish_reason: Option<FinishReason>,
    pub(crate) closed: bool,
}

/// What a stream decoder holds.
#[verifier::ext_equal]
pub struct SseView {
    pub buffer: Seq<u8>,
    pub pending: Seq<EventResultView>,
    pub text_block_id: Seq<char>,
    pub thinking_block_id: Seq<char>,
    pub schema: Option<JsonView>,
    pub tool_calls: Map<u64, PartialView>,
    pub finish_reason: Option<FinishReason>,
    pub closed: bool,
}

impl View for SseDecoder {
    type V = SseView;

    open(crate) spec fn view(&self) -> SseView {
        SseView {
            buffer: self.buffer@,
            pending: self.pending@.map_values(|result: ModelResult<ChatEvent>| event_view(result)),
            text_block_id: self.text_block_id@,
            thinking_block_id: self.thinking_block_id@,
            schema: view_option(self.structured_output_schema),
            tool_calls: self.tool_calls@.map_values(|call: PartialToolCall| call@),
            finish_reason: self.finish_reason,
            closed: self.closed,
        }
    }
}

impl SseView {
    /// The same with one more event to hand out.
    pub open spec fn with_event(self, event: ChatEventView) -> SseView {
        SseView { pending: self.pending.push(Ok(event)), ..self }
    }

    /// The same after a failure, which closes the stream.
    pub open spec fn failed(self, error: ModelErrorView) -> SseView {
        SseView { pending: self.pending.push(Err(error)), closed: true, ..self }
    }
}

/// What is known of the tool call at an index.
pub open spec fn call_at(calls: Map<u64, PartialView>, index: u64) -> PartialView {
    if calls.contains_key(index) {
        calls[index]
    } else {
        PartialView { id: None, name: None, announced: false }
    }
}

/// A new text, or the old one where there is none.
pub open spec fn newer(new: Option<Seq<char>>, old: Option<Seq<char>>) -> Option<Seq<char>> {
    match new {
        Some(text) => Some(text),
        None => old,
    }
}

/// The text at a key of an optional object.
pub open spec fn function_text(function: Option<Map<Seq<char>, JsonView>>, key: Seq<char>) -> Option<
    Seq<char>,
> {
    match function {
        Some(map) => text_at(map, key),
        None => None,
    }
}

/// The decoder after one tool-call delta, and what is wrong with the delta.
pub open spec fn after_call_delta(state: SseView, value: JsonView) -> (
    SseView,
    Option<ModelErrorView>,
) {
    match value {
        JsonView::Object(object) => match number_at(object, "index"@) {
            None => (
                state,
                Some(invalid_stream_error("tool-call delta did not contain an index"@)),
            ),
            Some(index) => {
                let function = object_at(object, "function"@);
                let known = call_at(state.tool_calls, index);
                let partial = PartialView {
                    id: newer(text_at(object, "id"@), known.id),
                    name: newer(function_text(function, "name"@), known.name),
                    announced: known.announced,
                };
                let arguments = function_text(function, "arguments"@);
                let kept = SseView {
                    tool_calls: state.tool_calls.insert(index, partial),
                    ..state
                };
                if arguments is Some || !partial.announced {
                    match (partial.id, partial.name) {
                        (None, _) => (
                            kept,
                            Some(
                                invalid_stream_error(
                                    "first tool-call delta did not contain an identifier"@,
                                ),
                            ),
                        ),
                        (Some(_), None) => (
                            kept,
                            Some(
                                invalid_stream_error(
                                    "first tool-call delta did not contain a function name"@,
                                ),
                            ),
                        ),
                        (Some(id), Some(name)) => (
                            SseView {
                                tool_calls: state.tool_calls.insert(
                                    index,
                                    PartialView { announced: true, ..partial },
                                ),
                                ..state.with_event(
                                    ChatEventView::ToolCallDelta {
                                        tool_call_id: id,
                                        tool_name: name,
                                        delta: match arguments {
                                            Some(text) => text,
                                            None => Seq::empty(),
                                        },
                                    },
                                )
                            },
                            None,
                        ),
                    }
                } else {
                    (kept, None)
                }
            },
        },
        _ => (state, Some(invalid_stream_error("tool-call delta must be an object"@))),
    }
}

/// The decoder after tool-call deltas up to the first that is wrong.
pub open spec fn after_call_deltas(state: SseView, items: Seq<JsonView>) -> (
    SseView,
    Option<ModelErrorView>,
)
    decreases items.len(),
{
    if items.len() == 0 {
        (state, None)
    } else {
        let before = after_call_deltas(state, items.drop_last());
        match before.1 {
            Some(_) => before,
            None => after_call_delta(before.0, items.last()),
        }
    }
}

/// The decoder after the reasoning of a delta.
pub open spec fn after_reasoning(state: SseView, delta: Map<Seq<char>, JsonView>) -> SseView {
    match text_at(delta, "reasoning_content"@) {
        Some(text) => if text.len() == 0 {
            state
        } else {
            state.with_event(
                ChatEventView::ThinkingDelta { block_id: state.thinking_block_id, delta: text },
            )
        },
        None => state,
    }
}

/// The decoder after the text of a delta.
pub open spec fn after_content(state: SseView, delta: Map<Seq<char>, JsonView>) -> SseView {
    match text_at(delta, "content"@) {
        Some(text) => if text.len() == 0 {
            state
        } else {
            match state.schema {
                Some(schema) => state.with_event(
                    ChatEventView::StructuredOutputDelta {
                        block_id: state.text_block_id,
                        schema,
                        delta: text,
                    },
                ),
                None => state.with_event(
                    ChatEventView::TextDelta { block_id: state.text_block_id, delta: text },
                ),
            }
        },
        None => state,
    }
}

/// The decoder after a delta, and what is wrong with it.
pub open spec fn after_delta(state: SseView, delta: Map<Seq<char>, JsonView>) -> (
    SseView,
    Option<ModelErrorView>,
) {
    let told = after_content(after_reasoning(state, delta), delta);
    match lookup(delta, "tool_calls"@) {
        Some(JsonView::Array(items)) => after_call_deltas(told, items),
        _ => (told, None),
    }
}

/// The decoder after the usage of a chunk.
pub open spec fn after_usage(state: SseView, chunk: JsonView) -> SseView {
    match field(chunk, "usage"@) {
        None => state,
        Some(usage) => if usage is Null {
            state
        } else {
            match provider_usage(usage) {
                Ok(usage) => state.with_event(ChatEventView::Usage { usage }),
                Err(error) => SseView { pending: state.pending.push(Err(error)), ..state },
            }
        },
    }
}

/// The decoder after a chunk, and what is wrong with it.
pub open spec fn after_chunk(state: SseView, chunk: JsonView) -> (SseView, Option<ModelErrorView>) {
    let used = after_usage(state, chunk);
    match first_choice(field(chunk, "choices"@)) {
        None => (used, None),
        Some(choice) => {
            let changed = match object_at(choice, "delta"@) {
                Some(delta) => after_delta(used, delta),
                None => (used, None),
            };
            match changed.1 {
                Some(_) => changed,
                None => match lookup(choice, "finish_reason"@) {
                    None => changed,
                    Some(reason) => if reason is Null {
                        changed
                    } else {
                        match provider_reason(Some(reason)) {
                            Err(error) => (changed.0, Some(error)),
                            Ok(reason) => (
                                SseView { finish_reason: Some(reason), ..changed.0 },
                                None,
                            ),
                        }
                    },
                },
            }
        },
    }
}

/// The failure that a provider reports inside a stream.
pub open spec fn provider_stream_error(error: JsonView) -> ModelErrorView {
    let coded = match field(error, "code"@) {
        Some(code) => Some(code),
        None => field(error, "type"@),
    };
    coded_error(
        match field(error, "message"@) {
            Some(JsonView::Text(text)) => text,
            _ => "provider reported an SSE error"@,
        },
        match coded {
            Some(JsonView::Text(text)) => text,
            _ => "stream_error"@,
        },
    )
}

/// The data that lines of a frame hold.
pub open spec fn data_lines(frame_lines: Seq<Seq<char>>) -> Seq<Seq<char>>
    decreases frame_lines.len(),
{
    if frame_lines.len() == 0 {
        Seq::empty()
    } else {
        let rest = data_lines(frame_lines.drop_last());
        match without_prefix(frame_lines.last(), "data:"@) {
            Some(data) => rest.push(trim_start_text(data)),
            None => rest,
        }
    }
}

/// The data of a frame.
pub open spec fn frame_data(text: Seq<char>) -> Seq<char> {
    joined(data_lines(lines_of(text)), "\n"@)
}

/// The decoder after the data of a frame, once it was read as JSON, and what is
/// wrong with it.
pub open spec fn after_data(state: SseView, parsed: Result<JsonView, Seq<char>>) -> (
    SseView,
    Option<ModelErrorView>,
) {
    match parsed {
        Err(fault) => (
            state,
            Some(invalid_stream_error("SSE data was invalid JSON: "@ + fault)),
        ),
        Ok(chunk) => match field(chunk, "error"@) {
            Some(error) => (state, Some(provider_stream_error(error))),
            None => after_chunk(state, chunk),
        },
    }
}

/// The decoder after the end mark of a stream.
pub open spec fn after_done(state: SseView) -> SseView {
    match state.finish_reason {
        Some(reason) => SseView {
            closed: true,
            finish_reason: None,
            ..state.with_event(ChatEventView::Finished { reason })
        },
        None => state.failed(
            invalid_stream_error("SSE stream ended without a provider finish reason"@),
        ),
    }
}

/// The decoder after a frame, and what is wrong with it.
pub open spec fn after_frame(state: SseView, frame: Seq<u8>) -> (SseView, Option<ModelErrorView>) {
    if !vstd::utf8::valid_utf8(frame) {
        (state, Some(invalid_stream_error("SSE event was not UTF-8: "@ + utf8_fault(frame))))
    } else {
        let data = frame_data(vstd::utf8::decode_utf8(frame));
        if data.len() == 0 {
            (state, None)
        } else if data == "[DONE]"@ {
            (after_done(state), None)
        } else {
            after_data(state, parsed_json(data))
        }
    }
}

/// The decoder after a frame, closed where something is wrong with it.
pub open spec fn frame_taken(state: SseView, frame: Seq<u8>) -> SseView {
    let after = after_frame(state, frame);
    match after.1 {
        Some(error) => after.0.failed(error),
        None => after.0,
    }
}

/// The decoder after as many frames as it takes to have an event to hand out.
pub open spec fn pumped(state: SseView) -> SseView
    decreases state.buffer.len(),
    via pumped_decreases
{
    if state.pending.len() > 0 || state.closed {
        state
    } else {
        match first_frame(state.buffer) {
            None => state,
            Some((frame, rest)) => pumped(frame_taken(SseView { buffer: rest, ..state }, frame)),
        }
    }
}

#[via_fn]
proof fn pumped_decreases(state: SseView) {
    if let Some((frame, rest)) = first_frame(state.buffer) {
        lemma_pattern_from(state.buffer, crlf_delimiter(), 0);
        lemma_pattern_from(state.buffer, lf_delimiter(), 0);
        lemma_frame_keeps_buffer(SseView { buffer: rest, ..state }, frame);
    }
}

/// Tool-call deltas leave the buffer, the identifiers and the schema alone.
proof fn lemma_call_deltas_keep(state: SseView, items: Seq<JsonView>)
    ensures
        after_call_deltas(state, items).0.buffer == state.buffer,
    decreases items.len(),
{
    if items.len() > 0 {
        lemma_call_deltas_keep(state, items.drop_last());
    }
}

/// A frame leaves the buffer alone.
pub(crate) proof fn lemma_frame_keeps_buffer(state: SseView, frame: Seq<u8>)
    ensures
        frame_taken(state, frame).buffer == state.buffer,
{
    let data = frame_data(vstd::utf8::decode_utf8(frame));
    if let Ok(chunk) = parsed_json(data) {
        if let Some(choice) = first_choice(field(chunk, "choices"@)) {
            if let Some(delta) = object_at(choice, "delta"@) {
                let told = after_content(after_reasoning(after_usage(state, chunk), delta), delta);
                if let Some(JsonView::Array(items)) = lookup(delta, "tool_calls"@) {
                    lemma_call_deltas_keep(told, items);
                }
            }
        }
    }
}

/// What a decoder asks for or hands out.
#[derive(Debug)]
pub enum SseStep {
    /// The next event or failure of the stream.
    Event(ModelResult<ChatEvent>),
    /// More bytes are needed.
    NeedsInput,
    /// The stream is over.
    Ended,
}

/// Whether a step is right for a decoder that can go no further by itself.
pub open spec fn step_outcome(pumped: SseView, step: SseStep, after: SseView) -> bool {
    if pumped.pending.len() > 0 {
        (step matches SseStep::Event(result) && event_view(result) == pumped.pending[0]) && after
            == (SseView { pending: pumped.pending.drop_first(), ..pumped })
    } else {
        after == pumped && step == if pumped.closed {
            SseStep::Ended
        } else {
            SseStep::NeedsInput
        }
    }
}

/// The failure of a stream that ends without its end mark.
pub open spec fn ended_early() -> ModelErrorView {
    invalid_stream_error("SSE stream ended before `data: [DONE]`"@)
}

/// The decoder at the end of input: what is left in the buffer is a last frame.
pub open spec fn after_input_end(state: SseView) -> SseView {
    if state.buffer.len() == 0 {
        state.failed(ended_early())
    } else {
        let taken = frame_taken(SseView { buffer: Seq::empty(), ..state }, state.buffer);
        if taken.closed {
            taken
        } else {
            taken.failed(ended_early())
        }
    }
}

impl SseDecoder {
    /// A decoder at the start of a stream.
    pub fn new(structured_output_schema: Option<Json>) -> (decoder: SseDecoder)
        ensures
            decoder@ == (SseView {
                buffer: Seq::empty(),
                pending: Seq::empty(),
                text_block_id: decoder@.text_block_id,
                thinking_block_id: decoder@.thinking_block_id,
                schema: view_option(structured_output_schema),
                tool_calls: Map::empty(),
                finish_reason: None,
                closed: false,
            }),
            is_generated_id(decoder@.text_block_id),
            is_generated_id(decoder@.thinking_block_id),
    {
        let decoder = SseDecoder {
            buffer: Vec::new(),
            pending: VecDeque::new(),
            text_block_id: generate_id(),
            thinking_block_id: generate_id(),
            structured_output_schema,
            tool_calls: BTreeMap::new(),
            finish_reason: None,
            closed: false,
        };
        proof {
            assert(decoder@.pending =~= Seq::empty());
            assert(decoder@.tool_calls =~= Map::empty());
        }
        decoder
    }

    /// Queues an event.
    fn push_event(&mut self, event: ChatEvent)
        ensures
            final(self)@ == old(self)@.with_event(event@),
    {
        self.pending.push_back(Ok(event));
        assert(self@.pending =~= old(self)@.pending.push(Ok(event@)));
    }

    /// Queues a failure and closes the stream.
    pub fn fail(&mut self, error: ModelError)
        ensures
            final(self)@ == old(self)@.failed(error@),
    {
        self.pending.push_back(Err(error));
        self.closed = true;
        assert(self@.pending =~= old(self)@.pending.push(Err(error@)));
    }

    /// Adds bytes that have arrived.
    pub fn feed(&mut self, chunk: &Vec<u8>)
        ensures
            final(self)@ == (SseView { buffer: old(self)@.buffer + chunk@, ..old(self)@ }),
    {
        let mut copied = chunk.clone();
        self.buffer.append(&mut copied);
        assert(self.buffer@ =~= old(self).buffer@ + chunk@);
    }

    /// Takes the end of the input into account.
    pub fn end_input(&mut self)
        ensures
            final(self)@ == after_input_end(old(self)@),
    {
        if self.buffer.len() == 0 {
            self.fail(invalid_stream("SSE stream ended before `data: [DONE]`"));
        } else {
            let mut frame: Vec<u8> = Vec::new();
            std::mem::swap(&mut self.buffer, &mut frame);
            assert(self@.buffer =~= Seq::empty());
            self.handle_frame(frame);
            if !self.closed {
                self.fail(invalid_stream("SSE stream ended before `data: [DONE]`"));
            }
        }
    }

    /// The next step: an event that is due, the end, or a request for bytes.
    pub fn next_event(&mut self) -> (step: SseStep)
        ensures
            step_outcome(pumped(old(self)@), step, final(self)@),
    {
        loop
            invariant
                pumped(self@) == pumped(old(self)@),
            decreases self.buffer@.len(),
        {
            let ghost before = self@;
            if let Some(event) = self.pending.pop_front() {
                assert(self@.pending =~= before.pending.drop_first());
                return SseStep::Event(event);
            }
            if self.closed {
                return SseStep::Ended;
            }
            match take_frame(&mut self.buffer) {
                None => {
                    return SseStep::NeedsInput;
                },
                Some(frame) => {
                    proof {
                        lemma_frame_keeps_buffer(self@, frame@);
                    }
                    self.handle_frame(frame);
                },
            }
        }
    }

    /// Handles a frame, and closes the stream where something is wrong with it.
    fn handle_frame(&mut self, frame: Vec<u8>)
        ensures
            final(self)@ == frame_taken(old(self)@, frame@),
    {
        if let Err(error) = self.process_frame(frame) {
            self.fail(error);
        }
    }

    /// Handles a frame.
    fn process_frame(&mut self, frame: Vec<u8>) -> (result: Result<(), ModelError>)
        ensures
            after_frame(old(self)@, frame@) == (final(self)@, error_option(result)),
    {
        let text = match decode_text(frame) {
            Err(fault) => {
                return Err(
                    invalid_stream(concat2("SSE event was not UTF-8: ", fault.as_str()).as_str()),
                );
            },
            Ok(text) => text,
        };
        let data = read_frame_data(text.as_str());
        if data.as_str().is_empty() {
            return Ok(());
        }
        if same_text(data.as_str(), "[DONE]") {
            self.process_done();
            return Ok(());
        }
        self.process_data(Json::parse(data.as_str()))
    }

    /// Handles the end mark of a stream.
    fn process_done(&mut self)
        ensures
            final(self)@ == after_done(old(self)@),
    {
        self.closed = true;
        match self.finish_reason {
            Some(reason) => {
                self.finish_reason = None;
                self.push_event(ChatEvent::Finished { reason });
            },
            None => {
                self.fail(invalid_stream("SSE stream ended without a provider finish reason"));
            },
        }
    }

    /// Handles the data of a frame, once it was read as JSON.
    pub fn process_data(&mut self, parsed: Result<Json, String>) -> (result: Result<(), ModelError>)
        ensures
            after_data(
                old(self)@,
                match parsed {
                    Ok(json) => Ok(json@),
                    Err(fault) => Err(fault@),
                },
            ) == (final(self)@, error_option(result)),
    {
        match parsed {
            Err(fault) => Err(
                invalid_stream(concat2("SSE data was invalid JSON: ", fault.as_str()).as_str()),
            ),
            Ok(chunk) => match chunk.get("error") {
                Some(error) => Err(decode_provider_error(error)),
                None => self.process_chunk(&chunk),
            },
        }
    }

    /// Handles a chunk.
    fn process_chunk(&mut self, chunk: &Json) -> (result: Result<(), ModelError>)
        ensures
            after_chunk(old(self)@, chunk@) == (final(self)@, error_option(result)),
    {
        if let Some(usage) = chunk.get("usage") {
            if !usage.is_null() {
                match decode_usage(usage) {
                    Ok(usage) => {
                        self.push_event(ChatEvent::Usage { usage });
                    },
                    Err(error) => {
                        self.pending.push_back(Err(error));
                        assert(self@.pending =~= old(self)@.pending.push(Err(error@)));
                    },
                }
            }
        }
        let choice = match find_choice(chunk.get("choices")) {
            None => {
                return Ok(());
            },
            Some(choice) => choice,
        };
        if let Some(delta) = object_field(choice, "delta") {
            if let Err(error) = self.process_delta(delta) {
                return Err(error);
            }
        }
        if let Some(reason) = choice.get("finish_reason") {
            if !reason.is_null() {
                match decode_finish_reason(Some(reason)) {
                    Err(error) => {
                        return Err(error);
                    },
                    Ok(reason) => {
                        self.finish_reason = Some(reason);
                    },
                }
            }
        }
        Ok(())
    }

    /// Handles a delta.
    fn process_delta(&mut self, delta: &JsonMap) -> (result: Result<(), ModelError>)
        ensures
            after_delta(old(self)@, delta@) == (final(self)@, error_option(result)),
    {
        if let Some(reasoning) = text_field(delta, "reasoning_content") {
            if !reasoning.is_empty() {
                let block_id = self.thinking_block_id.clone();
                self.push_event(ChatEvent::ThinkingDelta { block_id, delta: reasoning.to_owned() });
            }
        }
        if let Some(content) = text_field(delta, "content") {
            if !content.is_empty() {
                let block_id = self.text_block_id.clone();
                match &self.structured_output_schema {
                    Some(schema) => {
                        let schema = schema.clone();
                        self.push_event(
                            ChatEvent::StructuredOutputDelta {
                                block_id,
                                schema,
                                delta: content.to_owned(),
                            },
                        );
                    },
                    None => {
                        self.push_event(
                            ChatEvent::TextDelta { block_id, delta: content.to_owned() },
                        );
                    },
                }
            }
        }
        let items = match delta.get("tool_calls") {
            Some(value) => value.as_array(),
            None => None,
        };
        match items {
            None => Ok(()),
            Some(items) => self.process_tool_call_deltas(items),
        }
    }

    /// Handles tool-call deltas up to the first that is wrong.
    fn process_tool_call_deltas(&mut self, items: &Vec<Json>) -> (result: Result<(), ModelError>)
        ensures
            after_call_deltas(old(self)@, json_views(items@)) == (
                final(self)@,
                error_option(result),
            ),
    {
        let ghost json = json_views(items@);
        let mut i: usize = 0;
        while i < items.len()
            invariant
                i <= items@.len(),
                json == json_views(items@),
                after_call_deltas(old(self)@, json.take(i as int)) == (
                    self@,
                    None::<ModelErrorView>,
                ),
            decreases items@.len() - i,
        {
            proof {
                assert(json.take(i + 1).drop_last() =~= json.take(i as int));
                assert(json.take(i + 1).last() == items@[i as int]@);
            }
            if let Err(error) = self.process_tool_call_delta(&items[i]) {
                proof {
                    lemma_call_deltas_stop(old(self)@, json, i + 1);
                }
                return Err(error);
            }
            i += 1;
        }
        assert(json.take(json.len() as int) =~= json);
        Ok(())
    }

    /// Handles a tool-call delta.
    fn process_tool_call_delta(&mut self, value: &Json) -> (result: Result<(), ModelError>)
        ensures
            after_call_delta(old(self)@, value@) == (final(self)@, error_option(result)),
    {
        let object = match value.as_object() {
            None => {
                return Err(invalid_stream("tool-call delta must be an object"));
            },
            Some(object) => object,
        };
        let index: u64 = match optional_u64(object, "index") {
            None => {
                return Err(invalid_stream("tool-call delta did not contain an index"));
            },
            Some(index) => index,
        };
        let ghost calls = self@.tool_calls;
        let mut partial = match self.tool_calls.remove(&index) {
            Some(partial) => partial,
            None => PartialToolCall { id: None, name: None, announced: false },
        };
        assert(partial@ == call_at(calls, index));
        assert(self@.tool_calls =~= calls.remove(index));
        if let Some(id) = text_field(object, "id") {
            partial.id = Some(id.to_owned());
        }
        let function = object_field(object, "function");
        let name = match function {
            Some(function) => text_field(function, "name"),
            None => None,
        };
        if let Some(name) = name {
            partial.name = Some(name.to_owned());
        }
        let arguments = match function {
            Some(function) => text_field(function, "arguments"),
            None => None,
        };
        let mut result: Result<(), ModelError> = Ok(());
        if arguments.is_some() || !partial.announced {
            let delta = match arguments {
                Some(text) => text.to_owned(),
                None => String::new(),
            };
            match &partial.id {
                None => {
                    result = Err(
                        invalid_stream("first tool-call delta did not contain an identifier"),
                    );
                },
                Some(id) => match &partial.name {
                    None => {
                        result = Err(
                            invalid_stream("first tool-call delta did not contain a function name"),
                        );
                    },
                    Some(name) => {
                        let event = ChatEvent::ToolCallDelta {
                            tool_call_id: id.clone(),
                            tool_name: name.clone(),
                            delta,
                        };
                        self.push_event(event);
                        partial.announced = true;
                    },
                },
            }
        }
        let ghost kept = partial@;
        assert(self@.tool_calls == calls.remove(index));
        self.tool_calls.insert(index, partial);
        assert(self@.tool_calls =~= calls.remove(index).insert(index, kept));
        assert(self@.tool_calls =~= calls.insert(index, kept));
        result
    }
}

/// The error of a result.
pub open spec fn error_option(result: Result<(), ModelError>) -> Option<ModelErrorView> {
    match result {
        Ok(()) => None,
        Err(error) => Some(error@),
    }
}

/// What is wrong with some of the deltas stops them all.
proof fn lemma_call_deltas_stop(state: SseView, items: Seq<JsonView>, count: int)
    requires
        0 <= count <= items.len(),
        after_call_deltas(state, items.take(count)).1 is Some,
    ensures
        after_call_deltas(state, items) == after_call_deltas(state, items.take(count)),
    decreases items.len() - count,
{
    if count < items.len() {
        assert(items.take(count + 1).drop_last() =~= items.take(count));
        lemma_call_deltas_stop(state, items, count + 1);
    } else {
        assert(items.take(count) =~= items);
    }
}

/// The data of a frame: its `data:` lines without the mark and white space behind it.
fn read_frame_data(text: &str) -> (data: String)
    ensures
        data@ == frame_data(text@),
{
    let frame_lines = lines(text);
    let ghost all = texts(frame_lines@);
    let mut data: Vec<String> = Vec::new();
    let mut i: usize = 0;
    assert(texts(data@) =~= Seq::empty());
    while i < frame_lines.len()
        invariant
            i <= frame_lines@.len(),
            all == texts(frame_lines@),
            texts(data@) == data_lines(all.take(i as int)),
        decreases frame_lines@.len() - i,
    {
        proof {
            assert(all.take(i + 1).drop_last() =~= all.take(i as int));
            assert(all.take(i + 1).last() == frame_lines@[i as int]@);
        }
        if let Some(rest) = strip_prefix(frame_lines[i].as_str(), "data:") {
            let ghost before = texts(data@);
            data.push(trim_start(rest.as_str()));
            assert(texts(data@) =~= before.push(trim_start_text(rest@)));
        }
        i += 1;
    }
    assert(all.take(all.len() as int) =~= all);
    join(&data, "\n")
}

/// The failure that a provider reports inside a stream.
pub fn decode_provider_error(error: &Json) -> (failure: ModelError)
    ensures
        failure@ == provider_stream_error(error@),
{
    let text = match error.get("message") {
        Some(value) => value.as_str(),
        None => None,
    };
    let message = match text {
        Some(text) => text,
        None => "provider reported an SSE error",
    };
    let coded = match error.get("code") {
        Some(code) => Some(code),
        None => error.get("type"),
    };
    let text = match coded {
        Some(value) => value.as_str(),
        None => None,
    };
    let code = match text {
        Some(text) => text,
        None => "stream_error",
    };
    ModelError::new(message).with_code(code)
}

/// A decoder with other bytes in its buffer.
pub open spec fn with_buffer(state: SseView, buffer: Seq<u8>) -> SseView {
    SseView { buffer, ..state }
}

/// What tool-call deltas do does not depend on the buffer.
proof fn lemma_call_deltas_any_buffer(state: SseView, items: Seq<JsonView>, buffer: Seq<u8>)
    ensures
        after_call_deltas(with_buffer(state, buffer), items) == (
            with_buffer(after_call_deltas(state, items).0, buffer),
            after_call_deltas(state, items).1,
        ),
    decreases items.len(),
{
    if items.len() > 0 {
        lemma_call_deltas_any_buffer(state, items.drop_last(), buffer);
    }
}

/// What a frame does does not depend on the buffer.
proof fn lemma_frame_any_buffer(state: SseView, frame: Seq<u8>, buffer: Seq<u8>)
    ensures
        frame_taken(with_buffer(state, buffer), frame) == with_buffer(
            frame_taken(state, frame),
            buffer,
        ),
{
    let data = frame_data(vstd::utf8::decode_utf8(frame));
    if let Ok(chunk) = parsed_json(data) {
        if let Some(choice) = first_choice(field(chunk, "choices"@)) {
            if let Some(delta) = object_at(choice, "delta"@) {
                let told = after_content(after_reasoning(after_usage(state, chunk), delta), delta);
                if let Some(JsonView::Array(items)) = lookup(delta, "tool_calls"@) {
                    lemma_call_deltas_any_buffer(told, items, buffer);
                }
            }
        }
    }
}

/// How a stream is cut into chunks does not matter: decoding what is there before
/// more bytes arrive gives what decoding all of them at once gives.
pub proof fn events_do_not_depend_on_chunks(state: SseView, more: Seq<u8>)
    ensures
        pumped(with_buffer(state, state.buffer + more)) == pumped(
            with_buffer(pumped(state), pumped(state).buffer + more),
        ),
    decreases state.buffer.len(),
{
    if state.pending.len() == 0 && !state.closed {
        if let Some((frame, rest)) = first_frame(state.buffer) {
            lemma_pattern_from(state.buffer, crlf_delimiter(), 0);
            lemma_pattern_from(state.buffer, lf_delimiter(), 0);
            frames_do_not_depend_on_chunks(state.buffer, more);
            let next = frame_taken(with_buffer(state, rest), frame);
            lemma_frame_keeps_buffer(with_buffer(state, rest), frame);
            lemma_frame_any_buffer(with_buffer(state, rest), frame, rest + more);
            assert(with_buffer(with_buffer(state, rest), rest + more) == with_buffer(
                state,
                rest + more,
            ));
            assert(pumped(state) == pumped(next));
            let whole = with_buffer(state, state.buffer + more);
            assert(pumped(whole) == pumped(
                frame_taken(with_buffer(whole, rest + more), frame),
            ));
            assert(with_buffer(whole, rest + more) == with_buffer(state, rest + more));
            events_do_not_depend_on_chunks(next, more);
        }
    }
}

} // verus!
