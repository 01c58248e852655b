//! What the events of a stream carry, whatever the chunks they came in.
use vstd::prelude::*;

use super::super::event::{ChatEventView, ModelErrorView};
use super::super::response::FinishReason;
use super::exchange::{finish_reasons_are_read_by_name, items_in, object_in, text_in};
use super::sse::{
    after_call_delta, after_call_deltas, after_content, after_data, after_delta, after_done,
    after_frame, after_input_end, after_reasoning, after_usage, crlf_delimiter, data_lines,
    delimiter, event_view, first_frame, frame_data, frame_taken, lemma_frame_keeps_buffer,
    lemma_pattern_from, lf_delimiter, pattern_from, pumped, stands_at, step_outcome,
    EventResultView, PartialView, SseStep, SseView,
};
use super::wire::provider_usage;
use crate::json::{parsed_json, JsonView};
use crate::text::{char_from, joined, lemma_char_from, lines_of, trim_start_text, without_prefix};

verus! {

/// A kind of deltas that carry a text of the model.
pub enum Voice {
    /// What the user sees.
    Text,
    /// What the model thinks.
    Thinking,
    /// What follows a schema.
    Structured,
}

/// What an event adds to one kind of text.
pub open spec fn added(event: EventResultView, voice: Voice) -> Seq<char> {
    match (event, voice) {
        (Ok(ChatEventView::TextDelta { block_id, delta }), Voice::Text) => delta,
        (Ok(ChatEventView::ThinkingDelta { block_id, delta }), Voice::Thinking) => delta,
        (
            Ok(ChatEventView::StructuredOutputDelta { block_id, schema, delta }),
            Voice::Structured,
        ) => delta,
        _ => Seq::empty(),
    }
}

/// What events add to one kind of text, in order.
pub open spec fn gathered(events: Seq<EventResultView>, voice: Voice) -> Seq<char>
    decreases events.len(),
{
    if events.len() == 0 {
        Seq::empty()
    } else {
        gathered(events.drop_last(), voice) + added(events.last(), voice)
    }
}

proof fn lemma_gathered_add(a: Seq<EventResultView>, b: Seq<EventResultView>, voice: Voice)
    ensures
        gathered(a + b, voice) == gathered(a, voice) + gathered(b, voice),
    decreases b.len(),
{
    if b.len() == 0 {
        assert(a + b =~= a);
        assert(gathered(a, voice) + gathered(b, voice) =~= gathered(a, voice));
    } else {
        lemma_gathered_add(a, b.drop_last(), voice);
        assert((a + b).drop_last() =~= a + b.drop_last());
        assert(gathered(a + b, voice) =~= gathered(a, voice) + gathered(b, voice));
    }
}

/// The choice that a chunk is about, empty where there is none.
pub open spec fn choice_in(chunk: JsonView) -> Map<Seq<char>, JsonView> {
    match chunk {
        JsonView::Object(object) => {
            let choices = items_in(object, "choices"@);
            if choices.len() > 0 && choices[0] is Object {
                choices[0]->Object_0
            } else {
                Map::empty()
            }
        },
        _ => Map::empty(),
    }
}

/// The delta that a chunk carries, empty where there is none.
pub open spec fn delta_in(chunk: JsonView) -> Map<Seq<char>, JsonView> {
    object_in(choice_in(chunk), "delta"@)
}

/// Whether a chunk reports a failure.
pub open spec fn reports_error(chunk: JsonView) -> bool {
    chunk matches JsonView::Object(object) && object.contains_key("error"@)
}

/// Whether a chunk reports usage.
pub open spec fn reports_usage(chunk: JsonView) -> bool {
    chunk matches JsonView::Object(object) && object.contains_key("usage"@) && !(
    object["usage"@] is Null)
}

/// The event of the reasoning of a chunk, if there is any.
pub open spec fn reasoning_events(state: SseView, chunk: JsonView) -> Seq<EventResultView> {
    let text = text_in(delta_in(chunk), "reasoning_content"@);
    if text.len() == 0 {
        Seq::empty()
    } else {
        seq![Ok(ChatEventView::ThinkingDelta { block_id: state.thinking_block_id, delta: text })]
    }
}

/// The event of the content of a chunk, if there is any.
pub open spec fn content_events(state: SseView, chunk: JsonView) -> Seq<EventResultView> {
    let text = text_in(delta_in(chunk), "content"@);
    if text.len() == 0 {
        Seq::empty()
    } else {
        match state.schema {
            None => seq![
                Ok(ChatEventView::TextDelta { block_id: state.text_block_id, delta: text }),
            ],
            Some(schema) => seq![
                Ok(
                    ChatEventView::StructuredOutputDelta {
                        block_id: state.text_block_id,
                        schema,
                        delta: text,
                    },
                ),
            ],
        }
    }
}

/// Whether events all belong to tool calls.
pub open spec fn are_call_events(events: Seq<EventResultView>) -> bool {
    forall|i: int|
        0 <= i < events.len() ==> (#[trigger] events[i] matches Ok(event) && event
            is ToolCallDelta)
}

proof fn lemma_call_events(state: SseView, items: Seq<JsonView>) -> (calls: Seq<EventResultView>)
    ensures
        are_call_events(calls),
        calls.len() <= items.len(),
        after_call_deltas(state, items).0.pending == state.pending + calls,
        after_call_deltas(state, items).0 == (SseView {
            pending: state.pending + calls,
            tool_calls: after_call_deltas(state, items).0.tool_calls,
            ..state
        }),
    decreases items.len(),
{
    if items.len() == 0 {
        assert(state.pending + Seq::<EventResultView>::empty() =~= state.pending);
        Seq::empty()
    } else {
        let before = lemma_call_events(state, items.drop_last());
        let middle = after_call_deltas(state, items.drop_last());
        let after = after_call_deltas(state, items);
        if after.0.pending == middle.0.pending {
            before
        } else {
            let calls = before.push(after.0.pending.last());
            assert(after.0.pending =~= state.pending + calls);
            calls
        }
    }
}

/// The events of a chunk come in order: its usage, its reasoning, its content and its
/// tool calls, each at most once but for the calls, and nothing else. Reasoning goes to
/// the thinking block and content to the text block, by the schema where there is one.
/// What was due before stays due before them.
pub proof fn chunks_give_their_events_in_order(state: SseView, chunk: JsonView) -> (found: (
    Seq<EventResultView>,
    Seq<EventResultView>,
))
    requires
        !reports_error(chunk),
    ensures
        after_data(state, Ok(chunk)).0.pending == state.pending + found.0 + reasoning_events(
            state,
            chunk,
        ) + content_events(state, chunk) + found.1,
        found.0.len() == if reports_usage(chunk) {
            1int
        } else {
            0int
        },
        reports_usage(chunk) ==> (match found.0[0] {
            Ok(event) => event matches ChatEventView::Usage { usage } && provider_usage(
                chunk->Object_0["usage"@],
            ) == Ok::<_, ModelErrorView>(usage),
            Err(error) => provider_usage(chunk->Object_0["usage"@]) is Err,
        }),
        are_call_events(found.1),
        found.1.len() <= items_in(delta_in(chunk), "tool_calls"@).len(),
        after_data(state, Ok(chunk)).0 == (SseView {
            pending: after_data(state, Ok(chunk)).0.pending,
            tool_calls: after_data(state, Ok(chunk)).0.tool_calls,
            finish_reason: after_data(state, Ok(chunk)).0.finish_reason,
            ..state
        }),
{
    let used = after_usage(state, chunk);
    let usage = if reports_usage(chunk) {
        seq![used.pending.last()]
    } else {
        Seq::empty()
    };
    assert(used.pending =~= state.pending + usage);
    let choice = choice_in(chunk);
    let delta = delta_in(chunk);
    let told = after_content(after_reasoning(used, delta), delta);
    let reasoned = reasoning_events(state, chunk);
    let spoken = content_events(state, chunk);
    assert(told.pending =~= state.pending + usage + reasoned + spoken);
    let items = items_in(delta, "tool_calls"@);
    let calls = lemma_call_events(told, items);
    if object_in_is(choice, "delta"@) {
        assert(after_delta(used, delta).0.pending =~= told.pending + calls);
        (usage, calls)
    } else {
        assert(delta =~= Map::empty());
        assert(reasoned =~= Seq::empty());
        assert(spoken =~= Seq::empty());
        assert(after_data(state, Ok(chunk)).0.pending =~= used.pending);
        assert(state.pending + usage + reasoned + spoken + Seq::<EventResultView>::empty()
            =~= used.pending);
        (usage, Seq::empty())
    }
}

/// Whether there is an object at a key.
spec fn object_in_is(object: Map<Seq<char>, JsonView>, key: Seq<char>) -> bool {
    object.contains_key(key) && object[key] is Object
}

/// A chunk adds its content to the text that is seen, or to the structured output where
/// there is a schema, its reasoning to the thinking, and nothing to anything else; a
/// chunk that reports a failure adds nothing at all.
pub proof fn chunks_tell_their_content_alone(state: SseView, chunk: JsonView, voice: Voice)
    ensures
        gathered(after_data(state, Ok(chunk)).0.pending, voice) == gathered(state.pending, voice)
            + if reports_error(chunk) {
            Seq::empty()
        } else {
            match voice {
                Voice::Text => if state.schema is None {
                    text_in(delta_in(chunk), "content"@)
                } else {
                    Seq::empty()
                },
                Voice::Thinking => text_in(delta_in(chunk), "reasoning_content"@),
                Voice::Structured => if state.schema is Some {
                    text_in(delta_in(chunk), "content"@)
                } else {
                    Seq::empty()
                },
            }
        },
{
    if reports_error(chunk) {
        assert(gathered(state.pending, voice) + Seq::<char>::empty() =~= gathered(
            state.pending,
            voice,
        ));
    } else {
        let (usage, calls) = chunks_give_their_events_in_order(state, chunk);
        let reasoned = reasoning_events(state, chunk);
        let spoken = content_events(state, chunk);
        lemma_gathered_add(state.pending, usage, voice);
        lemma_gathered_add(state.pending + usage, reasoned, voice);
        lemma_gathered_add(state.pending + usage + reasoned, spoken, voice);
        lemma_gathered_add(state.pending + usage + reasoned + spoken, calls, voice);
        lemma_silent(usage, voice);
        lemma_silent(calls, voice);
        lemma_single(reasoned, voice);
        lemma_single(spoken, voice);
        let before = gathered(state.pending, voice);
        let empty = Seq::<char>::empty();
        assert(before + empty =~= before);
        assert(gathered(after_data(state, Ok(chunk)).0.pending, voice) =~= before + gathered(
            reasoned,
            voice,
        ) + gathered(spoken, voice));
        assert(empty + gathered(spoken, voice) =~= gathered(spoken, voice));
        assert(gathered(reasoned, voice) + empty =~= gathered(reasoned, voice));
        assert(before + gathered(reasoned, voice) + gathered(spoken, voice) =~= before + (gathered(
            reasoned,
            voice,
        ) + gathered(spoken, voice)));
    }
}

proof fn lemma_silent(events: Seq<EventResultView>, voice: Voice)
    requires
        forall|i: int| 0 <= i < events.len() ==> added(#[trigger] events[i], voice).len() == 0,
    ensures
        gathered(events, voice) == Seq::<char>::empty(),
    decreases events.len(),
{
    if events.len() > 0 {
        let rest = events.drop_last();
        assert forall|i: int| 0 <= i < rest.len() implies added(#[trigger] rest[i], voice).len()
            == 0 by {
            assert(rest[i] == events[i]);
        }
        lemma_silent(rest, voice);
        assert(events[events.len() - 1] == events.last());
    }
    assert(gathered(events, voice) =~= Seq::<char>::empty());
}

proof fn lemma_single(events: Seq<EventResultView>, voice: Voice)
    requires
        events.len() <= 1,
    ensures
        events.len() == 1 ==> gathered(events, voice) == added(events[0], voice),
        events.len() == 0 ==> gathered(events, voice) == Seq::<char>::empty(),
{
    if events.len() == 1 {
        assert(events.drop_last() =~= Seq::empty());
        assert(gathered(events.drop_last(), voice) == Seq::<char>::empty());
        assert(gathered(events, voice) =~= added(events[0], voice));
    }
}

/// The data that a frame carries, where it is text.
pub open spec fn data_of(frame: Seq<u8>) -> Seq<char> {
    frame_data(vstd::utf8::decode_utf8(frame))
}

/// What a frame adds to one kind of text: what the chunk in it says.
pub open spec fn frame_tells(schema: Option<JsonView>, frame: Seq<u8>, voice: Voice) -> Seq<char> {
    let data = data_of(frame);
    if !vstd::utf8::valid_utf8(frame) || data.len() == 0 || data == "[DONE]"@ {
        Seq::empty()
    } else {
        match parsed_json(data) {
            Err(_) => Seq::empty(),
            Ok(chunk) => if reports_error(chunk) {
                Seq::empty()
            } else {
                match voice {
                    Voice::Text => if schema is None {
                        text_in(delta_in(chunk), "content"@)
                    } else {
                        Seq::empty()
                    },
                    Voice::Thinking => text_in(delta_in(chunk), "reasoning_content"@),
                    Voice::Structured => if schema is Some {
                        text_in(delta_in(chunk), "content"@)
                    } else {
                        Seq::empty()
                    },
                }
            },
        }
    }
}

/// What frames add to one kind of text, in order.
pub open spec fn frames_tell(schema: Option<JsonView>, frames: Seq<Seq<u8>>, voice: Voice) -> Seq<
    char,
>
    decreases frames.len(),
{
    if frames.len() == 0 {
        Seq::empty()
    } else {
        frames_tell(schema, frames.drop_last(), voice) + frame_tells(schema, frames.last(), voice)
    }
}

/// A frame adds to each kind of text what the chunk in it says, and never changes the
/// schema or the blocks that the deltas belong to.
pub proof fn frames_tell_what_they_hold(state: SseView, frame: Seq<u8>, voice: Voice)
    ensures
        gathered(frame_taken(state, frame).pending, voice) == gathered(state.pending, voice)
            + frame_tells(state.schema, frame, voice),
        frame_taken(state, frame).schema == state.schema,
        frame_taken(state, frame).text_block_id == state.text_block_id,
        frame_taken(state, frame).thinking_block_id == state.thinking_block_id,
{
    let after = after_frame(state, frame);
    let data = data_of(frame);
    let before = gathered(state.pending, voice);
    let empty = Seq::<char>::empty();
    assert(before + empty =~= before);
    if vstd::utf8::valid_utf8(frame) && data.len() > 0 && data != "[DONE]"@ {
        if let Ok(chunk) = parsed_json(data) {
            chunks_tell_their_content_alone(state, chunk, voice);
            if !reports_error(chunk) {
                let found = chunks_give_their_events_in_order(state, chunk);
            }
        }
    }
    let taken = frame_taken(state, frame);
    if after.1 is Some {
        let middle = gathered(after.0.pending, voice);
        assert(taken.pending.drop_last() =~= after.0.pending);
        assert(middle + empty =~= middle);
    } else if vstd::utf8::valid_utf8(frame) && data == "[DONE]"@ {
        reveal_strlit("[DONE]");
        assert("[DONE]"@.len() == 6);
        assert(taken.pending.drop_last() =~= state.pending);
    }
}

/// Whether a buffer begins with frames and goes on with other bytes.
pub open spec fn begins_with(buffer: Seq<u8>, frames: Seq<Seq<u8>>, rest: Seq<u8>) -> bool
    decreases frames.len(),
{
    if frames.len() == 0 {
        rest == buffer
    } else {
        first_frame(buffer) matches Some((frame, behind)) && frame == frames[0] && begins_with(
            behind,
            frames.drop_first(),
            rest,
        )
    }
}

proof fn lemma_frames_tell_first(schema: Option<JsonView>, frames: Seq<Seq<u8>>, voice: Voice)
    requires
        frames.len() > 0,
    ensures
        frames_tell(schema, frames, voice) == frame_tells(schema, frames[0], voice) + frames_tell(
            schema,
            frames.drop_first(),
            voice,
        ),
    decreases frames.len(),
{
    let empty = Seq::<char>::empty();
    if frames.len() == 1 {
        assert(frames.drop_last() =~= Seq::empty());
        assert(frames.drop_first() =~= Seq::empty());
        assert(frames_tell(schema, frames.drop_last(), voice) == empty);
        assert(frames_tell(schema, frames, voice) =~= frame_tells(schema, frames[0], voice) + empty);
    } else {
        lemma_frames_tell_first(schema, frames.drop_last(), voice);
        assert(frames.drop_last().drop_first() =~= frames.drop_first().drop_last());
        assert(frames_tell(schema, frames, voice) =~= frame_tells(schema, frames[0], voice)
            + frames_tell(schema, frames.drop_first(), voice));
    }
}

/// A decoder that looks for an event takes whole frames from the front of its buffer,
/// and what it then has to tell is what it had before and what these frames hold.
pub proof fn decoders_tell_what_their_frames_hold(state: SseView, voice: Voice) -> (frames: Seq<
    Seq<u8>,
>)
    ensures
        begins_with(state.buffer, frames, pumped(state).buffer),
        gathered(pumped(state).pending, voice) == gathered(state.pending, voice) + frames_tell(
            state.schema,
            frames,
            voice,
        ),
        pumped(state).schema == state.schema,
    decreases state.buffer.len(),
{
    let before = gathered(state.pending, voice);
    assert(before + Seq::<char>::empty() =~= before);
    if state.pending.len() > 0 || state.closed {
        Seq::empty()
    } else {
        match first_frame(state.buffer) {
            None => Seq::empty(),
            Some((frame, rest)) => {
                lemma_pattern_from(state.buffer, crlf_delimiter(), 0);
                lemma_pattern_from(state.buffer, lf_delimiter(), 0);
                let left = SseView { buffer: rest, ..state };
                let next = frame_taken(left, frame);
                lemma_frame_keeps_buffer(left, frame);
                frames_tell_what_they_hold(left, frame, voice);
                let more = decoders_tell_what_their_frames_hold(next, voice);
                let frames = seq![frame] + more;
                assert(frames.drop_first() =~= more);
                lemma_frames_tell_first(state.schema, frames, voice);
                assert(before + frame_tells(state.schema, frame, voice) + frames_tell(
                    state.schema,
                    more,
                    voice,
                ) =~= before + frames_tell(state.schema, frames, voice));
                frames
            },
        }
    }
}

/// What a decoder hands out and what it still has to tell is together what it had to
/// tell before and what the frames hold that it took: nothing is lost, told twice or
/// told as something else.
pub proof fn nothing_told_is_lost(state: SseView, step: SseStep, after: SseView, voice: Voice) -> (frames:
    Seq<Seq<u8>>)
    requires
        step_outcome(pumped(state), step, after),
    ensures
        begins_with(state.buffer, frames, after.buffer),
        (match step {
            SseStep::Event(event) => added(event_view(event), voice),
            _ => Seq::empty(),
        }) + gathered(after.pending, voice) == gathered(state.pending, voice) + frames_tell(
            state.schema,
            frames,
            voice,
        ),
{
    let frames = decoders_tell_what_their_frames_hold(state, voice);
    let ready = pumped(state);
    if ready.pending.len() > 0 {
        let first = seq![ready.pending[0]];
        assert(ready.pending =~= first + ready.pending.drop_first());
        lemma_gathered_add(first, ready.pending.drop_first(), voice);
        lemma_single(first, voice);
    } else {
        assert(Seq::<char>::empty() + gathered(after.pending, voice) =~= gathered(
            after.pending,
            voice,
        ));
    }
    frames
}

/// At the end of input the bytes that are left are told as one frame, and the decoder
/// is closed.
pub proof fn last_frames_are_told(state: SseView, voice: Voice)
    ensures
        after_input_end(state).closed,
        gathered(after_input_end(state).pending, voice) == gathered(state.pending, voice)
            + if state.buffer.len() == 0 {
            Seq::empty()
        } else {
            frame_tells(state.schema, state.buffer, voice)
        },
{
    let left = SseView { buffer: Seq::empty(), ..state };
    let before = gathered(state.pending, voice);
    assert(before + Seq::<char>::empty() =~= before);
    let after = after_input_end(state);
    if state.buffer.len() > 0 {
        frames_tell_what_they_hold(left, state.buffer, voice);
        let taken = frame_taken(left, state.buffer);
        let middle = gathered(taken.pending, voice);
        assert(middle + Seq::<char>::empty() =~= middle);
        if !taken.closed {
            assert(after.pending.drop_last() =~= taken.pending);
        }
    } else {
        assert(after.pending.drop_last() =~= state.pending);
    }
}

/// The reason that a chunk gives is kept, by its name, and a chunk without one leaves
/// what was known. No chunk finishes a stream.
pub proof fn chunks_keep_their_reason(state: SseView, chunk: JsonView)
    requires
        !reports_error(chunk),
        after_data(state, Ok(chunk)).1 is None,
    ensures
        ({
            let after = after_data(state, Ok(chunk)).0;
            let choice = choice_in(chunk);
            let reason = choice["finish_reason"@];
            &&& !choice.contains_key("finish_reason"@) || reason is Null ==> after.finish_reason
                == state.finish_reason
            &&& choice.contains_key("finish_reason"@) && !(reason is Null) ==> {
                &&& reason is Text
                &&& reason->Text_0 == "stop"@ ==> after.finish_reason == Some(
                    FinishReason::Completed,
                )
                &&& reason->Text_0 == "length"@ ==> after.finish_reason == Some(
                    FinishReason::Length,
                )
                &&& reason->Text_0 == "tool_calls"@ || reason->Text_0 == "function_call"@
                    ==> after.finish_reason == Some(FinishReason::ToolCalls)
                &&& reason->Text_0 == "content_filter"@ ==> after.finish_reason == Some(
                    FinishReason::ContentFilter,
                )
            }
            &&& after.closed == state.closed
            &&& forall|i: int|
                state.pending.len() <= i < after.pending.len() ==> !(#[trigger] after.pending[i]
                    matches Ok(event) && event is Finished)
        }),
{
    let (usage, calls) = chunks_give_their_events_in_order(state, chunk);
    let after = after_data(state, Ok(chunk)).0;
    let choice = choice_in(chunk);
    if choice.contains_key("finish_reason"@) && choice["finish_reason"@] is Text {
        finish_reasons_are_read_by_name(choice["finish_reason"@]->Text_0);
    }
    let reasoned = reasoning_events(state, chunk);
    let spoken = content_events(state, chunk);
    let used = after_usage(state, chunk);
    let told = after_content(after_reasoning(used, delta_in(chunk)), delta_in(chunk));
    let gathered_calls = lemma_call_events(told, items_in(delta_in(chunk), "tool_calls"@));
    assert forall|i: int| state.pending.len() <= i < after.pending.len() implies !(
    #[trigger] after.pending[i] matches Ok(event) && event is Finished) by {
        let first = state.pending.len() + usage.len();
        let second = first + reasoned.len();
        let third = second + spoken.len();
        if i < first {
            assert(after.pending[i] == usage[i - state.pending.len()]);
        } else if i < second {
            assert(after.pending[i] == reasoned[i - first]);
        } else if i < third {
            assert(after.pending[i] == spoken[i - second]);
        } else {
            assert(after.pending[i] == calls[i - third]);
        }
    }
}

/// The end mark finishes a stream with the reason that the provider gave, as its last
/// event, and fails it where none was given. Either way the stream is closed.
pub proof fn end_marks_finish_with_the_given_reason(state: SseView, frame: Seq<u8>)
    requires
        vstd::utf8::valid_utf8(frame),
        data_of(frame) == "[DONE]"@,
    ensures
        ({
            let after = frame_taken(state, frame);
            &&& after.closed
            &&& match state.finish_reason {
                Some(reason) => after.pending == state.pending.push(
                    Ok(ChatEventView::Finished { reason }),
                ),
                None => after.pending.len() == state.pending.len() + 1 && after.pending.drop_last()
                    == state.pending && (after.pending.last() matches Err(error) && error.code
                    == Some("invalid_stream"@) && !error.retryable),
            }
        }),
{
    reveal_strlit("[DONE]");
    assert("[DONE]"@.len() == 6);
    let after = frame_taken(state, frame);
    assert(after == after_done(state));
    assert(after.pending.drop_last() =~= state.pending);
}

/// A frame that is no text, holds no JSON or reports a failure ends the stream with that
/// failure, behind what was due before.
pub proof fn broken_frames_end_the_stream(state: SseView, frame: Seq<u8>)
    requires
        !vstd::utf8::valid_utf8(frame) || (data_of(frame).len() > 0 && data_of(frame)
            != "[DONE]"@ && (parsed_json(data_of(frame)) matches Ok(chunk) ==> reports_error(
            chunk,
        ))),
    ensures
        ({
            let after = frame_taken(state, frame);
            &&& after.closed
            &&& after.pending.len() == state.pending.len() + 1
            &&& after.pending.drop_last() == state.pending
            &&& after.pending.last() is Err
            &&& !vstd::utf8::valid_utf8(frame) || parsed_json(data_of(frame)) is Err
                ==> after.pending.last()->Err_0.code == Some("invalid_stream"@)
            &&& vstd::utf8::valid_utf8(frame) ==> (parsed_json(data_of(frame)) matches Ok(
                JsonView::Object(chunk),
            ) ==> (chunk["error"@] matches JsonView::Object(reported) ==> {
                let error = after.pending.last()->Err_0;
                &&& text_in(reported, "message"@).len() > 0 ==> error.message == text_in(
                    reported,
                    "message"@,
                )
                &&& text_in(reported, "code"@).len() > 0 ==> error.code == Some(
                    text_in(reported, "code"@),
                )
                &&& !reported.contains_key("code"@) && text_in(reported, "type"@).len() > 0
                    ==> error.code == Some(text_in(reported, "type"@))
            }))
        }),
{
    let after = frame_taken(state, frame);
    assert(after.pending.drop_last() =~= state.pending);
}

/// What is known of a call that was announced under an identifier and a name.
pub open spec fn announced(id: Seq<char>, name: Seq<char>) -> PartialView {
    PartialView { id: Some(id), name: Some(name), announced: true }
}

/// A first delta of a tool call that says everything gives one event with its
/// identifier, its name and its arguments, whatever other calls are under way, and the
/// call is known from then on.
pub proof fn new_calls_are_announced(
    state: SseView,
    object: Map<Seq<char>, JsonView>,
    index: u64,
    id: Seq<char>,
    name: Seq<char>,
)
    requires
        object.contains_key("index"@) && object["index"@] == JsonView::Unsigned(index),
        object.contains_key("id"@) && object["id"@] == JsonView::Text(id),
        object_in(object, "function"@).contains_key("name"@),
        object_in(object, "function"@)["name"@] == JsonView::Text(name),
        !state.tool_calls.contains_key(index),
    ensures
        after_call_delta(state, JsonView::Object(object)) == (
            SseView {
                pending: state.pending.push(
                    Ok(
                        ChatEventView::ToolCallDelta {
                            tool_call_id: id,
                            tool_name: name,
                            delta: text_in(object_in(object, "function"@), "arguments"@),
                        },
                    ),
                ),
                tool_calls: state.tool_calls.insert(index, announced(id, name)),
                ..state
            },
            None::<ModelErrorView>,
        ),
{
}

/// A later delta of a call gives its arguments to that call, by its index, whatever
/// other calls are under way.
pub proof fn known_calls_gather_their_arguments(
    state: SseView,
    object: Map<Seq<char>, JsonView>,
    index: u64,
    id: Seq<char>,
    name: Seq<char>,
    arguments: Seq<char>,
)
    requires
        object.contains_key("index"@) && object["index"@] == JsonView::Unsigned(index),
        object.contains_key("id"@) ==> object["id"@] == JsonView::Text(id) || !(object["id"@]
            is Text),
        ({
            let function = object_in(object, "function"@);
            &&& function.contains_key("name"@) ==> function["name"@] == JsonView::Text(name) || !(
            function["name"@] is Text)
            &&& function.contains_key("arguments"@) && function["arguments"@] == JsonView::Text(
                arguments,
            )
        }),
        state.tool_calls.contains_key(index),
        state.tool_calls[index] == announced(id, name),
    ensures
        ({
            let after = after_call_delta(state, JsonView::Object(object));
            &&& after.1 is None
            &&& after.0.pending == state.pending.push(
                Ok(
                    ChatEventView::ToolCallDelta {
                        tool_call_id: id,
                        tool_name: name,
                        delta: arguments,
                    },
                ),
            )
            &&& after.0.tool_calls =~= state.tool_calls
        }),
{
}

/// A delta of one call leaves all others alone.
pub proof fn calls_are_kept_apart(
    state: SseView,
    object: Map<Seq<char>, JsonView>,
    index: u64,
    other: u64,
)
    requires
        object.contains_key("index"@) && object["index"@] == JsonView::Unsigned(index),
        other != index,
    ensures
        ({
            let after = after_call_delta(state, JsonView::Object(object)).0;
            &&& after.tool_calls.contains_key(other) <==> state.tool_calls.contains_key(other)
            &&& state.tool_calls.contains_key(other) ==> after.tool_calls[other]
                == state.tool_calls[other]
        }),
{
}

/// The tool calls of a chunk are taken in order: each of them finds what the ones before
/// it left, and the first that is wrong stops them.
pub proof fn calls_are_taken_in_order(state: SseView, first: Seq<JsonView>, second: Seq<JsonView>)
    ensures
        after_call_deltas(state, first).1 is None ==> after_call_deltas(state, first + second)
            == after_call_deltas(after_call_deltas(state, first).0, second),
        after_call_deltas(state, first).1 is Some ==> after_call_deltas(state, first + second)
            == after_call_deltas(state, first),
        first.len() == 1 ==> after_call_deltas(state, first) == after_call_delta(state, first[0]),
    decreases second.len(),
{
    if first.len() == 1 {
        assert(first.drop_last() =~= Seq::empty());
        assert(after_call_deltas(state, first.drop_last()) == (state, None::<ModelErrorView>));
    }
    if second.len() == 0 {
        assert(first + second =~= first);
    } else {
        calls_are_taken_in_order(state, first, second.drop_last());
        assert((first + second).drop_last() =~= first + second.drop_last());
    }
}

/// The tool calls of a chunk are those of its delta, taken behind its reasoning and its
/// content.
pub proof fn chunks_bring_their_calls(state: SseView, chunk: JsonView)
    requires
        !reports_error(chunk),
    ensures
        ({
            let items = items_in(delta_in(chunk), "tool_calls"@);
            let after = after_data(state, Ok(chunk));
            exists|told: SseView|
                told == (SseView { pending: told.pending, ..state }) && #[trigger]
                after_call_deltas(told, items).0.pending == after.0.pending && after_call_deltas(
                    told,
                    items,
                ).0.tool_calls == after.0.tool_calls && (after_call_deltas(told, items).1
                    is Some ==> after.1 is Some)
        }),
{
    let used = after_usage(state, chunk);
    let delta = delta_in(chunk);
    let told = after_content(after_reasoning(used, delta), delta);
    let items = items_in(delta, "tool_calls"@);
    assert(told == (SseView { pending: told.pending, ..state }));
    if items.len() == 0 {
        assert(after_call_deltas(told, items) == (told, None::<ModelErrorView>));
    }
    assert(after_call_deltas(told, items).0.pending == after_data(state, Ok(chunk)).0.pending);
}

/// Whether a blank line begins at a position: two line feeds, or two pairs of carriage
/// return and line feed.
pub open spec fn blank_line_at(bytes: Seq<u8>, position: int) -> bool {
    ||| position + 2 <= bytes.len() && bytes[position] == 10 && bytes[position + 1] == 10
    ||| position + 4 <= bytes.len() && bytes[position] == 13 && bytes[position + 1] == 10
        && bytes[position + 2] == 13 && bytes[position + 3] == 10
}

/// A frame is what stands before the first blank line, and what stands behind that line
/// is left.
pub proof fn frames_end_at_blank_lines(frame: Seq<u8>, line: Seq<u8>, rest: Seq<u8>)
    requires
        line == seq![10u8, 10u8] || line == seq![13u8, 10u8, 13u8, 10u8],
        forall|i: int| 0 <= i < frame.len() ==> !#[trigger] blank_line_at(frame + line + rest, i),
    ensures
        first_frame(frame + line + rest) == Some((frame, rest)),
{
    let bytes = frame + line + rest;
    let end = frame.len() as int;
    if line == seq![10u8, 10u8] {
        assert(bytes[end] == line[0] && bytes[end + 1] == line[1]);
        lemma_ends_with_feeds(bytes, end);
    } else {
        assert(bytes[end] == line[0] && bytes[end + 1] == line[1] && bytes[end + 2] == line[2]
            && bytes[end + 3] == line[3]);
        lemma_ends_with_returns(bytes, end);
    }
    assert(bytes.subrange(0, end) =~= frame);
    assert(bytes.subrange(end + line.len(), bytes.len() as int) =~= rest);
}

proof fn lemma_ends_with_feeds(bytes: Seq<u8>, end: int)
    requires
        0 <= end,
        end + 2 <= bytes.len(),
        bytes[end] == 10,
        bytes[end + 1] == 10,
        forall|i: int| 0 <= i < end ==> !#[trigger] blank_line_at(bytes, i),
    ensures
        delimiter(bytes) == Some((end, 2int)),
{
    lemma_delimiters(bytes, end);
    lemma_pattern_from(bytes, crlf_delimiter(), 0);
    lemma_pattern_from(bytes, lf_delimiter(), 0);
    assert(bytes.subrange(end, end + 2) =~= lf_delimiter());
    assert(stands_at(bytes, lf_delimiter(), end));
    assert(!stands_at(bytes, crlf_delimiter(), end)) by {
        if stands_at(bytes, crlf_delimiter(), end) {
            assert(bytes.subrange(end, end + 4)[0] == bytes[end]);
        }
    }
    assert(pattern_from(bytes, lf_delimiter(), 0) == Some(end));
}

proof fn lemma_ends_with_returns(bytes: Seq<u8>, end: int)
    requires
        0 <= end,
        end + 4 <= bytes.len(),
        bytes[end] == 13,
        bytes[end + 1] == 10,
        bytes[end + 2] == 13,
        bytes[end + 3] == 10,
        forall|i: int| 0 <= i < end ==> !#[trigger] blank_line_at(bytes, i),
    ensures
        delimiter(bytes) == Some((end, 4int)),
{
    lemma_delimiters(bytes, end);
    lemma_pattern_from(bytes, crlf_delimiter(), 0);
    lemma_pattern_from(bytes, lf_delimiter(), 0);
    assert(bytes.subrange(end, end + 4) =~= crlf_delimiter());
    assert(stands_at(bytes, crlf_delimiter(), end));
    assert(pattern_from(bytes, crlf_delimiter(), 0) == Some(end));
}

proof fn lemma_delimiters(bytes: Seq<u8>, end: int)
    requires
        forall|i: int| 0 <= i < end ==> !#[trigger] blank_line_at(bytes, i),
    ensures
        forall|i: int| 0 <= i < end ==> !#[trigger] stands_at(bytes, crlf_delimiter(), i),
        forall|i: int| 0 <= i < end ==> !#[trigger] stands_at(bytes, lf_delimiter(), i),
{
    assert forall|i: int| 0 <= i < end implies !#[trigger] stands_at(
        bytes,
        crlf_delimiter(),
        i,
    ) by {
        assert(!blank_line_at(bytes, i));
        if stands_at(bytes, crlf_delimiter(), i) {
            let window = bytes.subrange(i, i + 4);
            assert(window[0] == bytes[i] && window[1] == bytes[i + 1] && window[2] == bytes[i + 2]
                && window[3] == bytes[i + 3]);
        }
    }
    assert forall|i: int| 0 <= i < end implies !#[trigger] stands_at(bytes, lf_delimiter(), i) by {
        assert(!blank_line_at(bytes, i));
        if stands_at(bytes, lf_delimiter(), i) {
            let window = bytes.subrange(i, i + 2);
            assert(window[0] == bytes[i] && window[1] == bytes[i + 1]);
        }
    }
}

proof fn lemma_one_line(text: Seq<char>)
    requires
        text.len() > 0,
        forall|i: int| 0 <= i < text.len() ==> #[trigger] text[i] != '\n',
    ensures
        lines_of(text) == seq![text],
{
    lemma_char_from(text, '\n', 0);
    assert(char_from(text, '\n', 0) is None);
    assert(text.subrange(0, text.len() as int) =~= text);
}

/// A line that is marked as data carries what stands behind the mark, without the white
/// space before it; any other line carries nothing.
pub proof fn data_lines_carry_what_they_mark(line: Seq<char>)
    requires
        forall|i: int| 0 <= i < line.len() ==> #[trigger] line[i] != '\n',
    ensures
        frame_data("data:"@ + line) == trim_start_text(line),
        line.len() > 0 && !"data:"@.is_prefix_of(line) ==> frame_data(line) == Seq::<char>::empty(),
{
    reveal_strlit("data:");
    assert("data:"@.len() == 5);
    let marked = "data:"@ + line;
    assert forall|i: int| 0 <= i < marked.len() implies #[trigger] marked[i] != '\n' by {
        if i >= 5 {
            assert(marked[i] == line[i - 5]);
        } else {
            assert(marked[i] == "data:"@[i]);
            assert("data:"@[0] == 'd' && "data:"@[1] == 'a' && "data:"@[2] == 't' && "data:"@[3]
                == 'a' && "data:"@[4] == ':');
        }
    }
    lemma_one_line(marked);
    assert(marked.subrange(0, 5) =~= "data:"@);
    assert("data:"@.is_prefix_of(marked));
    assert(marked.subrange(5, marked.len() as int) =~= line);
    lemma_data_line(marked);
    assert(joined(seq![trim_start_text(line)], "\n"@) == trim_start_text(line));
    if line.len() > 0 && !"data:"@.is_prefix_of(line) {
        lemma_one_line(line);
        lemma_data_line(line);
    }
}

proof fn lemma_data_line(line: Seq<char>)
    ensures
        data_lines(seq![line]) == match without_prefix(line, "data:"@) {
            Some(data) => seq![trim_start_text(data)],
            None => Seq::empty(),
        },
{
    assert(seq![line].drop_last() =~= Seq::<Seq<char>>::empty());
    assert(data_lines(seq![line].drop_last()) == Seq::<Seq<char>>::empty());
    assert(seq![line].last() == line);
    if let Some(data) = without_prefix(line, "data:"@) {
        assert(data_lines(seq![line]) =~= seq![trim_start_text(data)]);
    }
}

/// The data of several lines is that of each of them, in order.
pub proof fn data_of_lines_is_joined(first: Seq<Seq<char>>, second: Seq<Seq<char>>)
    ensures
        data_lines(first + second) == data_lines(first) + data_lines(second),
    decreases second.len(),
{
    if second.len() == 0 {
        assert(first + second =~= first);
        assert(data_lines(first) + data_lines(second) =~= data_lines(first));
    } else {
        data_of_lines_is_joined(first, second.drop_last());
        assert((first + second).drop_last() =~= first + second.drop_last());
        assert(data_lines(first + second) =~= data_lines(first) + data_lines(second));
    }
}

} // verus!
