//! What is moved out of a conversation, what stands in its place, and how it is
//! read again.
use vstd::prelude::*;
use vstd::utf8::{encode_utf8, is_char_boundary};

use super::offload::{
    boundary_upto, chunk_answers, first_end, fitting_end, is_offload_id, needs_offload,
    offloaded_output, read_reply, read_request, reader_schema, reference_text, text_upto,
    OffloadView, OffloadedTextChunk, ReadView,
};
use crate::json::{json_text, JsonView};
use crate::message::content::BlockView;
use crate::message::tool_result::ToolResultState;
use crate::text::byte_len;

verus! {

/// A result is moved out if and only if its tool succeeded with a raw text of more
/// bytes than the threshold, and was not the one that reads such texts.
pub proof fn large_texts_of_success_are_moved_out(limits: OffloadView, block: BlockView)
    ensures
        needs_offload(limits, block) <==> {
            &&& block is ToolResult
            &&& block->ToolResult_0.state == ToolResultState::Success
            &&& block->ToolResult_0.name != "read_offloaded_text"@
            &&& block->ToolResult_0.output is Text
            &&& encode_utf8(block->ToolResult_0.output->Text_0).len() > limits.threshold
        },
{
}

/// An identifier is one to a hundred and twenty-eight letters, digits, hyphens and
/// underscores.
pub proof fn identifiers_are_plain(id: Seq<char>)
    ensures
        is_offload_id(id) <==> {
            &&& 1 <= id.len() <= 128
            &&& forall|i: int| #![trigger id[i]]
                0 <= i < id.len() ==> {
                    ||| 97 <= id[i] as int <= 122
                    ||| 65 <= id[i] as int <= 90
                    ||| 48 <= id[i] as int <= 57
                    ||| id[i] as int == 45
                    ||| id[i] as int == 95
                }
        },
{
    assert forall|i: int| #![trigger id[i]]
        0 <= i < id.len() implies (super::offload::is_id_char(id[i]) <==> {
        ||| 97 <= id[i] as int <= 122
        ||| 65 <= id[i] as int <= 90
        ||| 48 <= id[i] as int <= 57
        ||| id[i] as int == 45
        ||| id[i] as int == 95
    }) by {}
}

/// What stands for a text: where it is kept, how long it is, how it begins, and how
/// to read it.
pub open spec fn names_its_place(
    limits: OffloadView,
    id: Seq<char>,
    text: Seq<char>,
    end: int,
    preview: Seq<char>,
) -> JsonView {
    JsonView::Object(
        map![
            "offloaded_text"@ => JsonView::Object(
                map![
                    "id"@ => JsonView::Text(id),
                    "total_bytes"@ => JsonView::Unsigned(encode_utf8(text).len() as u64),
                    "preview"@ => JsonView::Text(preview),
                    "preview_bytes"@ => JsonView::Unsigned(end as u64),
                    "read_tool"@ => JsonView::Text("read_offloaded_text"@),
                    "max_read_bytes"@ => JsonView::Unsigned(limits.read_limit as u64)
                ],
            )
        ],
    )
}

/// Whether a position is the last character boundary up to a number of bytes.
pub open spec fn is_last_boundary(bytes: Seq<u8>, most: int, end: int) -> bool {
    &&& 0 <= end <= most
    &&& is_char_boundary(bytes, end)
    &&& forall|i: int| end < i <= most ==> !#[trigger] is_char_boundary(bytes, i)
}

proof fn lemma_boundary(bytes: Seq<u8>, most: int)
    requires
        0 <= most,
        is_char_boundary(bytes, 0),
    ensures
        is_last_boundary(bytes, most, boundary_upto(bytes, most)),
    decreases most,
{
    if most > 0 && !is_char_boundary(bytes, most) {
        lemma_boundary(bytes, most - 1);
        let end = boundary_upto(bytes, most - 1);
        assert forall|i: int| end < i <= most implies !#[trigger] is_char_boundary(bytes, i) by {
            if i < most {
                assert(is_last_boundary(bytes, most - 1, end));
            }
        }
    }
}

proof fn lemma_fitting(limits: OffloadView, id: Seq<char>, text: Seq<char>, end: int)
    requires
        0 <= end <= encode_utf8(text).len(),
        is_char_boundary(encode_utf8(text), end),
    ensures
        0 <= fitting_end(limits, id, text, end) <= end,
        is_char_boundary(encode_utf8(text), fitting_end(limits, id, text, end)),
    decreases end,
{
    let bytes = encode_utf8(text);
    vstd::utf8::encode_utf8_valid_utf8(text);
    vstd::utf8::is_char_boundary_start_end_of_seq(bytes);
    if end > 0 && byte_len(reference_text(limits, id, text, end)) > limits.threshold {
        lemma_boundary(bytes, end / 2);
        lemma_fitting(limits, id, text, boundary_upto(bytes, end / 2));
    }
}

/// What stands for a text that was moved out shows a true beginning of it: whole
/// characters, no more bytes than the preview may have, and as many of them as fit
/// where the reference with them is no larger than the threshold.
pub proof fn references_show_a_true_beginning(
    limits: OffloadView,
    id: Seq<char>,
    text: Seq<char>,
) -> (end: int)
    ensures
        0 <= end <= limits.preview,
        end <= encode_utf8(text).len(),
        is_char_boundary(encode_utf8(text), end),
        encode_utf8(text_upto(text, end)) == encode_utf8(text).subrange(0, end),
        offloaded_output(limits, id, text) == json_text(
            names_its_place(limits, id, text, end, text_upto(text, end)),
        ),
        forall|most: int, longest: int|
            (most == limits.preview || most == encode_utf8(text).len()) && most <= limits.preview
                && most <= encode_utf8(text).len() && #[trigger] is_last_boundary(
                encode_utf8(text),
                most,
                longest,
            ) && encode_utf8(
                json_text(names_its_place(limits, id, text, longest, text_upto(text, longest))),
            ).len() <= limits.threshold ==> end == longest,
{
    let bytes = encode_utf8(text);
    vstd::utf8::encode_utf8_valid_utf8(text);
    vstd::utf8::is_char_boundary_start_end_of_seq(bytes);
    let allowed = if limits.preview < bytes.len() {
        limits.preview as int
    } else {
        bytes.len() as int
    };
    lemma_boundary(bytes, allowed);
    let first = first_end(limits, text);
    lemma_fitting(limits, id, text, first);
    let end = fitting_end(limits, id, text, first);
    vstd::utf8::valid_utf8_split(bytes, end);
    vstd::utf8::decode_utf8_encode_utf8(bytes.subrange(0, end));
    assert forall|most: int, longest: int|
        (most == limits.preview || most == bytes.len()) && most <= limits.preview && most
            <= bytes.len() && #[trigger] is_last_boundary(bytes, most, longest) && encode_utf8(
            json_text(names_its_place(limits, id, text, longest, text_upto(text, longest))),
        ).len() <= limits.threshold implies end == longest by {
        assert(most == allowed);
        assert(longest == first) by {
            if longest < first {
                assert(!is_char_boundary(bytes, first));
            }
            if first < longest {
                assert(!is_char_boundary(bytes, longest));
            }
        }
    }
    end
}

/// A reader is asked with an identifier, an offset and a number of bytes from four
/// up to the limit, all under their names; nothing else is understood.
pub proof fn reads_name_a_place_and_a_size(limits: OffloadView, input: JsonView, request: ReadView)
    ensures
        read_request(limits, input) == Some(request) ==> {
            &&& input is Object
            &&& input->Object_0.contains_pair("id"@, JsonView::Text(request.id))
            &&& input->Object_0.contains_pair(
                "offset"@,
                JsonView::Unsigned(request.offset as u64),
            )
            &&& input->Object_0.contains_pair(
                "max_bytes"@,
                JsonView::Unsigned(request.limit as u64),
            )
            &&& 4 <= request.limit <= limits.read_limit
        },
        input is Object && input->Object_0.contains_pair("id"@, JsonView::Text(request.id))
            && input->Object_0.contains_pair("offset"@, JsonView::Unsigned(request.offset as u64))
            && input->Object_0.contains_pair("max_bytes"@, JsonView::Unsigned(request.limit as u64))
            && request.offset <= usize::MAX && 4 <= request.limit <= limits.read_limit
            && request.limit <= usize::MAX && usize::MAX <= u64::MAX ==> read_request(
            limits,
            input,
        ) == Some(request),
        input is Object && input->Object_0.contains_pair(
            "max_bytes"@,
            JsonView::Unsigned(request.limit as u64),
        ) && request.limit <= u64::MAX && !(4 <= request.limit <= limits.read_limit)
            ==> read_request(limits, input) is None,
        !(input is Object) ==> read_request(limits, input) is None,
{
}

/// The reader tells the model what it takes: an identifier, an offset, and a number
/// of bytes from four up to the limit, all of them and nothing else.
pub proof fn readers_say_what_they_take(limits: OffloadView)
    ensures
        reader_schema(limits) is Object,
        reader_schema(limits)->Object_0["required"@] == JsonView::Array(
            seq![JsonView::Text("id"@), JsonView::Text("offset"@), JsonView::Text("max_bytes"@)],
        ),
        reader_schema(limits)->Object_0["additionalProperties"@] == JsonView::Bool(false),
        reader_schema(limits)->Object_0["properties"@]->Object_0["max_bytes"@]->Object_0["maximum"@]
            == JsonView::Unsigned(limits.read_limit as u64),
        reader_schema(limits)->Object_0["properties"@]->Object_0["max_bytes"@]->Object_0["minimum"@]
            == JsonView::Unsigned(4),
        reader_schema(limits)->Object_0["properties"@]->Object_0["offset"@]->Object_0["minimum"@]
            == JsonView::Unsigned(0),
        reader_schema(limits)->Object_0["properties"@]->Object_0["id"@]->Object_0["type"@]
            == JsonView::Text("string"@),
{
    reveal_strlit("type");
    reveal_strlit("properties");
    reveal_strlit("required");
    reveal_strlit("additionalProperties");
    reveal_strlit("id");
    reveal_strlit("offset");
    reveal_strlit("max_bytes");
    reveal_strlit("minimum");
    reveal_strlit("maximum");
    assert("type"@.len() == 4);
    assert("properties"@.len() == 10);
    assert("required"@.len() == 8);
    assert("additionalProperties"@.len() == 20);
    assert("id"@.len() == 2);
    assert("offset"@.len() == 6);
    assert("max_bytes"@.len() == 9);
    assert("minimum"@.len() == 7 && "minimum"@[1] == 'i');
    assert("maximum"@.len() == 7 && "maximum"@[1] == 'a');
}

/// A chunk answers a request if and only if it holds no more bytes than were asked
/// for, the next offset is where it ends, and that is not behind the end.
pub proof fn chunks_follow_their_request(request: ReadView, chunk: OffloadedTextChunk)
    requires
        request.offset + encode_utf8(chunk.text@).len() <= usize::MAX,
    ensures
        chunk_answers(request, chunk) <==> {
            &&& encode_utf8(chunk.text@).len() <= request.limit
            &&& chunk.next_offset == request.offset + encode_utf8(chunk.text@).len()
            &&& chunk.next_offset <= chunk.total_bytes
        },
        read_reply(request, chunk) is Object,
        read_reply(request, chunk)->Object_0.contains_pair("id"@, JsonView::Text(request.id)),
        read_reply(request, chunk)->Object_0.contains_pair("text"@, JsonView::Text(chunk.text@)),
        read_reply(request, chunk)->Object_0.contains_pair(
            "next_offset"@,
            JsonView::Unsigned(chunk.next_offset as u64),
        ),
        read_reply(request, chunk)->Object_0.contains_pair(
            "total_bytes"@,
            JsonView::Unsigned(chunk.total_bytes as u64),
        ),
        chunk_answers(request, chunk) && chunk.next_offset == chunk.total_bytes ==> read_reply(
            request,
            chunk,
        )->Object_0.contains_pair("eof"@, JsonView::Bool(true)),
        chunk.next_offset != chunk.total_bytes ==> read_reply(
            request,
            chunk,
        )->Object_0.contains_pair("eof"@, JsonView::Bool(false)),
{
    lemma_reply_keys();
}

proof fn lemma_reply_keys()
    ensures
        "id"@ != "text"@,
        "id"@ != "next_offset"@,
        "id"@ != "total_bytes"@,
        "id"@ != "eof"@,
        "text"@ != "next_offset"@,
        "text"@ != "total_bytes"@,
        "text"@ != "eof"@,
        "next_offset"@ != "total_bytes"@,
        "next_offset"@ != "eof"@,
        "total_bytes"@ != "eof"@,
{
    reveal_strlit("id");
    reveal_strlit("text");
    reveal_strlit("next_offset");
    reveal_strlit("total_bytes");
    reveal_strlit("eof");
    assert("id"@.len() == 2);
    assert("text"@.len() == 4);
    assert("next_offset"@.len() == 11 && "next_offset"@[0] == 'n');
    assert("total_bytes"@.len() == 11 && "total_bytes"@[0] == 't');
    assert("eof"@.len() == 3);
}

} // verus!
