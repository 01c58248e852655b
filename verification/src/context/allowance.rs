//! What fits into a token budget, and how much of a conversation is kept for it.
use vstd::prelude::*;

use super::budget::{
    budgeted, cut_to_fit, estimated_tokens, heuristic_count, messages_have_data, untrimmed_fault,
    BudgetErrorView, TokenCount, TokenCountAccuracy, TokenCounter,
};
use super::retention::{lemma_turns, turns_in};
use super::{selected, turn_count};
use crate::json::{json_text, JsonView};
use crate::message::content::BlockView;
use crate::message::encode::block_json;
use crate::message::msg::MsgView;
use crate::message::role::Role;
use crate::message::tool_result::OutputView;
use crate::model::request::{OptionsView, RequestView, ToolView};
use crate::text::byte_len;

verus! {

/// A request that asks for at most some tokens and keeps some turns behind the
/// messages that are never cut.
pub open spec fn cut_to(request: RequestView, limit: u32, fixed: nat, turns: nat) -> RequestView {
    RequestView {
        messages: request.messages.take(fixed as int) + selected(
            request.messages.skip(fixed as int),
            turns,
        ),
        options: OptionsView { max_tokens: Some(limit), ..request.options },
        ..request
    }
}

/// A request that asks for at most some tokens.
pub open spec fn asking_for(request: RequestView, limit: u32) -> RequestView {
    RequestView {
        options: OptionsView { max_tokens: Some(limit), ..request.options },
        ..request
    }
}

/// Whether a request counts more than an allowance.
pub open spec fn is_too_large<C: TokenCounter>(
    counter: C,
    allowance: u64,
    request: RequestView,
) -> bool {
    counter.counted(request) is Ok && counter.counted(request)->Ok_0.tokens > allowance
}

/// Whether a request counts no more than an allowance.
pub open spec fn is_within<C: TokenCounter>(
    counter: C,
    allowance: u64,
    request: RequestView,
) -> bool {
    counter.counted(request) is Ok && counter.counted(request)->Ok_0.tokens <= allowance
}

/// A request is refused for its output limit if and only if that is none at all or
/// more than is reserved.
pub proof fn output_limits_stay_within_the_reservation<C: TokenCounter>(
    counter: C,
    allowance: u64,
    reserved: u32,
    request: RequestView,
    fixed: nat,
    limit: u32,
)
    requires
        request.options.max_tokens == Some(limit),
        limit == 0 || limit > reserved,
    ensures
        budgeted(counter, allowance, reserved, request, fixed) == Err::<
            RequestView,
            BudgetErrorView,
        >(BudgetErrorView::InvalidOutputLimit { requested: limit, reserved }),
        untrimmed_fault(counter, allowance, reserved, request) == Some(
            BudgetErrorView::InvalidOutputLimit { requested: limit, reserved },
        ),
{
}

/// Whether a request asks for a number of tokens: its own limit, or what is
/// reserved where it has none.
pub open spec fn asks_within(request: RequestView, reserved: u32, limit: u32) -> bool {
    &&& request.options.max_tokens == Some(limit) || (request.options.max_tokens is None && limit
        == reserved)
    &&& 0 < limit <= reserved
}

/// A request that fits as it stands goes out with all its messages, and with the
/// output limit set.
pub proof fn requests_that_fit_are_kept_whole<C: TokenCounter>(
    counter: C,
    allowance: u64,
    reserved: u32,
    request: RequestView,
    fixed: nat,
    limit: u32,
)
    requires
        asks_within(request, reserved, limit),
        is_within(counter, allowance, asking_for(request, limit)),
    ensures
        budgeted(counter, allowance, reserved, request, fixed) == Ok::<
            RequestView,
            BudgetErrorView,
        >(asking_for(request, limit)),
        untrimmed_fault(counter, allowance, reserved, request) is None,
{
}

proof fn lemma_cut<C: TokenCounter>(
    counter: C,
    allowance: u64,
    reserved: u32,
    whole: RequestView,
    limit: u32,
    fixed: nat,
    request: RequestView,
    count: TokenCount,
    turns: nat,
) -> (kept: nat)
    requires
        request == (RequestView { messages: request.messages, ..asking_for(whole, limit) }),
        counter.counted(request) == Ok::<TokenCount, BudgetErrorView>(count),
        count.tokens > allowance,
    ensures
        ({
            let head = whole.messages.take(fixed as int);
            let history = whole.messages.skip(fixed as int);
            match cut_to_fit(
                counter,
                allowance,
                reserved,
                head,
                history,
                request,
                count,
                turns,
            ) {
                Ok(fitting) => {
                    &&& 1 <= kept <= turns
                    &&& fitting == cut_to(whole, limit, fixed, kept)
                    &&& is_within(counter, allowance, fitting)
                    &&& forall|more: nat|
                        kept < more <= turns ==> is_too_large(
                            counter,
                            allowance,
                            #[trigger] cut_to(whole, limit, fixed, more),
                        )
                },
                Err(BudgetErrorView::Exceeded { input, input_limit, reserved_output }) => {
                    ||| counter.counted(cut_to(whole, limit, fixed, kept)) == Err::<
                        TokenCount,
                        BudgetErrorView,
                    >(BudgetErrorView::Exceeded { input, input_limit, reserved_output })
                    ||| {
                        &&& input_limit == allowance
                        &&& reserved_output == reserved
                        &&& input.tokens > allowance
                        &&& turns == 0 ==> input == count
                        &&& turns > 0 ==> counter.counted(cut_to(whole, limit, fixed, 1)) == Ok::<
                            TokenCount,
                            BudgetErrorView,
                        >(input)
                        &&& forall|more: nat|
                            1 <= more <= turns ==> is_too_large(
                                counter,
                                allowance,
                                #[trigger] cut_to(whole, limit, fixed, more),
                            )
                    }
                },
                Err(error) => counter.counted(cut_to(whole, limit, fixed, kept)) == Err::<
                    TokenCount,
                    BudgetErrorView,
                >(error),
            }
        }),
    decreases turns,
{
    if turns == 0 {
        0
    } else {
        let head = whole.messages.take(fixed as int);
        let history = whole.messages.skip(fixed as int);
        let messages = head + selected(history, turns);
        let next = RequestView { messages, ..request };
        assert(next == cut_to(whole, limit, fixed, turns));
        if messages == request.messages {
            assert(next == request);
            lemma_cut(
                counter,
                allowance,
                reserved,
                whole,
                limit,
                fixed,
                request,
                count,
                (turns - 1) as nat,
            )
        } else {
            match counter.counted(next) {
                Err(_) => turns,
                Ok(count) => if count.tokens <= allowance {
                    turns
                } else {
                    lemma_cut(
                        counter,
                        allowance,
                        reserved,
                        whole,
                        limit,
                        fixed,
                        next,
                        count,
                        (turns - 1) as nat,
                    )
                },
            }
        }
    }
}

/// A request that does not fit keeps the most turns that fit: whatever keeps more of
/// them counts too much. The messages that are never cut stay in front, and nothing
/// but messages is cut.
pub proof fn as_many_turns_as_fit_are_kept<C: TokenCounter>(
    counter: C,
    allowance: u64,
    reserved: u32,
    request: RequestView,
    fixed: nat,
    limit: u32,
    fitting: RequestView,
)
    requires
        asks_within(request, reserved, limit),
        is_too_large(counter, allowance, asking_for(request, limit)),
        budgeted(counter, allowance, reserved, request, fixed) == Ok::<
            RequestView,
            BudgetErrorView,
        >(fitting),
    ensures
        is_within(counter, allowance, fitting),
        exists|turns: nat|
            1 <= turns < turns_in(request.messages.skip(fixed as int)) && fitting
                == #[trigger] cut_to(request, limit, fixed, turns) && forall|more: nat|
                turns < more < turns_in(request.messages.skip(fixed as int)) ==> is_too_large(
                    counter,
                    allowance,
                    #[trigger] cut_to(request, limit, fixed, more),
                ),
{
    let history = request.messages.skip(fixed as int);
    lemma_turns(history);
    let capped = asking_for(request, limit);
    let all = turn_count(history);
    let turns = if all == 0 {
        0
    } else {
        (all - 1) as nat
    };
    let kept = lemma_cut(
        counter,
        allowance,
        reserved,
        request,
        limit,
        fixed,
        capped,
        counter.counted(capped)->Ok_0,
        turns,
    );
    assert(fitting == cut_to(request, limit, fixed, kept));
}

/// A request is refused as too large only where even its last turn does not fit, and
/// then with the count of what keeps that turn alone; any other refusal is the
/// counter's own.
pub proof fn requests_are_too_large_with_one_turn<C: TokenCounter>(
    counter: C,
    allowance: u64,
    reserved: u32,
    request: RequestView,
    fixed: nat,
    limit: u32,
    error: BudgetErrorView,
)
    requires
        asks_within(request, reserved, limit),
        is_too_large(counter, allowance, asking_for(request, limit)),
        budgeted(counter, allowance, reserved, request, fixed) == Err::<
            RequestView,
            BudgetErrorView,
        >(error),
    ensures
        (exists|turns: nat|
            counter.counted(#[trigger] cut_to(request, limit, fixed, turns)) == Err::<
                TokenCount,
                BudgetErrorView,
            >(error)) || {
            &&& error is Exceeded
            &&& error->input_limit == allowance
            &&& error->reserved_output == reserved
            &&& turns_in(request.messages.skip(fixed as int)) > 1 ==> counter.counted(
                cut_to(request, limit, fixed, 1),
            ) == Ok::<TokenCount, BudgetErrorView>(error->input)
            &&& turns_in(request.messages.skip(fixed as int)) <= 1 ==> counter.counted(
                asking_for(request, limit),
            ) == Ok::<TokenCount, BudgetErrorView>(error->input)
            &&& forall|turns: nat|
                1 <= turns < turns_in(request.messages.skip(fixed as int)) ==> is_too_large(
                    counter,
                    allowance,
                    #[trigger] cut_to(request, limit, fixed, turns),
                )
        },
{
    let history = request.messages.skip(fixed as int);
    lemma_turns(history);
    let capped = asking_for(request, limit);
    let all = turn_count(history);
    let turns = if all == 0 {
        0
    } else {
        (all - 1) as nat
    };
    let kept = lemma_cut(
        counter,
        allowance,
        reserved,
        request,
        limit,
        fixed,
        capped,
        counter.counted(capped)->Ok_0,
        turns,
    );
    if counter.counted(cut_to(request, limit, fixed, kept)) == Err::<TokenCount, BudgetErrorView>(
        error,
    ) {
        assert(exists|turns: nat|
            counter.counted(#[trigger] cut_to(request, limit, fixed, turns)) == Err::<
                TokenCount,
                BudgetErrorView,
            >(error));
    }
}

/// A request that may not be cut is refused if and only if it does not fit as it
/// stands.
pub proof fn uncut_requests_fit_or_are_refused<C: TokenCounter>(
    counter: C,
    allowance: u64,
    reserved: u32,
    request: RequestView,
    limit: u32,
)
    requires
        asks_within(request, reserved, limit),
    ensures
        untrimmed_fault(counter, allowance, reserved, request) is None <==> is_within(
            counter,
            allowance,
            asking_for(request, limit),
        ),
        is_too_large(counter, allowance, asking_for(request, limit)) ==> untrimmed_fault(
            counter,
            allowance,
            reserved,
            request,
        ) == Some(
            BudgetErrorView::Exceeded {
                input: counter.counted(asking_for(request, limit))->Ok_0,
                input_limit: allowance,
                reserved_output: reserved,
            },
        ),
        counter.counted(asking_for(request, limit)) is Err ==> untrimmed_fault(
            counter,
            allowance,
            reserved,
            request,
        ) == Some(counter.counted(asking_for(request, limit))->Err_0),
{
}

/// The estimate takes three bytes to a token, rounds up, and adds sixteen.
pub proof fn three_bytes_make_a_token(bytes: nat)
    requires
        bytes <= 3 * (u64::MAX - 16),
    ensures
        estimated_tokens(bytes) >= 16,
        3 * (estimated_tokens(bytes) - 16) >= bytes,
        bytes > 0 ==> 3 * (estimated_tokens(bytes) - 17) < bytes,
        bytes == 0 ==> estimated_tokens(bytes) == 16,
{
}

/// Whether a block holds data, itself or in a tool's output.
pub open spec fn shows_data(block: BlockView) -> bool {
    ||| block is Data
    ||| block is ToolResult && block->ToolResult_0.output is Blocks && exists|i: int|
        0 <= i < block->ToolResult_0.output->Blocks_0.len() && (
        #[trigger] block->ToolResult_0.output->Blocks_0[i]) is Data
}

/// The heuristic counts who says what, the tools, the schema and the provider's own
/// options, as JSON text, and refuses data wherever it stands.
pub proof fn requests_are_counted_by_their_text(request: RequestView)
    ensures
        heuristic_count(request) is Err <==> exists|i: int, j: int|
            0 <= i < request.messages.len() && 0 <= j < request.messages[i].content.len()
                && shows_data(#[trigger] request.messages[i].content[j]),
        heuristic_count(request) is Err ==> heuristic_count(request) == Err::<
            TokenCount,
            BudgetErrorView,
        >(BudgetErrorView::UnsupportedContent),
        heuristic_count(request) matches Ok(count) ==> count.accuracy
            == TokenCountAccuracy::Estimated && count.tokens == estimated_tokens(
            byte_len(
                json_text(
                    JsonView::Object(
                        map![
                            "messages"@ => JsonView::Array(
                                request.messages.map_values(|msg: MsgView| text_counted(msg)),
                            ),
                            "tools"@ => JsonView::Array(
                                request.tools.map_values(
                                    |tool: ToolView|
                                        JsonView::Object(
                                            map![
                                                "name"@ => JsonView::Text(tool.name),
                                                "description"@ => JsonView::Text(tool.description),
                                                "input_schema"@ => tool.input_schema
                                            ],
                                        ),
                                ),
                            ),
                            "structured_output_schema"@ => if request.structured_output_schema
                                is Some {
                                request.structured_output_schema->Some_0
                            } else {
                                JsonView::Null
                            },
                            "extra"@ => JsonView::Object(request.options.extra)
                        ],
                    ),
                ),
            ),
        ),
{
    let msgs = request.messages;
    assert(messages_have_data(msgs) <==> exists|i: int, j: int|
        0 <= i < msgs.len() && 0 <= j < msgs[i].content.len() && shows_data(
            #[trigger] msgs[i].content[j],
        )) by {
        if messages_have_data(msgs) {
            let i = choose|i: int|
                0 <= i < msgs.len() && #[trigger] super::budget::message_has_data(msgs[i]);
            let j = choose|j: int|
                0 <= j < msgs[i].content.len() && #[trigger] super::budget::block_has_data(
                    msgs[i].content[j],
                );
            lemma_shows_data(msgs[i].content[j]);
        }
        if exists|i: int, j: int|
            0 <= i < msgs.len() && 0 <= j < msgs[i].content.len() && shows_data(
                #[trigger] msgs[i].content[j],
            ) {
            let (i, j) = choose|i: int, j: int|
                0 <= i < msgs.len() && 0 <= j < msgs[i].content.len() && shows_data(
                    #[trigger] msgs[i].content[j],
                );
            lemma_shows_data(msgs[i].content[j]);
            assert(super::budget::message_has_data(msgs[i]));
        }
    }
    assert(msgs.map_values(|msg: MsgView| super::budget::counted_message(msg))
        =~= msgs.map_values(|msg: MsgView| text_counted(msg)));
    assert(request.tools.map_values(|tool: ToolView| super::budget::counted_tool(tool))
        =~= request.tools.map_values(
        |tool: ToolView|
            JsonView::Object(
                map![
                    "name"@ => JsonView::Text(tool.name),
                    "description"@ => JsonView::Text(tool.description),
                    "input_schema"@ => tool.input_schema
                ],
            ),
    ));
}

/// What of a message is counted.
pub open spec fn text_counted(msg: MsgView) -> JsonView {
    JsonView::Object(
        map![
            "role"@ => JsonView::Text(
                if msg.role == Role::User {
                    "user"@
                } else if msg.role == Role::Assistant {
                    "assistant"@
                } else {
                    "system"@
                },
            ),
            "name"@ => JsonView::Text(msg.name),
            "content"@ => JsonView::Array(
                msg.content.map_values(|block: BlockView| block_json(block)),
            )
        ],
    )
}

proof fn lemma_shows_data(block: BlockView)
    ensures
        super::budget::block_has_data(block) <==> shows_data(block),
{
    if let BlockView::ToolResult(result) = block {
        if let OutputView::Blocks(blocks) = result.output {
            assert(super::budget::block_has_data(block) <==> exists|i: int|
                0 <= i < blocks.len() && (#[trigger] blocks[i]) is Data);
        }
    }
}

} // verus!
