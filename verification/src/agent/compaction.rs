//! Summaries of old history: what they cover, how they are used and when they are
//! kept.
use vstd::prelude::*;

use super::error::{AgentError, AgentErrorView, AgentResult};
use super::state::{AgentState, StateView};
use crate::context::budget::{
    count_bytes, untrimmed_fault, TokenBudget, TokenBudgetError, TokenCounter,
};
use crate::context::summary::{
    fingerprint_of, is_completed, new_summary_fault, summary_fault, summary_introduction,
    validate_completed, ContextSummary, SummaryError, SummaryErrorView, SummaryView,
};
use crate::context::{copy_messages, keep_from, kept_from, selected, ContextPolicy, RecentTurns};
use crate::message::msg::{is_new_text_msg, Msg, MsgView};
use crate::message::role::Role;
use crate::message::source::{messages_source, source_text};
use crate::model::request::{ChatRequest, RequestView};
use crate::text::{byte_len, same_text};
use crate::view::{view_option, views};

verus! {

/// Whether one of some messages has an identifier.
pub open spec fn has_message(msgs: Seq<MsgView>, id: Seq<char>) -> bool {
    exists|i: int| 0 <= i < msgs.len() && (#[trigger] msgs[i]).id == id
}

/// The first position from an index on of a message that is among the kept ones
/// and no system message, or the start.
pub open spec fn first_kept(msgs: Seq<MsgView>, kept: Seq<MsgView>, index: int) -> int
    decreases msgs.len() - index,
{
    if index >= msgs.len() {
        0
    } else if msgs[index].role != Role::System && has_message(kept, msgs[index].id) {
        index
    } else {
        first_kept(msgs, kept, index + 1)
    }
}

/// How many messages stand before the last turns.
pub open spec fn prefix_end(msgs: Seq<MsgView>, keep_recent_turns: nat) -> int {
    first_kept(msgs, selected(msgs, keep_recent_turns), 0)
}

/// Whether some message is no system message.
pub open spec fn has_substance(msgs: Seq<MsgView>) -> bool {
    exists|i: int| 0 <= i < msgs.len() && (#[trigger] msgs[i]).role != Role::System
}

/// How many messages a new summary is to cover, if there is something new to
/// summarize; or why there is none.
pub open spec fn planned_summary(
    state: StateView,
    keep_recent_turns: nat,
    has_summarizer: bool,
    interrupted: bool,
) -> Result<Option<nat>, AgentErrorView> {
    let end = prefix_end(state.messages, keep_recent_turns);
    if keep_recent_turns == 0 {
        Err(AgentErrorView::Summary(SummaryErrorView::ZeroRecentTurns))
    } else if state.pending_tool_calls is Some || state.pending_tool_execution is Some {
        Err(AgentErrorView::Summary(SummaryErrorView::PendingTools))
    } else if state.context_summary is Some && summary_fault(
        state.context_summary->Some_0,
        state.messages,
    ) is Some {
        Err(
            AgentErrorView::Summary(
                summary_fault(state.context_summary->Some_0, state.messages)->Some_0,
            ),
        )
    } else if !has_substance(state.messages.take(end)) || (state.context_summary is Some
        && state.context_summary->Some_0.covered_messages >= end) {
        Ok(None)
    } else if !is_completed(state.messages.take(end)) {
        Err(AgentErrorView::Summary(SummaryErrorView::IncompleteHistory))
    } else if !has_summarizer {
        Err(AgentErrorView::Summary(SummaryErrorView::NotConfigured))
    } else if interrupted {
        Err(AgentErrorView::Interrupted)
    } else {
        Ok(Some(end as nat))
    }
}

fn contains_message(messages: &Vec<Msg>, id: &str) -> (found: bool)
    ensures
        found == has_message(views(messages@), id@),
{
    let ghost all = views(messages@);
    let mut i: usize = 0;
    while i < messages.len()
        invariant
            i <= messages@.len(),
            all == views(messages@),
            forall|j: int| 0 <= j < i ==> (#[trigger] all[j]).id != id@,
        decreases messages@.len() - i,
    {
        assert(all[i as int] == messages@[i as int]@);
        if same_text(messages[i].id.as_str(), id) {
            return true;
        }
        i += 1;
    }
    false
}

fn find_first_kept(messages: &Vec<Msg>, kept: &Vec<Msg>) -> (index: usize)
    ensures
        index == first_kept(views(messages@), views(kept@), 0),
        index <= messages@.len(),
{
    let ghost all = views(messages@);
    let mut i: usize = 0;
    while i < messages.len()
        invariant
            i <= messages@.len(),
            all == views(messages@),
            first_kept(all, views(kept@), 0) == first_kept(all, views(kept@), i as int),
        decreases messages@.len() - i,
    {
        assert(all[i as int] == messages@[i as int]@);
        if !matches!(messages[i].role, Role::System) && contains_message(
            kept,
            messages[i].id.as_str(),
        ) {
            return i;
        }
        i += 1;
    }
    0
}

fn any_substance(messages: &Vec<Msg>, end: usize) -> (found: bool)
    requires
        end <= messages@.len(),
    ensures
        found == has_substance(views(messages@).take(end as int)),
{
    let ghost prefix = views(messages@).take(end as int);
    let mut i: usize = 0;
    while i < end
        invariant
            i <= end <= messages@.len(),
            prefix == views(messages@).take(end as int),
            forall|j: int| 0 <= j < i ==> (#[trigger] prefix[j]).role == Role::System,
        decreases end - i,
    {
        assert(prefix[i as int] == messages@[i as int]@);
        if !matches!(messages[i].role, Role::System) {
            return true;
        }
        i += 1;
    }
    false
}

/// How many messages of a snapshot a new summary is to cover, if there is something
/// new to summarize.
pub fn plan_summary(
    state: &AgentState,
    keep_recent_turns: usize,
    has_summarizer: bool,
    interrupted: bool,
) -> (result: AgentResult<Option<usize>>)
    ensures
        match (result, planned_summary(
            state@,
            keep_recent_turns as nat,
            has_summarizer,
            interrupted,
        )) {
            (Ok(None), Ok(None)) => true,
            (Ok(Some(end)), Ok(Some(covered))) => end == covered && end <= state@.messages.len(),
            (Err(error), Err(fault)) => error@ == fault,
            _ => false,
        },
{
    let policy = match RecentTurns::new(keep_recent_turns) {
        Err(_) => {
            return Err(AgentError::Summary(SummaryError::ZeroRecentTurns));
        },
        Ok(policy) => policy,
    };
    if state.pending_tool_calls().is_some() || state.pending_tool_execution().is_some() {
        return Err(AgentError::Summary(SummaryError::PendingTools));
    }
    let messages = state.messages();
    if let Some(summary) = state.context_summary() {
        if let Err(error) = summary.validate(messages.as_slice()) {
            return Err(AgentError::Summary(error));
        }
    }
    let kept = policy.select_messages(messages.as_slice());
    let end = find_first_kept(messages, &kept);
    if !any_substance(messages, end) {
        return Ok(None);
    }
    if let Some(summary) = state.context_summary() {
        if summary.covered_messages() >= end {
            return Ok(None);
        }
    }
    let prefix = vstd::slice::slice_subrange(messages.as_slice(), 0, end);
    assert(views(prefix@) =~= state@.messages.take(end as int));
    if let Err(error) = validate_completed(prefix) {
        return Err(AgentError::Summary(error));
    }
    if !has_summarizer {
        return Err(AgentError::Summary(SummaryError::NotConfigured));
    }
    if interrupted {
        return Err(AgentError::Interrupted);
    }
    Ok(Some(end))
}

/// The conversation that the model sees beside a summary: without what the summary
/// covers, but for system messages.
pub open spec fn projected(history: Seq<MsgView>, summary: Option<SummaryView>) -> Seq<MsgView> {
    match summary {
        None => history,
        Some(summary) => kept_from(history, summary.covered_messages as int),
    }
}

/// The conversation that the model sees beside a summary, which must be valid.
pub fn summary_projection(
    history: &[Msg],
    summary: Option<&ContextSummary>,
) -> (result: AgentResult<Vec<Msg>>)
    ensures
        match result {
            Ok(messages) => (summary matches Some(summary) ==> summary_fault(
                summary@,
                views(history@),
            ) is None) && views(messages@) == projected(views(history@), view_option(summary)),
            Err(error) => summary matches Some(summary) && summary_fault(
                summary@,
                views(history@),
            ) is Some && error@ == AgentErrorView::Summary(
                summary_fault(summary@, views(history@))->Some_0,
            ),
        },
{
    match summary {
        None => Ok(copy_messages(history)),
        Some(summary) => {
            if let Err(error) = summary.validate(history) {
                return Err(AgentError::Summary(error));
            }
            Ok(keep_from(history, summary.covered_messages()))
        },
    }
}

/// Whether messages are what the model sees of a history and its summary.
pub open spec fn is_summary_input(
    history: Seq<MsgView>,
    summary: Option<SummaryView>,
    input: Seq<MsgView>,
) -> bool {
    match summary {
        None => input == history,
        Some(known) => {
            &&& input.len() > 0
            &&& is_new_text_msg(
                input[0],
                "context_summary"@,
                Role::Assistant,
                summary_introduction() + known.text,
            )
            &&& input.skip(1) == projected(history, summary)
        },
    }
}

/// What the model sees of a history and its summary, which must be valid.
pub fn summary_input(
    history: &[Msg],
    summary: Option<&ContextSummary>,
) -> (result: AgentResult<Vec<Msg>>)
    ensures
        match result {
            Ok(input) => (summary matches Some(summary) ==> summary_fault(
                summary@,
                views(history@),
            ) is None) && is_summary_input(
                views(history@),
                view_option(summary),
                views(input@),
            ),
            Err(error) => summary matches Some(summary) && summary_fault(
                summary@,
                views(history@),
            ) is Some && error@ == AgentErrorView::Summary(
                summary_fault(summary@, views(history@))->Some_0,
            ),
        },
{
    let mut rest = match summary_projection(history, summary) {
        Err(error) => {
            return Err(error);
        },
        Ok(messages) => messages,
    };
    match summary {
        None => Ok(rest),
        Some(summary) => {
            let ghost kept = views(rest@);
            let mut input: Vec<Msg> = Vec::new();
            input.push(summary.message());
            input.append(&mut rest);
            assert(views(input@).skip(1) =~= kept);
            Ok(input)
        },
    }
}

/// The size of messages in encoded form.
pub open spec fn encoded_size(msgs: Seq<MsgView>) -> nat {
    byte_len(messages_source(msgs))
}

fn measure(messages: &Vec<Msg>) -> (size: usize)
    ensures
        size == encoded_size(views(messages@)),
{
    count_bytes(source_text(messages.as_slice()).as_str())
}

/// Whether a generated text becomes a summary of the first messages of a history:
/// what stops it, in order, is an interruption, an invalid text or source, an
/// invalid summary, and input that is not smaller than before.
pub open spec fn summary_outcome(
    state: StateView,
    end: nat,
    text: Seq<char>,
    interrupted: bool,
    result: Result<SummaryView, AgentErrorView>,
) -> bool {
    let summary = SummaryView {
        text,
        covered_messages: end,
        source_sha256: fingerprint_of(state.messages.take(end as int)),
    };
    let history = state.messages;
    let new_fault = new_summary_fault(text, history.take(end as int));
    let stale = state.context_summary is Some && summary_fault(
        state.context_summary->Some_0,
        history,
    ) is Some;
    if interrupted {
        result == Err::<SummaryView, _>(AgentErrorView::Interrupted)
    } else if new_fault is Some {
        result == Err::<SummaryView, _>(AgentErrorView::Summary(new_fault->Some_0))
    } else if stale {
        result == Err::<SummaryView, _>(
            AgentErrorView::Summary(
                summary_fault(state.context_summary->Some_0, history)->Some_0,
            ),
        )
    } else if summary_fault(summary, history) is Some {
        result == Err::<SummaryView, _>(
            AgentErrorView::Summary(summary_fault(summary, history)->Some_0),
        )
    } else {
        exists|old_input: Seq<MsgView>, new_input: Seq<MsgView>| #[trigger]
            is_summary_input(history, state.context_summary, old_input) && #[trigger]
            is_summary_input(history, Some(summary), new_input) && result == if encoded_size(
                new_input,
            ) >= encoded_size(old_input) {
                Err::<SummaryView, _>(AgentErrorView::Summary(SummaryErrorView::NotSmaller))
            } else {
                Ok::<_, AgentErrorView>(summary)
            }
    }
}

/// A summary or a failure, by their views.
pub open spec fn accepted_view(result: AgentResult<ContextSummary>) -> Result<
    SummaryView,
    AgentErrorView,
> {
    match result {
        Ok(summary) => Ok(summary@),
        Err(error) => Err(error@),
    }
}

/// Makes a generated text the summary of the first messages of a snapshot.
pub fn accept_summary(
    state: &AgentState,
    end: usize,
    text: String,
    interrupted: bool,
) -> (result: AgentResult<ContextSummary>)
    requires
        end <= state@.messages.len(),
    ensures
        summary_outcome(
            state@,
            end as nat,
            text@,
            interrupted,
            accepted_view(result),
        ),
{
    if interrupted {
        return Err(AgentError::Interrupted);
    }
    let messages = state.messages();
    let prefix = vstd::slice::slice_subrange(messages.as_slice(), 0, end);
    assert(views(prefix@) =~= state@.messages.take(end as int));
    let summary = match ContextSummary::new(text, prefix) {
        Err(error) => {
            return Err(AgentError::Summary(error));
        },
        Ok(summary) => summary,
    };
    let old_input = match summary_input(messages.as_slice(), state.context_summary()) {
        Err(error) => {
            return Err(error);
        },
        Ok(input) => input,
    };
    let new_input = match summary_input(messages.as_slice(), Some(&summary)) {
        Err(error) => {
            return Err(error);
        },
        Ok(input) => input,
    };
    proof {
        assert(is_summary_input(state@.messages, state@.context_summary, views(old_input@)));
        assert(is_summary_input(state@.messages, Some(summary@), views(new_input@)));
    }
    if measure(&new_input) >= measure(&old_input) {
        return Err(AgentError::Summary(SummaryError::NotSmaller));
    }
    Ok(summary)
}

/// Why an agent cannot compact automatically, or a request does not fit as it
/// stands, if it does not.
pub open spec fn auto_budget_fault<C: TokenCounter>(
    budget: Option<&TokenBudget<C>>,
    request: RequestView,
) -> Option<AgentErrorView> {
    match budget {
        None => Some(AgentErrorView::Summary(SummaryErrorView::AutoRequiresBudget)),
        Some(budget) => match untrimmed_fault(
            budget.spec_counter(),
            budget.spec_input_limit(),
            budget.spec_reserved_output(),
            request,
        ) {
            Some(fault) => Some(AgentErrorView::TokenBudget(fault)),
            None => None,
        },
    }
}

/// Accepts a request that fits the budget as it stands.
pub fn check_auto_budget<C: TokenCounter>(
    budget: Option<&TokenBudget<C>>,
    request: ChatRequest,
) -> (result: AgentResult<()>)
    ensures
        match (result, auto_budget_fault(budget, request@)) {
            (Ok(()), None) => true,
            (Err(error), Some(fault)) => error@ == fault,
            _ => false,
        },
{
    match budget {
        None => Err(AgentError::Summary(SummaryError::AutoRequiresBudget)),
        Some(budget) => match budget.check_without_trimming(request) {
            Ok(()) => Ok(()),
            Err(error) => Err(AgentError::TokenBudget(error)),
        },
    }
}

/// Decides whether to compact before a reply: where there is a summarizer, and the
/// check of the budget says that the input is too large.
pub fn auto_check(has_summarizer: bool, check: AgentResult<()>) -> (result: AgentResult<
    Option<TokenBudgetError>,
>)
    ensures
        match result {
            Ok(None) => has_summarizer && check is Ok,
            Ok(Some(overflow)) => has_summarizer && overflow@ is Exceeded && check is Err
                && check->Err_0@ == AgentErrorView::TokenBudget(overflow@),
            Err(error) => if !has_summarizer {
                error@ == AgentErrorView::Summary(SummaryErrorView::NotConfigured)
            } else {
                check is Err && error@ == check->Err_0@ && !(
                error@ matches AgentErrorView::TokenBudget(fault) && fault is Exceeded)
            },
        },
{
    if !has_summarizer {
        return Err(AgentError::Summary(SummaryError::NotConfigured));
    }
    match check {
        Ok(()) => Ok(None),
        Err(AgentError::TokenBudget(overflow)) => {
            if matches!(&overflow, TokenBudgetError::Exceeded { .. }) {
                Ok(Some(overflow))
            } else {
                Err(AgentError::TokenBudget(overflow))
            }
        },
        Err(error) => Err(error),
    }
}

/// A summary hides nothing of the history that comes after what it covers, and no
/// system message.
pub proof fn summaries_hide_only_what_they_cover(
    history: Seq<MsgView>,
    summary: SummaryView,
    at: int,
)
    requires
        0 <= at < history.len(),
        at >= summary.covered_messages || history[at].role == Role::System,
    ensures
        projected(history, Some(summary)).contains(history[at]),
    decreases history.len(),
{
    let start = summary.covered_messages as int;
    let rest = kept_from(history.drop_last(), start);
    let all = kept_from(history, start);
    if at == history.len() - 1 {
        assert(all == rest.push(history[at]));
        assert(all[rest.len() as int] == history[at]);
    } else {
        summaries_hide_only_what_they_cover(history.drop_last(), summary, at);
        assert(history.drop_last()[at] == history[at]);
        let k = choose|k: int| 0 <= k < rest.len() && rest[k] == history[at];
        assert(all[k] == history[at]);
    }
}

/// A summary that is kept makes the input smaller.
pub proof fn kept_summaries_are_smaller(
    state: StateView,
    end: nat,
    text: Seq<char>,
    interrupted: bool,
    summary: SummaryView,
)
    requires
        summary_outcome(state, end, text, interrupted, Ok(summary)),
    ensures
        exists|old_input: Seq<MsgView>, new_input: Seq<MsgView>| #[trigger]
            is_summary_input(state.messages, state.context_summary, old_input) && #[trigger]
            is_summary_input(state.messages, Some(summary), new_input) && encoded_size(new_input)
                < encoded_size(old_input),
        summary_fault(summary, state.messages) is None,
        !interrupted,
{
}

/// A compaction that has just covered all there was to cover finds nothing more to
/// do, and asks for no summary.
pub proof fn repeated_compaction_does_nothing(
    state: StateView,
    keep_recent_turns: nat,
    end: nat,
    summary: SummaryView,
    has_summarizer: bool,
    interrupted: bool,
)
    requires
        planned_summary(state, keep_recent_turns, true, false) == Ok::<
            _,
            AgentErrorView,
        >(Some(end)),
        summary.covered_messages == end,
        summary_fault(summary, state.messages) is None,
    ensures
        planned_summary(
            StateView { context_summary: Some(summary), ..state },
            keep_recent_turns,
            has_summarizer,
            interrupted,
        ) == Ok::<Option<nat>, AgentErrorView>(None),
{
}

} // verus!
