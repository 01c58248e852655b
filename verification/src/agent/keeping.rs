//! Which states an agent takes up again, what it keeps in them, and how stores
//! number them.
use vstd::prelude::*;

use super::conduct::{cover, covering_decisions_are_accepted, responses_ask_for_all_their_calls};
use super::confirmation::{calls_fault, has_call, pending_fault, PendingView};
use super::error::AgentErrorView;
use super::react::{checkpoint_fault, message_fault, message_index, state_fault, AgentView};
use super::session::{restored, session_start, snapshot_of, snapshot_taken, SessionView};
use super::state::StateView;
use super::store::{key_fault, revision_of, saved, KeyView, RecordView, StoreErrorView};
use crate::context::summary::summary_fault;
use crate::message::content::calls_among;
use crate::message::msg::MsgView;
use crate::message::tool_call::{ToolCallState, ToolCallView};
use crate::text::blank;

verus! {

/// Whether calls all wait for a decision and have identifiers of their own.
pub open spec fn are_asked(calls: Seq<ToolCallView>) -> bool {
    &&& forall|i: int|
        0 <= i < calls.len() ==> (#[trigger] calls[i]).state == ToolCallState::Asking
    &&& forall|i: int, j: int|
        0 <= i < j < calls.len() ==> (#[trigger] calls[i]).id != (#[trigger] calls[j]).id
}

/// Whether the first message with an identifier stands at a position.
pub open spec fn is_first_with(msgs: Seq<MsgView>, id: Seq<char>, at: int) -> bool {
    &&& 0 <= at < msgs.len()
    &&& msgs[at].id == id
    &&& forall|i: int| 0 <= i < at ==> (#[trigger] msgs[i]).id != id
}

/// Whether a conversation holds the message of a checkpoint, with its calls.
pub open spec fn holds_the_calls(msgs: Seq<MsgView>, pending: PendingView) -> bool {
    exists|at: int| #[trigger]
        is_first_with(msgs, pending.reply_id, at) && calls_among(msgs[at].content) == pending.calls
}

/// Whether an agent can go on from a checkpoint in a conversation.
pub open spec fn can_go_on(agent: AgentView, msgs: Seq<MsgView>, pending: PendingView) -> bool {
    &&& !blank(pending.reply_id)
    &&& 0 < pending.step < agent.max_steps
    &&& pending.calls.len() > 0
    &&& are_asked(pending.calls)
    &&& holds_the_calls(msgs, pending)
}

proof fn lemma_asked(calls: Seq<ToolCallView>)
    ensures
        calls_fault(calls) is None <==> are_asked(calls),
    decreases calls.len(),
{
    if calls.len() > 0 {
        let front = calls.drop_last();
        let last = calls.len() - 1;
        lemma_asked(front);
        assert(calls[last] == calls.last());
        if calls_fault(calls) is None {
            assert forall|i: int| 0 <= i < calls.len() implies (#[trigger] calls[i]).state
                == ToolCallState::Asking by {
                if i < last {
                    assert(front[i].state == ToolCallState::Asking);
                }
            }
            assert forall|i: int, j: int| 0 <= i < j < calls.len() implies (#[trigger] calls[i]).id
                != (#[trigger] calls[j]).id by {
                assert(front[i] == calls[i]);
                if j < last {
                    assert(front[j] == calls[j]);
                } else if calls[i].id == calls[j].id {
                    assert(has_call(front, calls.last().id));
                }
            }
        }
        if are_asked(calls) {
            assert forall|i: int| 0 <= i < front.len() implies (#[trigger] front[i]).state
                == ToolCallState::Asking by {
                assert(front[i] == calls[i]);
            }
            assert forall|i: int, j: int| 0 <= i < j < front.len() implies (#[trigger] front[i]).id
                != (#[trigger] front[j]).id by {
                assert(calls[i].id != calls[j].id);
            }
            if has_call(front, calls.last().id) {
                let i = choose|i: int|
                    0 <= i < front.len() && (#[trigger] front[i]).id == calls.last().id;
                assert(calls[i].id != calls[last].id);
            }
        }
    }
}

pub(crate) proof fn lemma_first(msgs: Seq<MsgView>, id: Seq<char>)
    ensures
        message_index(msgs, id) matches Some(at) ==> is_first_with(msgs, id, at),
        message_index(msgs, id) is None ==> forall|i: int|
            0 <= i < msgs.len() ==> (#[trigger] msgs[i]).id != id,
    decreases msgs.len(),
{
    if msgs.len() > 0 {
        let front = msgs.drop_last();
        let last = msgs.len() - 1;
        lemma_first(front, id);
        assert(msgs[last] == msgs.last());
        match message_index(front, id) {
            Some(at) => {
                assert(msgs[at] == front[at]);
                assert forall|i: int| 0 <= i < at implies (#[trigger] msgs[i]).id != id by {
                    assert(front[i].id != id);
                }
            },
            None => {
                assert forall|i: int| 0 <= i < last implies (#[trigger] msgs[i]).id != id by {
                    assert(front[i].id != id);
                }
            },
        }
    }
}

pub(crate) proof fn lemma_message(msgs: Seq<MsgView>, pending: PendingView)
    ensures
        message_fault(msgs, pending) is None <==> holds_the_calls(msgs, pending),
{
    lemma_first(msgs, pending.reply_id);
    if let Some(at) = message_index(msgs, pending.reply_id) {
        responses_ask_for_all_their_calls(msgs[at].content);
        assert(is_first_with(msgs, pending.reply_id, at));
    }
    if holds_the_calls(msgs, pending) {
        let at = choose|at: int| #[trigger]
            is_first_with(msgs, pending.reply_id, at) && calls_among(msgs[at].content)
                == pending.calls;
        assert(msgs[at].id == pending.reply_id);
        let found = message_index(msgs, pending.reply_id)->Some_0;
        if found < at {
            assert(msgs[found].id != pending.reply_id);
        } else if at < found {
            assert(msgs[at].id != pending.reply_id);
        }
        responses_ask_for_all_their_calls(msgs[at].content);
    }
}

proof fn lemma_checkpoint(agent: AgentView, msgs: Seq<MsgView>, pending: PendingView)
    ensures
        checkpoint_fault(agent, msgs, pending) is None <==> can_go_on(agent, msgs, pending),
{
    lemma_asked(pending.calls);
    lemma_message(msgs, pending);
}

/// An agent goes on from a checkpoint if and only if that names a reply and a step
/// that leaves another one, asks for calls that all wait for decisions, each under an
/// identifier of its own, and the conversation holds the reply with exactly those
/// calls.
pub proof fn checkpoints_match_their_reply(
    agent: AgentView,
    msgs: Seq<MsgView>,
    pending: PendingView,
)
    ensures
        checkpoint_fault(agent, msgs, pending) is None <==> can_go_on(agent, msgs, pending),
        checkpoint_fault(agent, msgs, pending) is Some ==> checkpoint_fault(
            agent,
            msgs,
            pending,
        )->Some_0 is InvalidToolConfirmation,
        blank(pending.reply_id) ==> checkpoint_fault(agent, msgs, pending) == Some(
            AgentErrorView::InvalidToolConfirmation("pending tool reply id cannot be empty"@),
        ),
        pending_fault(pending) is None ==> !blank(pending.reply_id) && pending.step > 0
            && pending.calls.len() > 0 && are_asked(pending.calls),
        !blank(pending.reply_id) && pending.step > 0 && pending.calls.len() > 0 && are_asked(
            pending.calls,
        ) ==> pending_fault(pending) is None,
{
    lemma_checkpoint(agent, msgs, pending);
    lemma_asked(pending.calls);
}

/// A state is an agent's if and only if it is of a format from the first to the
/// fourth, has the agent's name, and the agent can go on from each checkpoint in it,
/// with decisions for exactly the calls that were executed.
pub proof fn states_are_taken_up_by_their_agent(agent: AgentView, state: StateView)
    ensures
        state_fault(agent, state) is None <==> {
            &&& 1 <= state.format_version <= 4
            &&& state.agent_name == agent.name
            &&& state.pending_tool_calls matches Some(pending) ==> can_go_on(
                agent,
                state.messages,
                pending,
            )
            &&& state.pending_tool_execution matches Some(execution) ==> can_go_on(
                agent,
                state.messages,
                execution.confirmation,
            ) && cover(execution.confirmation.calls, execution.decisions)
        },
        !(1 <= state.format_version <= 4) ==> state_fault(agent, state) == Some(
            AgentErrorView::UnsupportedStateVersion { found: state.format_version, supported: 4 },
        ),
        1 <= state.format_version <= 4 && state.agent_name != agent.name ==> state_fault(
            agent,
            state,
        ) == Some(
            AgentErrorView::StateAgentMismatch { expected: agent.name, found: state.agent_name },
        ),
{
    if let Some(pending) = state.pending_tool_calls {
        lemma_checkpoint(agent, state.messages, pending);
    }
    if let Some(execution) = state.pending_tool_execution {
        lemma_checkpoint(agent, state.messages, execution.confirmation);
        covering_decisions_are_accepted(execution.confirmation.calls, execution.decisions);
    }
}

/// A state is restored whole where it is the agent's, its summary stands, and the
/// agent has a memory; nothing is restored otherwise.
pub proof fn states_are_restored_whole(agent: AgentView, state: StateView)
    ensures
        restored(agent, state) is Ok <==> {
            &&& state_fault(agent, state) is None
            &&& state.context_summary matches Some(summary) ==> summary_fault(
                summary,
                state.messages,
            ) is None
            &&& agent.has_memory
        },
        restored(agent, state) matches Ok(session) ==> session.messages == state.messages
            && session.pending_tool_calls == state.pending_tool_calls
            && session.pending_tool_execution == state.pending_tool_execution
            && session.context_summary == state.context_summary,
        state_fault(agent, state) matches Some(fault) ==> restored(agent, state) == Err::<
            SessionView,
            AgentErrorView,
        >(fault),
        state_fault(agent, state) is None && state.context_summary is Some && summary_fault(
            state.context_summary->Some_0,
            state.messages,
        ) is Some ==> restored(agent, state) == Err::<SessionView, AgentErrorView>(
            AgentErrorView::Summary(
                summary_fault(state.context_summary->Some_0, state.messages)->Some_0,
            ),
        ),
{
}

/// A snapshot holds the agent's name and all that its session holds, in the fourth
/// format; an agent without a memory has none.
pub proof fn snapshots_hold_the_session(agent: AgentView, session: SessionView)
    ensures
        snapshot_taken(agent, session) is Ok <==> agent.has_memory,
        !agent.has_memory ==> snapshot_taken(agent, session) == Err::<StateView, AgentErrorView>(
            AgentErrorView::MemoryNotConfigured,
        ),
        snapshot_taken(agent, session) matches Ok(state) ==> {
            &&& state.format_version == 4
            &&& state.agent_name == agent.name
            &&& state.messages == session.messages
            &&& state.pending_tool_calls == session.pending_tool_calls
            &&& state.pending_tool_execution == session.pending_tool_execution
            &&& state.context_summary == session.context_summary
        },
        snapshot_of(agent, session).messages == session.messages,
{
}

/// A session starts from what its store holds: anew where it holds nothing, from the
/// restored state with its revision where it holds one that can be restored.
pub proof fn sessions_start_from_what_is_stored(agent: AgentView, record: Option<RecordView>)
    ensures
        !agent.has_memory ==> session_start(agent, record) == Err::<
            (Option<u64>, Option<SessionView>),
            AgentErrorView,
        >(AgentErrorView::MemoryNotConfigured),
        agent.has_memory && record is None ==> session_start(agent, record) == Ok::<
            (Option<u64>, Option<SessionView>),
            AgentErrorView,
        >((None, None)),
        agent.has_memory && record is Some && restored(agent, record->Some_0.state) is Ok
            ==> session_start(agent, record) == Ok::<
            (Option<u64>, Option<SessionView>),
            AgentErrorView,
        >((Some(record->Some_0.revision), Some(restored(agent, record->Some_0.state)->Ok_0))),
        agent.has_memory && record is Some && restored(agent, record->Some_0.state) is Err
            ==> session_start(agent, record) == Err::<
            (Option<u64>, Option<SessionView>),
            AgentErrorView,
        >(restored(agent, record->Some_0.state)->Err_0),
{
}

/// A store keeps a state if and only if the writer knows the revision there is and
/// that can grow: the first state is the first revision, and each later one is one
/// more than the revision it was written over.
pub proof fn revisions_count_the_writes(
    records: Map<KeyView, RecordView>,
    key: KeyView,
    expected: Option<u64>,
    state: StateView,
)
    ensures
        !records.contains_key(key) && expected is None ==> saved(records, key, expected, state)
            == Ok::<RecordView, StoreErrorView>(RecordView { revision: 1, state }),
        !records.contains_key(key) && expected is Some ==> saved(records, key, expected, state)
            is Err,
        records.contains_key(key) && expected is None ==> saved(records, key, expected, state)
            is Err,
        records.contains_key(key) && expected is Some && expected->Some_0
            != records[key].revision ==> saved(records, key, expected, state) is Err,
        records.contains_key(key) && expected == Some(records[key].revision)
            && records[key].revision < u64::MAX ==> saved(records, key, expected, state) is Ok
            && saved(records, key, expected, state)->Ok_0.revision == records[key].revision + 1
            && saved(records, key, expected, state)->Ok_0.state == state,
        records.contains_key(key) && expected == Some(records[key].revision)
            && records[key].revision == u64::MAX ==> saved(records, key, expected, state) == Err::<
            RecordView,
            StoreErrorView,
        >(
            StoreErrorView {
                message: "state revision cannot be incremented"@,
                code: Some("revision_overflow"@),
                retryable: false,
            },
        ),
        revision_of(records, key) != expected ==> saved(records, key, expected, state)->Err_0.code
            == Some("revision_conflict"@),
{
}

/// A key names a user and a session, neither of them blank.
pub proof fn keys_name_a_user_and_a_session(user_id: Seq<char>, session_id: Seq<char>)
    ensures
        key_fault(user_id, session_id) is None <==> !blank(user_id) && !blank(session_id),
        blank(user_id) ==> key_fault(user_id, session_id) is Some && key_fault(
            user_id,
            session_id,
        )->Some_0.code == Some("invalid_user_id"@),
        !blank(user_id) && blank(session_id) ==> key_fault(user_id, session_id) is Some
            && key_fault(user_id, session_id)->Some_0.code == Some("invalid_session_id"@),
        key_fault(user_id, session_id) matches Some(fault) ==> !fault.retryable,
{
}

} // verus!
