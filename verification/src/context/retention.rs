//! What a policy of recent turns retains, told of the messages, calls and results
//! themselves.
use vstd::prelude::*;

use super::{
    call_message, call_turn, dependency, dependency_upto, expanded, is_kept, is_user, kept_from,
    recent_start, recent_turns_are_kept, retained_results_keep_their_calls, selected,
    selection_start, short_histories_are_unchanged, system_start, turn_count, turn_start,
};
use crate::message::content::BlockView;
use crate::message::msg::MsgView;
use crate::message::role::Role;

verus! {

/// The turns that a history begins.
pub open spec fn turns_in(history: Seq<MsgView>) -> nat {
    history.filter(|msg: MsgView| msg.role == Role::User).len()
}

/// The system messages of a history, in order.
pub open spec fn system_in(history: Seq<MsgView>) -> Seq<MsgView> {
    history.filter(|msg: MsgView| msg.role == Role::System)
}

/// Whether the last turns of a history begin at a position, with others before.
pub open spec fn last_turns_begin(history: Seq<MsgView>, turns: nat, start: int) -> bool {
    &&& 0 <= start < history.len()
    &&& history[start].role == Role::User
    &&& turns_in(history.skip(start)) == turns
    &&& turns_in(history.take(start)) > 0
}

/// Whether a result at one place answers a call at an earlier one.
pub open spec fn answers_call(
    history: Seq<MsgView>,
    index: int,
    block: int,
    call_index: int,
    call_block: int,
) -> bool {
    &&& 0 <= index < history.len()
    &&& 0 <= block < history[index].content.len()
    &&& 0 <= call_index < history.len()
    &&& 0 <= call_block < history[call_index].content.len()
    &&& call_index < index || (call_index == index && call_block < block)
    &&& history[index].content[block] is ToolResult
    &&& history[call_index].content[call_block] is ToolCall
    &&& history[index].content[block]->ToolResult_0.id
        == history[call_index].content[call_block]->ToolCall_0.id
    &&& history[index].content[block]->ToolResult_0.name
        == history[call_index].content[call_block]->ToolCall_0.name
}

/// Whether a position begins the turn of a message: the user's last message up to
/// it, or the beginning of the history.
pub open spec fn begins_turn_of(history: Seq<MsgView>, start: int, index: int) -> bool {
    &&& 0 <= start <= index < history.len()
    &&& start == 0 || history[start].role == Role::User
    &&& forall|i: int| start < i <= index ==> (#[trigger] history[i]).role != Role::User
}

/// Turns are counted by their first messages.
pub(crate) proof fn lemma_turns(history: Seq<MsgView>)
    ensures
        turn_count(history) == turns_in(history),
    decreases history.len(),
{
    reveal(Seq::filter);
    if history.len() > 0 {
        lemma_turns(history.drop_last());
    }
}

proof fn lemma_start(history: Seq<MsgView>, turns: nat, start: int)
    requires
        0 <= start < history.len(),
        history[start].role == Role::User,
        turns_in(history.skip(start)) == turns,
    ensures
        recent_start(history, turns) == Some(start),
        turns > 0,
    decreases history.len(),
{
    reveal(Seq::filter);
    let front = history.drop_last();
    let tail = history.skip(start);
    assert(tail.drop_last() =~= front.skip(start));
    assert(tail.last() == history.last());
    if start < front.len() {
        let earlier = turns_in(front.skip(start));
        lemma_start(front, earlier, start);
    } else {
        assert(tail.drop_last() =~= Seq::<MsgView>::empty());
        assert(turns_in(tail.drop_last()) == 0);
    }
}

/// What is kept from a position on.
pub(crate) proof fn lemma_kept(history: Seq<MsgView>, start: int)
    requires
        0 <= start <= history.len(),
    ensures
        kept_from(history, start) == system_in(history.take(start)) + history.skip(start),
    decreases history.len(),
{
    reveal(Seq::filter);
    if history.len() == 0 {
        assert(kept_from(history, start) =~= system_in(history.take(start)) + history.skip(start));
    } else if start < history.len() {
        let front = history.drop_last();
        lemma_kept(front, start);
        assert(front.take(start) =~= history.take(start));
        assert(front.skip(start).push(history.last()) =~= history.skip(start));
        assert(kept_from(history, start) =~= system_in(history.take(start)) + history.skip(start));
    } else {
        lemma_kept_system(history, start);
        assert(history.take(start) =~= history);
        assert(kept_from(history, start) =~= system_in(history.take(start)) + history.skip(start));
    }
}

proof fn lemma_kept_system(history: Seq<MsgView>, start: int)
    requires
        history.len() <= start,
    ensures
        kept_from(history, start) == system_in(history),
    decreases history.len(),
{
    reveal(Seq::filter);
    if history.len() > 0 {
        lemma_kept_system(history.drop_last(), start);
    }
    assert(kept_from(history, start) =~= system_in(history));
}

/// What is selected is the history from one position on, and the system messages
/// before it, in order.
pub proof fn selections_are_tails_with_system_messages(history: Seq<MsgView>, turns: nat)
    ensures
        0 <= selection_start(history, turns) <= history.len(),
        selected(history, turns) == system_in(history.take(selection_start(history, turns)))
            + history.skip(selection_start(history, turns)),
{
    lemma_recent(history, turns);
    recent_turns_are_kept(history, turns);
    lemma_kept(history, selection_start(history, turns));
}

proof fn lemma_recent(history: Seq<MsgView>, turns: nat)
    ensures
        recent_start(history, turns) matches Some(start) ==> 0 <= start < history.len()
            && history[start].role == Role::User,
    decreases history.len(),
{
    if history.len() > 0 && turns > 0 {
        lemma_recent(history.drop_last(), turns);
        lemma_recent(history.drop_last(), (turns - 1) as nat);
    }
}

proof fn lemma_no_dependency(history: Seq<MsgView>, index: int, count: int)
    requires
        forall|b: int|
            0 <= b < history[index].content.len() ==> !(
            #[trigger] history[index].content[b] is ToolResult),
        count <= history[index].content.len(),
    ensures
        dependency_upto(history, index, count) == index,
    decreases count,
{
    if count > 0 {
        lemma_no_dependency(history, index, count - 1);
        assert(!(history[index].content[count - 1] is ToolResult));
    }
}

/// Whether no message holds a tool result.
pub open spec fn has_no_results(history: Seq<MsgView>) -> bool {
    forall|i: int, b: int|
        0 <= i < history.len() && 0 <= b < history[i].content.len() ==> !(
        #[trigger] history[i].content[b] is ToolResult)
}

proof fn lemma_unmoved(history: Seq<MsgView>, start: int, count: int)
    requires
        has_no_results(history),
        0 <= count <= history.len(),
    ensures
        system_start(history, start, count) == start,
        expanded(history, start, count) == start,
    decreases count,
{
    if count > 0 {
        lemma_unmoved(history, start, count - 1);
        lemma_no_dependency(history, count - 1, history[count - 1].content.len() as int);
    }
}

/// Without tool results the last turns are retained, exactly, and the system
/// messages before them.
pub proof fn earlier_turns_are_dropped(history: Seq<MsgView>, turns: nat, start: int)
    requires
        last_turns_begin(history, turns, start),
        has_no_results(history),
    ensures
        selected(history, turns) == system_in(history.take(start)) + history.skip(start),
{
    lemma_start(history, turns, start);
    lemma_turns(history.take(start));
    lemma_unmoved(history, start, history.len() as int);
    lemma_kept(history, start);
}

/// A history with no more turns than are asked for is retained whole.
pub proof fn few_turns_are_retained_whole(history: Seq<MsgView>, turns: nat)
    requires
        turns_in(history) <= turns,
    ensures
        selected(history, turns) == history,
{
    lemma_turns(history);
    short_histories_are_unchanged(history, turns);
}

/// Where a call is found: the turn of its message.
proof fn lemma_call_found(
    history: Seq<MsgView>,
    index: int,
    block: int,
    id: Seq<char>,
    name: Seq<char>,
) -> (at: (int, int))
    requires
        0 <= index < history.len(),
        0 <= block <= history[index].content.len(),
        call_turn(history, index, block, id, name) is Some,
    ensures
        0 <= at.0 <= index,
        0 <= at.1 < history[at.0].content.len(),
        at.0 < index || at.1 < block,
        history[at.0].content[at.1] is ToolCall,
        history[at.0].content[at.1]->ToolCall_0.id == id,
        history[at.0].content[at.1]->ToolCall_0.name == name,
        begins_turn_of(history, call_turn(history, index, block, id, name)->Some_0, at.0),
    decreases index, block,
{
    if block > 0 {
        if history[index].content[block - 1] is ToolCall
            && history[index].content[block - 1]->ToolCall_0.id == id
            && history[index].content[block - 1]->ToolCall_0.name == name {
            lemma_turn_begins(history, index);
            (index, block - 1)
        } else {
            lemma_call_found(history, index, block - 1, id, name)
        }
    } else {
        lemma_call_found(
            history,
            index - 1,
            history[index - 1].content.len() as int,
            id,
            name,
        )
    }
}

proof fn lemma_turn_begins(history: Seq<MsgView>, index: int)
    requires
        0 <= index < history.len(),
    ensures
        begins_turn_of(history, turn_start(history, index), index),
    decreases index,
{
    if index > 0 && !is_user(history[index]) {
        lemma_turn_begins(history, index - 1);
    }
}

/// Whether a message holds the result of a call whose turn begins at a position.
pub open spec fn pulls_in(history: Seq<MsgView>, index: int, start: int) -> bool {
    exists|block: int, call_index: int, call_block: int| #[trigger]
        answers_call(history, index, block, call_index, call_block) && begins_turn_of(
            history,
            start,
            call_index,
        )
}

proof fn lemma_dependency_pulls(history: Seq<MsgView>, index: int, count: int)
    requires
        0 <= index < history.len(),
        count <= history[index].content.len(),
    ensures
        dependency_upto(history, index, count) == index || pulls_in(
            history,
            index,
            dependency_upto(history, index, count),
        ),
    decreases count,
{
    if count > 0 {
        lemma_dependency_pulls(history, index, count - 1);
        if let BlockView::ToolResult(result) = history[index].content[count - 1] {
            if call_turn(history, index, count - 1, result.id, result.name) is Some {
                let at = lemma_call_found(history, index, count - 1, result.id, result.name);
                assert(answers_call(history, index, count - 1, at.0, at.1));
            }
        }
    }
}

proof fn lemma_system_pulls(history: Seq<MsgView>, start: int, count: int)
    requires
        0 <= count <= history.len(),
    ensures
        system_start(history, start, count) == start || exists|index: int|
            0 <= index < history.len() && history[index].role == Role::System
                && #[trigger] pulls_in(history, index, system_start(history, start, count)),
    decreases count,
{
    if count > 0 {
        lemma_system_pulls(history, start, count - 1);
        lemma_dependency_pulls(history, count - 1, history[count - 1].content.len() as int);
        let before = system_start(history, start, count - 1);
        let now = system_start(history, start, count);
        if now != before {
            assert(pulls_in(history, count - 1, now));
        }
    }
}

proof fn lemma_expanded_pulls(history: Seq<MsgView>, start: int, count: int)
    requires
        0 <= count <= history.len(),
    ensures
        expanded(history, start, count) <= start,
        expanded(history, start, count) == start || exists|index: int|
            expanded(history, start, count) <= index < history.len() && #[trigger] pulls_in(
                history,
                index,
                expanded(history, start, count),
            ),
    decreases count,
{
    if count > 0 {
        let needed = dependency(history, count - 1);
        lemma_dependency_pulls(history, count - 1, history[count - 1].content.len() as int);
        if count - 1 >= start && needed < start {
            lemma_expanded_pulls(history, needed, count - 1);
            if expanded(history, needed, count - 1) == needed {
                assert(pulls_in(history, count - 1, needed));
            }
        } else {
            lemma_expanded_pulls(history, start, count - 1);
        }
    }
}

/// A cut is moved back from the last turns only to a turn with a call whose result
/// is retained.
pub proof fn cuts_move_only_for_calls(history: Seq<MsgView>, turns: nat, start: int)
    requires
        last_turns_begin(history, turns, start),
    ensures
        selection_start(history, turns) <= start,
        selection_start(history, turns) == start || exists|index: int|
            0 <= index < history.len() && (index >= selection_start(history, turns)
                || history[index].role == Role::System) && #[trigger] pulls_in(
                history,
                index,
                selection_start(history, turns),
            ),
{
    lemma_start(history, turns, start);
    lemma_turns(history.take(start));
    recent_turns_are_kept(history, turns);
    let length = history.len() as int;
    let first = system_start(history, start, length);
    lemma_system_pulls(history, start, length);
    lemma_expanded_pulls(history, first, length);
}

proof fn lemma_latest_call(
    history: Seq<MsgView>,
    index: int,
    block: int,
    id: Seq<char>,
    name: Seq<char>,
    call_index: int,
    call_block: int,
)
    requires
        0 <= index < history.len(),
        0 <= block <= history[index].content.len(),
        0 <= call_index <= index,
        0 <= call_block < history[call_index].content.len(),
        call_index < index || call_block < block,
        history[call_index].content[call_block] is ToolCall,
        history[call_index].content[call_block]->ToolCall_0.id == id,
        history[call_index].content[call_block]->ToolCall_0.name == name,
    ensures
        call_message(history, index, block, id, name) is Some,
        call_message(history, index, block, id, name)->Some_0 >= call_index,
    decreases index, block,
{
    if block > 0 {
        if !(history[index].content[block - 1] is ToolCall
            && history[index].content[block - 1]->ToolCall_0.id == id
            && history[index].content[block - 1]->ToolCall_0.name == name) {
            lemma_latest_call(history, index, block - 1, id, name, call_index, call_block);
        }
    } else {
        lemma_latest_call(
            history,
            index - 1,
            history[index - 1].content.len() as int,
            id,
            name,
            call_index,
            call_block,
        );
    }
}

proof fn lemma_call_message_holds(
    history: Seq<MsgView>,
    index: int,
    block: int,
    id: Seq<char>,
    name: Seq<char>,
) -> (call_block: int)
    requires
        0 <= index < history.len(),
        0 <= block <= history[index].content.len(),
        call_message(history, index, block, id, name) is Some,
    ensures
        ({
            let call_index = call_message(history, index, block, id, name)->Some_0;
            &&& 0 <= call_index <= index
            &&& 0 <= call_block < history[call_index].content.len()
            &&& call_index < index || call_block < block
            &&& history[call_index].content[call_block] is ToolCall
            &&& history[call_index].content[call_block]->ToolCall_0.id == id
            &&& history[call_index].content[call_block]->ToolCall_0.name == name
        }),
    decreases index, block,
{
    if block > 0 {
        if history[index].content[block - 1] is ToolCall
            && history[index].content[block - 1]->ToolCall_0.id == id
            && history[index].content[block - 1]->ToolCall_0.name == name {
            block - 1
        } else {
            lemma_call_message_holds(history, index, block - 1, id, name)
        }
    } else {
        lemma_call_message_holds(
            history,
            index - 1,
            history[index - 1].content.len() as int,
            id,
            name,
        )
    }
}

/// A result that is retained, of a call that was made before, is retained with such
/// a call: the message of the latest one is not cut off.
pub proof fn results_are_retained_with_a_call(
    history: Seq<MsgView>,
    turns: nat,
    index: int,
    block: int,
    call_index: int,
    call_block: int,
)
    requires
        answers_call(history, index, block, call_index, call_block),
        is_kept(history, selection_start(history, turns), index),
    ensures
        exists|latest: int, latest_block: int| #[trigger]
            answers_call(history, index, block, latest, latest_block) && latest >= call_index
                && (latest >= selection_start(history, turns) || history[latest].role
                == Role::System),
{
    let result = history[index].content[block]->ToolResult_0;
    retained_results_keep_their_calls(history, turns, index, block);
    lemma_latest_call(history, index, block, result.id, result.name, call_index, call_block);
    let latest = call_message(history, index, block, result.id, result.name)->Some_0;
    let latest_block = lemma_call_message_holds(history, index, block, result.id, result.name);
    assert(answers_call(history, index, block, latest, latest_block));
}

} // verus!
