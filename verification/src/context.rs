//! Model-input history selection, independent of durable conversation storage.
pub mod allowance;
pub mod budget;
pub mod offload;
pub mod recap;
pub mod retention;
pub mod stash;
pub mod summary;

use vstd::prelude::*;

pub use budget::{
    HeuristicTokenCounter, TokenBudget, TokenBudgetError, TokenCount, TokenCountAccuracy,
    TokenCounter,
};
pub use offload::ToolResultOffload;
pub use summary::{ContextSummary, SummaryError};

use crate::message::content::{BlockView, ContentBlock};
use crate::message::msg::{Msg, MsgView};
use crate::message::role::Role;
use crate::text::same_text;
use crate::view::{lemma_views_push, views};

verus! {

/// Selects history for each model call without modifying stored messages.
///
/// Implementations must preserve message order, the active turn, and
/// tool-call/result pairs, and perform no I/O.
pub trait ContextPolicy {
    /// The model-visible history.
    fn select_messages(&self, history: &[Msg]) -> Vec<Msg>;
}

/// Includes the full history (the default agent behavior).
#[derive(Clone, Copy, Debug)]
pub struct FullContext;

impl ContextPolicy for FullContext {
    fn select_messages(&self, history: &[Msg]) -> (selected: Vec<Msg>)
        ensures
            views(selected@) == views(history@),
    {
        copy_messages(history)
    }
}

/// A copy of messages.
pub fn copy_messages(messages: &[Msg]) -> (copies: Vec<Msg>)
    ensures
        views(copies@) == views(messages@),
{
    let mut copies: Vec<Msg> = Vec::new();
    let mut i: usize = 0;
    while i < messages.len()
        invariant
            i <= messages@.len(),
            copies@.len() == i,
            forall|j: int| 0 <= j < i ==> (#[trigger] copies@[j])@ == messages@[j]@,
        decreases messages@.len() - i,
    {
        copies.push(messages[i].clone());
        i += 1;
    }
    assert(views(copies@) =~= views(messages@));
    copies
}

/// Whether a message starts a turn.
pub open spec fn is_user(msg: MsgView) -> bool {
    msg.role == Role::User
}

/// The number of turns in a history.
pub open spec fn turn_count(history: Seq<MsgView>) -> nat
    decreases history.len(),
{
    if history.len() == 0 {
        0
    } else {
        turn_count(history.drop_last()) + if is_user(history.last()) {
            1nat
        } else {
            0nat
        }
    }
}

/// Where the last `turns` turns start, if there are as many.
pub open spec fn recent_start(history: Seq<MsgView>, turns: nat) -> Option<int>
    decreases history.len(),
{
    if history.len() == 0 || turns == 0 {
        None
    } else if is_user(history.last()) {
        if turns == 1 {
            Some(history.len() - 1)
        } else {
            recent_start(history.drop_last(), (turns - 1) as nat)
        }
    } else {
        recent_start(history.drop_last(), turns)
    }
}

/// Where the turn of a message starts: at the last user message up to it, or at
/// the beginning.
pub open spec fn turn_start(history: Seq<MsgView>, index: int) -> int
    decreases index,
{
    if index <= 0 {
        0
    } else if is_user(history[index]) {
        index
    } else {
        turn_start(history, index - 1)
    }
}

/// Where the turn starts that holds the latest call with an identifier and a
/// name, among the blocks before block `block` of message `index`.
pub open spec fn call_turn(
    history: Seq<MsgView>,
    index: int,
    block: int,
    id: Seq<char>,
    name: Seq<char>,
) -> Option<int>
    decreases index, block,
    when 0 <= index && 0 <= block
{
    if block > 0 {
        match history[index].content[block - 1] {
            BlockView::ToolCall(call) => if call.id == id && call.name == name {
                Some(turn_start(history, index))
            } else {
                call_turn(history, index, block - 1, id, name)
            },
            _ => call_turn(history, index, block - 1, id, name),
        }
    } else if index > 0 {
        call_turn(history, index - 1, history[index - 1].content.len() as int, id, name)
    } else {
        None
    }
}

/// The earliest message that the first `block` blocks of a message depend on:
/// the start of a turn with a call whose result they hold, or the message itself.
pub open spec fn dependency_upto(history: Seq<MsgView>, index: int, block: int) -> int
    decreases block,
{
    if block <= 0 {
        index
    } else {
        let before = dependency_upto(history, index, block - 1);
        match history[index].content[block - 1] {
            BlockView::ToolResult(result) => match call_turn(
                history,
                index,
                block - 1,
                result.id,
                result.name,
            ) {
                Some(turn) => if turn < before {
                    turn
                } else {
                    before
                },
                None => before,
            },
            _ => before,
        }
    }
}

/// The earliest message that a message depends on.
pub open spec fn dependency(history: Seq<MsgView>, index: int) -> int {
    dependency_upto(history, index, history[index].content.len() as int)
}

/// Where a selection starts that holds what the system messages among the first
/// `count` messages depend on: they are retained wherever they stand.
pub open spec fn system_start(history: Seq<MsgView>, start: int, count: int) -> int
    decreases count,
{
    if count <= 0 {
        start
    } else {
        let before = system_start(history, start, count - 1);
        let needed = dependency(history, count - 1);
        if history[count - 1].role == Role::System && needed < count - 1 && needed < before {
            needed
        } else {
            before
        }
    }
}

/// Where a selection starts once the first `count` messages were looked at from
/// the back: what is selected pulls in what it depends on.
pub open spec fn expanded(history: Seq<MsgView>, start: int, count: int) -> int
    decreases count,
{
    if count <= 0 {
        start
    } else {
        let needed = dependency(history, count - 1);
        if count - 1 >= start && needed < start {
            expanded(history, needed, count - 1)
        } else {
            expanded(history, start, count - 1)
        }
    }
}

/// Where the selection of the last `turns` turns starts.
pub open spec fn selection_start(history: Seq<MsgView>, turns: nat) -> int {
    match recent_start(history, turns) {
        None => 0,
        Some(start) => if turn_count(history.take(start)) == 0 {
            0
        } else {
            expanded(
                history,
                system_start(history, start, history.len() as int),
                history.len() as int,
            )
        },
    }
}

/// The messages from a position on, and the system messages before it.
pub open spec fn kept_from(history: Seq<MsgView>, start: int) -> Seq<MsgView>
    decreases history.len(),
{
    if history.len() == 0 {
        Seq::empty()
    } else {
        let rest = kept_from(history.drop_last(), start);
        if history.len() - 1 >= start || history.last().role == Role::System {
            rest.push(history.last())
        } else {
            rest
        }
    }
}

/// The messages that the last `turns` turns select.
pub open spec fn selected(history: Seq<MsgView>, turns: nat) -> Seq<MsgView> {
    kept_from(history, selection_start(history, turns))
}

/// Keeps the most recent user turns, including the current turn.
///
/// A turn starts at a user message and includes all following messages up to
/// the next user message. System messages are always retained. If there are no
/// more than the requested number of user messages, all history is retained.
/// A cut crossing a tool-call/result pair is moved backwards to retain the
/// complete exchange. Malformed history is not repaired or validated.
#[derive(Clone, Copy, Debug, PartialEq, Eq)]
pub struct RecentTurns {
    max_turns: usize,
}

impl View for RecentTurns {
    type V = nat;

    closed spec fn view(&self) -> nat {
        self.max_turns as nat
    }
}

/// A recent-turn policy cannot discard the current user turn.
#[derive(Clone, Copy, Debug, PartialEq, Eq)]
pub struct ZeroContextTurns;

impl ZeroContextTurns {
    /// What the error says.
    pub fn to_string(&self) -> (text: String)
        ensures
            text@ == "context must retain at least one user turn"@,
    {
        "context must retain at least one user turn".to_owned()
    }
}

impl RecentTurns {
    /// At least one turn is kept.
    #[verifier::type_invariant]
    pub closed spec fn positive(self) -> bool {
        self.max_turns > 0
    }

    /// Creates a policy retaining at least one user turn.
    pub fn new(max_turns: usize) -> (result: Result<RecentTurns, ZeroContextTurns>)
        ensures
            match result {
                Ok(policy) => max_turns > 0 && policy@ == max_turns,
                Err(_) => max_turns == 0,
            },
    {
        if max_turns == 0 {
            Err(ZeroContextTurns)
        } else {
            Ok(RecentTurns { max_turns })
        }
    }

    /// The requested number of recent user turns.
    pub fn max_turns(&self) -> (max_turns: usize)
        ensures
            max_turns == self@,
            max_turns > 0,
    {
        proof {
            use_type_invariant(self);
        }
        self.max_turns
    }
}

impl ContextPolicy for RecentTurns {
    fn select_messages(&self, history: &[Msg]) -> (kept: Vec<Msg>)
        ensures
            views(kept@) == selected(views(history@), self@),
    {
        let start = find_selection_start(history, self.max_turns());
        keep_from(history, start)
    }
}

/// A call that was seen, with the start of its turn.
struct SeenCall<'a> {
    id: &'a str,
    name: &'a str,
    turn: usize,
}

/// What a call that was seen stands for.
struct SeenView {
    pub id: Seq<char>,
    pub name: Seq<char>,
    pub turn: int,
}

impl<'a> View for SeenCall<'a> {
    type V = SeenView;

    closed spec fn view(&self) -> SeenView {
        SeenView { id: self.id@, name: self.name@, turn: self.turn as int }
    }
}

/// The turn of the latest call with an identifier and a name.
closed spec fn seen_turn(calls: Seq<SeenView>, id: Seq<char>, name: Seq<char>) -> Option<int>
    decreases calls.len(),
{
    if calls.len() == 0 {
        None
    } else if calls.last().id == id && calls.last().name == name {
        Some(calls.last().turn)
    } else {
        seen_turn(calls.drop_last(), id, name)
    }
}

fn find_seen(calls: &Vec<SeenCall>, id: &str, name: &str) -> (turn: Option<usize>)
    ensures
        match turn {
            Some(found) => seen_turn(views(calls@), id@, name@) == Some(found as int),
            None => seen_turn(views(calls@), id@, name@) is None,
        },
{
    let mut i: usize = calls.len();
    let ghost all = views(calls@);
    assert(all.take(i as int) =~= all);
    while i > 0
        invariant
            i <= calls@.len(),
            all == views(calls@),
            seen_turn(all.take(i as int), id@, name@) == seen_turn(all, id@, name@),
        decreases i,
    {
        i -= 1;
        assert(all.take(i + 1).drop_last() =~= all.take(i as int));
        assert(all.take(i + 1).last() == calls@[i as int]@);
        if same_text(calls[i].id, id) && same_text(calls[i].name, name) {
            return Some(calls[i].turn);
        }
    }
    None
}

/// The start of a turn is not behind its messages.
proof fn lemma_turn_start(history: Seq<MsgView>, index: int)
    requires
        0 <= index,
    ensures
        0 <= turn_start(history, index) <= index,
    decreases index,
{
    if index > 0 && !is_user(history[index]) {
        lemma_turn_start(history, index - 1);
    }
}

/// A call's turn starts no later than the blocks that follow it.
proof fn lemma_call_turn(
    history: Seq<MsgView>,
    index: int,
    block: int,
    id: Seq<char>,
    name: Seq<char>,
)
    requires
        0 <= index,
        0 <= block,
    ensures
        call_turn(history, index, block, id, name) matches Some(turn) ==> 0 <= turn <= index,
    decreases index, block,
{
    if block > 0 {
        lemma_turn_start(history, index);
        lemma_call_turn(history, index, block - 1, id, name);
    } else if index > 0 {
        lemma_call_turn(history, index - 1, history[index - 1].content.len() as int, id, name);
    }
}

/// A message depends on nothing behind it.
proof fn lemma_dependency(history: Seq<MsgView>, index: int, block: int)
    requires
        0 <= index,
    ensures
        0 <= dependency_upto(history, index, block) <= index,
    decreases block,
{
    if block > 0 {
        lemma_dependency(history, index, block - 1);
        if let BlockView::ToolResult(result) = history[index].content[block - 1] {
            lemma_call_turn(history, index, block - 1, result.id, result.name);
        }
    }
}

/// The messages that each message depends on, the earliest of them.
fn find_dependencies(history: &[Msg]) -> (dependencies: Vec<usize>)
    ensures
        dependencies@.len() == history@.len(),
        forall|i: int|
            0 <= i < history@.len() ==> #[trigger] dependencies@[i] == dependency(
                views(history@),
                i,
            ),
{
    let ghost msgs = views(history@);
    let mut calls: Vec<SeenCall> = Vec::new();
    let mut dependencies: Vec<usize> = Vec::new();
    let mut turn: usize = 0;
    let mut index: usize = 0;
    while index < history.len()
        invariant
            index <= history@.len(),
            msgs == views(history@),
            index == 0 ==> turn == 0,
            index > 0 ==> turn == turn_start(msgs, index - 1),
            forall|id: Seq<char>, name: Seq<char>| #[trigger]
                seen_turn(views(calls@), id, name) == call_turn(msgs, index as int, 0, id, name),
            dependencies@.len() == index,
            forall|i: int| 0 <= i < index ==> #[trigger] dependencies@[i] == dependency(msgs, i),
        decreases history@.len() - index,
    {
        let message = &history[index];
        assert(msgs[index as int] == message@);
        if matches!(message.role, Role::User) {
            turn = index;
        }
        assert(turn == turn_start(msgs, index as int));
        let mut needed: usize = index;
        let mut block: usize = 0;
        while block < message.content.len()
            invariant
                block <= message.content@.len(),
                index < history@.len(),
                msgs == views(history@),
                message@ == msgs[index as int],
                turn == turn_start(msgs, index as int),
                forall|id: Seq<char>, name: Seq<char>| #[trigger]
                    seen_turn(views(calls@), id, name) == call_turn(
                        msgs,
                        index as int,
                        block as int,
                        id,
                        name,
                    ),
                needed == dependency_upto(msgs, index as int, block as int),
            decreases message.content@.len() - block,
        {
            let ghost before = views(calls@);
            assert(msgs[index as int].content[block as int] == message.content@[block as int]@);
            match &message.content[block] {
                ContentBlock::ToolCall(call) => {
                    let seen = SeenCall { id: call.id(), name: call.name(), turn };
                    proof {
                        lemma_views_push(calls@, seen);
                    }
                    calls.push(seen);
                    assert(views(calls@) == before.push(seen@));
                    assert(views(calls@).drop_last() =~= before);
                    assert forall|id: Seq<char>, name: Seq<char>| #[trigger]
                        seen_turn(views(calls@), id, name) == call_turn(
                            msgs,
                            index as int,
                            block + 1,
                            id,
                            name,
                        ) by {
                        assert(seen_turn(before, id, name) == call_turn(
                            msgs,
                            index as int,
                            block as int,
                            id,
                            name,
                        ));
                    }
                },
                ContentBlock::ToolResult(result) => {
                    match find_seen(&calls, result.id(), result.name()) {
                        Some(call) => {
                            if call < needed {
                                needed = call;
                            }
                        },
                        None => {},
                    }
                },
                _ => {},
            }
            block += 1;
        }
        dependencies.push(needed);
        index += 1;
    }
    dependencies
}

/// Where the last `turns` turns start, if there are as many.
fn find_recent_start(history: &[Msg], turns: usize) -> (start: Option<usize>)
    requires
        turns > 0,
    ensures
        match start {
            Some(found) => recent_start(views(history@), turns as nat) == Some(found as int)
                && found < history@.len(),
            None => recent_start(views(history@), turns as nat) is None,
        },
{
    let ghost msgs = views(history@);
    let mut left: usize = turns;
    let mut i: usize = history.len();
    assert(msgs.take(i as int) =~= msgs);
    while i > 0
        invariant
            i <= history@.len(),
            left > 0,
            msgs == views(history@),
            recent_start(msgs.take(i as int), left as nat) == recent_start(msgs, turns as nat),
        decreases i,
    {
        i -= 1;
        assert(msgs.take(i + 1).drop_last() =~= msgs.take(i as int));
        assert(msgs.take(i + 1).last() == history@[i as int]@);
        if matches!(history[i].role, Role::User) {
            if left == 1 {
                return Some(i);
            }
            left -= 1;
        }
    }
    None
}

/// Whether there is a turn among the first `count` messages.
fn has_turn(history: &[Msg], count: usize) -> (found: bool)
    requires
        count <= history@.len(),
    ensures
        found == (turn_count(views(history@).take(count as int)) > 0),
{
    count_turns(history, count) > 0
}

/// The number of turns among the first `count` messages.
pub(crate) fn count_turns(history: &[Msg], count: usize) -> (turns: usize)
    requires
        count <= history@.len(),
    ensures
        turns == turn_count(views(history@).take(count as int)),
        turns <= count,
{
    let ghost msgs = views(history@);
    let mut turns: usize = 0;
    let mut i: usize = 0;
    while i < count
        invariant
            i <= count <= history@.len(),
            msgs == views(history@),
            turns <= i,
            turns == turn_count(msgs.take(i as int)),
        decreases count - i,
    {
        assert(msgs.take(i + 1).drop_last() =~= msgs.take(i as int));
        assert(msgs.take(i + 1).last() == history@[i as int]@);
        if matches!(history[i].role, Role::User) {
            turns += 1;
        }
        i += 1;
    }
    turns
}

/// Where the selection of the last `turns` turns starts.
fn find_selection_start(history: &[Msg], turns: usize) -> (start: usize)
    requires
        turns > 0,
    ensures
        start == selection_start(views(history@), turns as nat),
{
    let ghost msgs = views(history@);
    let mut start: usize = match find_recent_start(history, turns) {
        None => {
            return 0;
        },
        Some(start) => start,
    };
    if !has_turn(history, start) {
        return 0;
    }
    let dependencies = find_dependencies(history);
    let ghost recent = start as int;
    let mut index: usize = 0;
    while index < history.len()
        invariant
            index <= history@.len(),
            msgs == views(history@),
            dependencies@.len() == history@.len(),
            forall|i: int|
                0 <= i < history@.len() ==> #[trigger] dependencies@[i] == dependency(msgs, i),
            start == system_start(msgs, recent, index as int),
        decreases history@.len() - index,
    {
        let needed: usize = dependencies[index];
        assert(msgs[index as int] == history@[index as int]@);
        if matches!(history[index].role, Role::System) && needed < index && needed < start {
            start = needed;
        }
        index += 1;
    }
    let ghost first = start as int;
    while index > 0
        invariant
            index <= history@.len(),
            msgs == views(history@),
            dependencies@.len() == history@.len(),
            forall|i: int|
                0 <= i < history@.len() ==> #[trigger] dependencies@[i] == dependency(msgs, i),
            expanded(msgs, start as int, index as int) == expanded(
                msgs,
                first,
                history@.len() as int,
            ),
        decreases index,
    {
        index -= 1;
        let needed: usize = dependencies[index];
        if index >= start && needed < start {
            start = needed;
        }
    }
    start
}

/// The messages from a position on, and the system messages before it.
pub(crate) fn keep_from(history: &[Msg], start: usize) -> (kept: Vec<Msg>)
    ensures
        views(kept@) == kept_from(views(history@), start as int),
{
    let ghost msgs = views(history@);
    let mut kept: Vec<Msg> = Vec::new();
    let mut i: usize = 0;
    assert(views(kept@) =~= Seq::empty());
    while i < history.len()
        invariant
            i <= history@.len(),
            msgs == views(history@),
            views(kept@) == kept_from(msgs.take(i as int), start as int),
        decreases history@.len() - i,
    {
        assert(msgs.take(i + 1).drop_last() =~= msgs.take(i as int));
        assert(msgs.take(i + 1).last() == history@[i as int]@);
        if i >= start || matches!(history[i].role, Role::System) {
            let copied = history[i].clone();
            proof {
                lemma_views_push(kept@, copied);
            }
            kept.push(copied);
        }
        i += 1;
    }
    assert(msgs.take(msgs.len() as int) =~= msgs);
    kept
}

/// The message that holds the latest call with an identifier and a name, among
/// the blocks before block `block` of message `index`.
pub open spec fn call_message(
    history: Seq<MsgView>,
    index: int,
    block: int,
    id: Seq<char>,
    name: Seq<char>,
) -> Option<int>
    decreases index, block,
    when 0 <= index && 0 <= block
{
    if block > 0 {
        match history[index].content[block - 1] {
            BlockView::ToolCall(call) => if call.id == id && call.name == name {
                Some(index)
            } else {
                call_message(history, index, block - 1, id, name)
            },
            _ => call_message(history, index, block - 1, id, name),
        }
    } else if index > 0 {
        call_message(history, index - 1, history[index - 1].content.len() as int, id, name)
    } else {
        None
    }
}

proof fn lemma_call_message(
    history: Seq<MsgView>,
    index: int,
    block: int,
    id: Seq<char>,
    name: Seq<char>,
)
    requires
        0 <= index,
        0 <= block,
    ensures
        match call_message(history, index, block, id, name) {
            Some(call) => 0 <= call <= index && call_turn(history, index, block, id, name) == Some(
                turn_start(history, call),
            ),
            None => call_turn(history, index, block, id, name) is None,
        },
    decreases index, block,
{
    if block > 0 {
        lemma_call_message(history, index, block - 1, id, name);
    } else if index > 0 {
        lemma_call_message(history, index - 1, history[index - 1].content.len() as int, id, name);
    }
}

/// A message depends on the turn of the call of each result that it holds.
proof fn lemma_dependency_covers(history: Seq<MsgView>, index: int, count: int, block: int)
    requires
        0 <= index,
        0 <= block < count,
        history[index].content[block] is ToolResult,
    ensures
        call_turn(
            history,
            index,
            block,
            history[index].content[block]->ToolResult_0.id,
            history[index].content[block]->ToolResult_0.name,
        ) matches Some(turn) ==> dependency_upto(history, index, count) <= turn,
    decreases count,
{
    if block < count - 1 {
        lemma_dependency_covers(history, index, count - 1, block);
    }
}

/// What the system messages depend on is selected.
proof fn lemma_system_start(history: Seq<MsgView>, start: int, count: int)
    requires
        0 <= start,
        0 <= count <= history.len(),
    ensures
        0 <= system_start(history, start, count) <= start,
        forall|k: int|
            0 <= k < count && history[k].role == Role::System && #[trigger] dependency(history, k)
                < k ==> dependency(history, k) >= system_start(history, start, count),
    decreases count,
{
    if count > 0 {
        lemma_system_start(history, start, count - 1);
        lemma_dependency(history, count - 1, history[count - 1].content.len() as int);
    }
}

/// What is selected depends on nothing that is not.
proof fn lemma_expanded(history: Seq<MsgView>, start: int, count: int)
    requires
        0 <= start,
        0 <= count <= history.len(),
        forall|k: int|
            count <= k < history.len() && k >= start ==> #[trigger] dependency(history, k) >= start,
    ensures
        0 <= expanded(history, start, count) <= start,
        forall|k: int|
            0 <= k < history.len() && k >= expanded(history, start, count)
                ==> #[trigger] dependency(history, k) >= expanded(history, start, count),
    decreases count,
{
    if count > 0 {
        let index = count - 1;
        let needed = dependency(history, index);
        lemma_dependency(history, index, history[index].content.len() as int);
        lemma_expanded(
            history,
            if index >= start && needed < start {
                needed
            } else {
                start
            },
            index,
        );
    }
}

/// The requested recent turns are always kept, and the selection never reaches
/// before the beginning.
pub proof fn recent_turns_are_kept(history: Seq<MsgView>, turns: nat)
    ensures
        0 <= selection_start(history, turns),
        recent_start(history, turns) matches Some(start) ==> selection_start(history, turns)
            <= start,
{
    lemma_recent_start(history, turns);
    if let Some(start) = recent_start(history, turns) {
        lemma_system_start(history, start, history.len() as int);
        lemma_expanded(
            history,
            system_start(history, start, history.len() as int),
            history.len() as int,
        );
    }
}

proof fn lemma_recent_start(history: Seq<MsgView>, turns: nat)
    ensures
        match recent_start(history, turns) {
            Some(start) => 0 <= start < history.len() && turn_count(history) == turn_count(
                history.take(start),
            ) + turns,
            None => turns == 0 || turn_count(history) < turns,
        },
    decreases history.len(),
{
    if history.len() > 0 && turns > 0 {
        let shorter = history.drop_last();
        if is_user(history.last()) {
            if turns == 1 {
                assert(history.take(history.len() - 1) =~= shorter);
            } else {
                lemma_recent_start(shorter, (turns - 1) as nat);
                if let Some(start) = recent_start(history, turns) {
                    assert(history.take(start) =~= shorter.take(start));
                }
            }
        } else {
            lemma_recent_start(shorter, turns);
            if let Some(start) = recent_start(history, turns) {
                assert(history.take(start) =~= shorter.take(start));
            }
        }
    }
}

/// Keeping from the beginning keeps everything.
pub proof fn lemma_keep_all(history: Seq<MsgView>, start: int)
    requires
        start <= 0,
    ensures
        kept_from(history, start) == history,
    decreases history.len(),
{
    if history.len() > 0 {
        lemma_keep_all(history.drop_last(), start);
        assert(kept_from(history, start) =~= history);
    } else {
        assert(kept_from(history, start) =~= history);
    }
}

/// A history with no more turns than requested stays as it is.
pub proof fn short_histories_are_unchanged(history: Seq<MsgView>, turns: nat)
    requires
        turn_count(history) <= turns,
    ensures
        selected(history, turns) == history,
{
    lemma_recent_start(history, turns);
    lemma_keep_all(history, 0);
}

/// Whether the message at a position is kept.
pub open spec fn is_kept(history: Seq<MsgView>, start: int, index: int) -> bool {
    index >= start || history[index].role == Role::System
}

/// Where a kept message stands in the selection.
pub open spec fn kept_index(history: Seq<MsgView>, start: int, index: int) -> int {
    kept_from(history.take(index), start).len() as int
}

/// A selection holds the messages that are kept, each at its place and in the
/// order of the history, and nothing else.
pub proof fn selections_preserve_order(history: Seq<MsgView>, start: int, index: int, later: int)
    requires
        0 <= index < later <= history.len(),
        is_kept(history, start, index),
    ensures
        0 <= kept_index(history, start, index) < kept_from(history, start).len(),
        kept_from(history, start)[kept_index(history, start, index)] == history[index],
        kept_index(history, start, index) < kept_index(history, start, later),
        kept_index(history, start, history.len() as int) == kept_from(history, start).len(),
{
    assert(history.take(history.len() as int) =~= history);
    lemma_kept_prefix(history, start, index + 1);
    lemma_kept_prefix(history.take(later), start, index + 1);
    assert(history.take(later).take(index + 1) =~= history.take(index + 1));
    assert(history.take(index + 1).drop_last() =~= history.take(index));
    assert(history.take(index + 1).last() == history[index]);
    let upto = kept_from(history.take(index + 1), start);
    let whole = kept_from(history, start);
    assert(upto.last() == history[index]);
    assert(whole.subrange(0, upto.len() as int)[upto.len() - 1] == upto.last());
}

/// What is kept of a prefix is a prefix of what is kept.
proof fn lemma_kept_prefix(history: Seq<MsgView>, start: int, count: int)
    requires
        0 <= count <= history.len(),
    ensures
        kept_from(history.take(count), start).is_prefix_of(kept_from(history, start)),
    decreases history.len() - count,
{
    let prefix = kept_from(history.take(count), start);
    if count < history.len() {
        lemma_kept_prefix(history, start, count + 1);
        assert(history.take(count + 1).drop_last() =~= history.take(count));
        let longer = kept_from(history.take(count + 1), start);
        let whole = kept_from(history, start);
        assert(prefix.is_prefix_of(longer));
        assert(whole.subrange(0, prefix.len() as int) =~= longer.subrange(0, prefix.len() as int));
    } else {
        assert(history.take(count) =~= history);
    }
}

/// A retained tool result keeps its call: the message of the latest earlier call
/// with its identifier and name is retained too, wherever the result stands.
pub proof fn retained_results_keep_their_calls(
    history: Seq<MsgView>,
    turns: nat,
    index: int,
    block: int,
)
    requires
        0 <= index < history.len(),
        0 <= block < history[index].content.len(),
        history[index].content[block] is ToolResult,
        is_kept(history, selection_start(history, turns), index),
    ensures
        call_message(
            history,
            index,
            block,
            history[index].content[block]->ToolResult_0.id,
            history[index].content[block]->ToolResult_0.name,
        ) matches Some(call) ==> is_kept(history, selection_start(history, turns), call),
{
    let start = selection_start(history, turns);
    let result = history[index].content[block]->ToolResult_0;
    lemma_call_message(history, index, block, result.id, result.name);
    lemma_recent_start(history, turns);
    if let Some(call) = call_message(history, index, block, result.id, result.name) {
        lemma_turn_start(history, call);
        lemma_dependency_covers(
            history,
            index,
            history[index].content.len() as int,
            block,
        );
        assert(dependency(history, index) <= turn_start(history, call) <= call);
        if let Some(recent) = recent_start(history, turns) {
            if turn_count(history.take(recent)) > 0 {
                let first = system_start(history, recent, history.len() as int);
                lemma_system_start(history, recent, history.len() as int);
                lemma_expanded(history, first, history.len() as int);
                lemma_dependency(history, index, history[index].content.len() as int);
                if dependency(history, index) < index {
                    assert(dependency(history, index) >= start);
                } else {
                    assert(call == index);
                }
            }
        }
    }
}

/// Of two selections of one history that hold equally many messages, each is the
/// other.
pub(crate) proof fn lemma_kept_len(history: Seq<MsgView>, earlier: int, later: int)
    requires
        earlier <= later,
    ensures
        kept_from(history, earlier).len() >= kept_from(history, later).len(),
        kept_from(history, earlier).len() == kept_from(history, later).len() ==> kept_from(
            history,
            earlier,
        ) == kept_from(history, later),
    decreases history.len(),
{
    if history.len() > 0 {
        lemma_kept_len(history.drop_last(), earlier, later);
    }
}

} // verus!
