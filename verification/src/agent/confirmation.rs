//! Human confirmation and resumable tool-call checkpoints.
use vstd::prelude::*;

use crate::message::tool_call::{ToolCallBlock, ToolCallState, ToolCallView};
use crate::text::{blank, concat3, is_blank, join, joined, same_text, text_option, texts};
use crate::view::views;

verus! {

/// A batch of tool calls paused for explicit user confirmation.
#[derive(Debug, PartialEq, Eq)]
pub struct PendingToolCalls {
    pub(crate) reply_id: String,
    pub(crate) step: usize,
    pub(crate) calls: Vec<ToolCallBlock>,
}

/// What a batch of paused tool calls holds.
#[verifier::ext_equal]
pub struct PendingView {
    pub reply_id: Seq<char>,
    pub step: nat,
    pub calls: Seq<ToolCallView>,
}

impl View for PendingToolCalls {
    type V = PendingView;

    open(crate) spec fn view(&self) -> PendingView {
        PendingView {
            reply_id: self.reply_id@,
            step: self.step as nat,
            calls: views(self.calls@),
        }
    }
}

impl Clone for PendingToolCalls {
    fn clone(&self) -> (copied: PendingToolCalls)
        ensures
            copied@ == self@,
    {
        let calls = self.calls.clone();
        assert(views(calls@) =~= views(self.calls@));
        PendingToolCalls { reply_id: self.reply_id.clone(), step: self.step, calls }
    }
}

/// Whether one of some calls has an identifier.
pub open spec fn has_call(calls: Seq<ToolCallView>, id: Seq<char>) -> bool {
    exists|i: int| 0 <= i < calls.len() && (#[trigger] calls[i]).id == id
}

/// What is wrong with the calls of a checkpoint: the first of them that does not
/// ask for confirmation or repeats an identifier.
pub open spec fn calls_fault(calls: Seq<ToolCallView>) -> Option<Seq<char>>
    decreases calls.len(),
{
    if calls.len() == 0 {
        None
    } else {
        let before = calls.drop_last();
        match calls_fault(before) {
            Some(fault) => Some(fault),
            None => if calls.last().state != ToolCallState::Asking {
                Some(
                    "pending tool call `"@ + calls.last().id + "` must be in asking state"@,
                )
            } else if has_call(before, calls.last().id) {
                Some("duplicate pending tool call id `"@ + calls.last().id + "`"@)
            } else {
                None
            },
        }
    }
}

/// What is wrong with a checkpoint, if anything.
pub open spec fn pending_fault(pending: PendingView) -> Option<Seq<char>> {
    if blank(pending.reply_id) {
        Some("pending tool reply id cannot be empty"@)
    } else if pending.step == 0 {
        Some("pending tool step must be greater than zero"@)
    } else if pending.calls.len() == 0 {
        Some("pending tool calls cannot be empty"@)
    } else {
        calls_fault(pending.calls)
    }
}

proof fn lemma_calls_fault(calls: Seq<ToolCallView>, count: int)
    requires
        0 <= count <= calls.len(),
        calls_fault(calls.take(count)) is Some,
    ensures
        calls_fault(calls) == calls_fault(calls.take(count)),
    decreases calls.len() - count,
{
    if count < calls.len() {
        assert(calls.take(count + 1).drop_last() =~= calls.take(count));
        lemma_calls_fault(calls, count + 1);
    } else {
        assert(calls.take(count) =~= calls);
    }
}

/// Whether one of the first `count` calls has an identifier.
pub(crate) fn contains_call(calls: &Vec<ToolCallBlock>, count: usize, id: &str) -> (found: bool)
    requires
        count <= calls@.len(),
    ensures
        found == has_call(views(calls@).take(count as int), id@),
{
    let ghost all = views(calls@);
    let mut i: usize = 0;
    while i < count
        invariant
            i <= count <= calls@.len(),
            all == views(calls@),
            forall|j: int| 0 <= j < i ==> (#[trigger] all[j]).id != id@,
        decreases count - i,
    {
        assert(all[i as int] == calls@[i as int]@);
        if same_text(calls[i].id(), id) {
            assert(all.take(count as int)[i as int].id == id@);
            return true;
        }
        i += 1;
    }
    assert forall|j: int| 0 <= j < count implies (#[trigger] all.take(count as int)[j]).id != id@ by {
        assert(all.take(count as int)[j] == all[j]);
    }
    false
}

impl PendingToolCalls {
    /// A checkpoint for a reply with tool calls.
    pub fn new(reply_id: String, step: usize, calls: Vec<ToolCallBlock>) -> (pending: PendingToolCalls)
        ensures
            pending@ == (PendingView {
                reply_id: reply_id@,
                step: step as nat,
                calls: views(calls@),
            }),
    {
        PendingToolCalls { reply_id, step, calls }
    }

    /// The assistant reply identifier used to resume this checkpoint.
    pub fn reply_id(&self) -> (reply_id: &str)
        ensures
            reply_id@ == self@.reply_id,
    {
        self.reply_id.as_str()
    }

    /// The model step that requested the tools.
    pub fn step(&self) -> (step: usize)
        ensures
            step == self@.step,
    {
        self.step
    }

    /// The tool calls awaiting decisions.
    pub fn calls(&self) -> (calls: &Vec<ToolCallBlock>)
        ensures
            views(calls@) == self@.calls,
    {
        &self.calls
    }

    /// Accepts a checkpoint that can be resumed.
    pub fn validate(&self) -> (result: Result<(), String>)
        ensures
            match result {
                Ok(()) => pending_fault(self@) is None,
                Err(fault) => pending_fault(self@) == Some(fault@),
            },
    {
        if is_blank(self.reply_id.as_str()) {
            return Err("pending tool reply id cannot be empty".to_owned());
        }
        if self.step == 0 {
            return Err("pending tool step must be greater than zero".to_owned());
        }
        if self.calls.len() == 0 {
            return Err("pending tool calls cannot be empty".to_owned());
        }
        let ghost calls = views(self.calls@);
        let mut i: usize = 0;
        while i < self.calls.len()
            invariant
                i <= self.calls@.len(),
                calls == views(self.calls@),
                calls == self@.calls,
                calls_fault(calls.take(i as int)) is None,
                calls_fault(calls) is Some ==> pending_fault(self@) == calls_fault(calls),
            decreases self.calls@.len() - i,
        {
            let call = &self.calls[i];
            proof {
                assert(calls.take(i + 1).drop_last() =~= calls.take(i as int));
                assert(calls.take(i + 1).last() == call@);
                if calls_fault(calls.take(i + 1)) is Some {
                    lemma_calls_fault(calls, i + 1);
                }
            }
            if !matches!(call.state, ToolCallState::Asking) {
                return Err(
                    concat3("pending tool call `", call.id(), "` must be in asking state"),
                );
            }
            if contains_call(&self.calls, i, call.id()) {
                return Err(concat3("duplicate pending tool call id `", call.id(), "`"));
            }
            i += 1;
        }
        assert(calls.take(calls.len() as int) =~= calls);
        Ok(())
    }
}

/// The user's decision for one pending tool call.
#[derive(Debug, PartialEq, Eq)]
pub enum ToolConfirmationDecision {
    /// Permit execution of the tool.
    Approve,
    /// Do not execute the tool and return a denied result to the model.
    Deny {
        /// Human-readable reason shown to the model.
        reason: String,
    },
}

/// What a decision holds.
#[verifier::ext_equal]
pub enum DecisionView {
    Approve,
    Deny(Seq<char>),
}

impl View for ToolConfirmationDecision {
    type V = DecisionView;

    open spec fn view(&self) -> DecisionView {
        match self {
            ToolConfirmationDecision::Approve => DecisionView::Approve,
            ToolConfirmationDecision::Deny { reason } => DecisionView::Deny(reason@),
        }
    }
}

impl Clone for ToolConfirmationDecision {
    fn clone(&self) -> (copied: ToolConfirmationDecision)
        ensures
            copied == self,
    {
        match self {
            ToolConfirmationDecision::Approve => ToolConfirmationDecision::Approve,
            ToolConfirmationDecision::Deny { reason } => ToolConfirmationDecision::Deny {
                reason: reason.clone(),
            },
        }
    }
}

/// A decision associated with one provider-assigned tool-call identifier.
#[derive(Debug, PartialEq, Eq)]
pub struct ToolConfirmation {
    pub(crate) tool_call_id: String,
    pub(crate) decision: ToolConfirmationDecision,
}

/// What a confirmation holds.
#[verifier::ext_equal]
pub struct ConfirmationView {
    pub tool_call_id: Seq<char>,
    pub decision: DecisionView,
}

impl View for ToolConfirmation {
    type V = ConfirmationView;

    open(crate) spec fn view(&self) -> ConfirmationView {
        ConfirmationView { tool_call_id: self.tool_call_id@, decision: self.decision@ }
    }
}

impl Clone for ToolConfirmation {
    fn clone(&self) -> (copied: ToolConfirmation)
        ensures
            copied == self,
            copied@ == self@,
    {
        ToolConfirmation {
            tool_call_id: self.tool_call_id.clone(),
            decision: self.decision.clone(),
        }
    }
}

impl ToolConfirmation {
    /// Approves one pending tool call.
    pub fn approve(tool_call_id: &str) -> (confirmation: ToolConfirmation)
        ensures
            confirmation@ == (ConfirmationView {
                tool_call_id: tool_call_id@,
                decision: DecisionView::Approve,
            }),
    {
        ToolConfirmation {
            tool_call_id: tool_call_id.to_owned(),
            decision: ToolConfirmationDecision::Approve,
        }
    }

    /// Denies one pending tool call with a reason visible to the model.
    pub fn deny(tool_call_id: &str, reason: &str) -> (confirmation: ToolConfirmation)
        ensures
            confirmation@ == (ConfirmationView {
                tool_call_id: tool_call_id@,
                decision: DecisionView::Deny(reason@),
            }),
    {
        ToolConfirmation {
            tool_call_id: tool_call_id.to_owned(),
            decision: ToolConfirmationDecision::Deny { reason: reason.to_owned() },
        }
    }

    /// The provider-assigned tool-call identifier.
    pub fn tool_call_id(&self) -> (id: &str)
        ensures
            id@ == self@.tool_call_id,
    {
        self.tool_call_id.as_str()
    }

    /// The confirmation decision.
    pub fn decision(&self) -> (decision: &ToolConfirmationDecision)
        ensures
            decision@ == self@.decision,
    {
        &self.decision
    }

    /// The identifier and the decision.
    pub fn into_parts(self) -> (parts: (String, ToolConfirmationDecision))
        ensures
            parts.0@ == self@.tool_call_id,
            parts.1@ == self@.decision,
    {
        (self.tool_call_id, self.decision)
    }
}

/// The decision for a call, if there is one.
pub open spec fn decision_for(decisions: Seq<ConfirmationView>, id: Seq<char>) -> Option<DecisionView>
    decreases decisions.len(),
{
    if decisions.len() == 0 {
        None
    } else if decisions.last().tool_call_id == id {
        Some(decisions.last().decision)
    } else {
        decision_for(decisions.drop_last(), id)
    }
}

/// What is wrong with decisions: the first that is for no pending call or for one
/// that has a decision.
pub open spec fn decisions_fault(calls: Seq<ToolCallView>, decisions: Seq<ConfirmationView>) -> Option<
    Seq<char>,
>
    decreases decisions.len(),
{
    if decisions.len() == 0 {
        None
    } else {
        let before = decisions.drop_last();
        let id = decisions.last().tool_call_id;
        match decisions_fault(calls, before) {
            Some(fault) => Some(fault),
            None => if !has_call(calls, id) {
                Some("tool call `"@ + id + "` is not pending"@)
            } else if decision_for(before, id) is Some {
                Some("tool call `"@ + id + "` has more than one decision"@)
            } else {
                None
            },
        }
    }
}

/// The identifiers of the calls without a decision.
pub open spec fn undecided(calls: Seq<ToolCallView>, decisions: Seq<ConfirmationView>) -> Seq<
    Seq<char>,
>
    decreases calls.len(),
{
    if calls.len() == 0 {
        Seq::empty()
    } else {
        let rest = undecided(calls.drop_last(), decisions);
        if decision_for(decisions, calls.last().id) is None {
            rest.push(calls.last().id)
        } else {
            rest
        }
    }
}

/// What is wrong with the decisions for a checkpoint, if anything.
pub open spec fn confirmation_fault(
    calls: Seq<ToolCallView>,
    decisions: Seq<ConfirmationView>,
) -> Option<Seq<char>> {
    match decisions_fault(calls, decisions) {
        Some(fault) => Some(fault),
        None => if undecided(calls, decisions).len() > 0 {
            Some(
                "missing decisions for tool calls: "@ + joined(
                    undecided(calls, decisions),
                    ", "@,
                ),
            )
        } else {
            None
        },
    }
}

/// Finds the decision for a call among the first `count` confirmations.
pub(crate) fn find_decision<'a>(
    confirmations: &'a Vec<ToolConfirmation>,
    count: usize,
    id: &str,
) -> (decision: Option<&'a ToolConfirmationDecision>)
    requires
        count <= confirmations@.len(),
    ensures
        match decision {
            Some(found) => decision_for(views(confirmations@).take(count as int), id@) == Some(
                found@,
            ),
            None => decision_for(views(confirmations@).take(count as int), id@) is None,
        },
{
    let ghost all = views(confirmations@).take(count as int);
    let mut i: usize = count;
    assert(all.take(i as int) =~= all);
    while i > 0
        invariant
            i <= count <= confirmations@.len(),
            all == views(confirmations@).take(count as int),
            decision_for(all.take(i as int), id@) == decision_for(all, id@),
        decreases i,
    {
        i -= 1;
        assert(all.take(i + 1).drop_last() =~= all.take(i as int));
        assert(all.take(i + 1).last() == confirmations@[i as int]@);
        if same_text(confirmations[i].tool_call_id(), id) {
            return Some(confirmations[i].decision());
        }
    }
    None
}

proof fn lemma_decisions_fault(
    calls: Seq<ToolCallView>,
    decisions: Seq<ConfirmationView>,
    count: int,
)
    requires
        0 <= count <= decisions.len(),
        decisions_fault(calls, decisions.take(count)) is Some,
    ensures
        decisions_fault(calls, decisions) == decisions_fault(calls, decisions.take(count)),
    decreases decisions.len() - count,
{
    if count < decisions.len() {
        assert(decisions.take(count + 1).drop_last() =~= decisions.take(count));
        lemma_decisions_fault(calls, decisions, count + 1);
    } else {
        assert(decisions.take(count) =~= decisions);
    }
}

/// Accepts one decision for each pending call and no other.
pub fn check_confirmations(
    calls: &Vec<ToolCallBlock>,
    confirmations: &Vec<ToolConfirmation>,
) -> (result: Result<(), String>)
    ensures
        match result {
            Ok(()) => confirmation_fault(views(calls@), views(confirmations@)) is None,
            Err(fault) => confirmation_fault(views(calls@), views(confirmations@)) == Some(fault@),
        },
{
    let ghost pending = views(calls@);
    let ghost decisions = views(confirmations@);
    assert(pending.take(pending.len() as int) =~= pending);
    let mut i: usize = 0;
    while i < confirmations.len()
        invariant
            i <= confirmations@.len(),
            pending == views(calls@),
            pending.take(pending.len() as int) == pending,
            decisions == views(confirmations@),
            decisions_fault(pending, decisions.take(i as int)) is None,
        decreases confirmations@.len() - i,
    {
        let id = confirmations[i].tool_call_id();
        proof {
            assert(decisions.take(i + 1).drop_last() =~= decisions.take(i as int));
            assert(decisions.take(i + 1).last() == confirmations@[i as int]@);
            if decisions_fault(pending, decisions.take(i + 1)) is Some {
                lemma_decisions_fault(pending, decisions, i + 1);
            }
        }
        if !contains_call(calls, calls.len(), id) {
            return Err(concat3("tool call `", id, "` is not pending"));
        }
        if find_decision(confirmations, i, id).is_some() {
            return Err(concat3("tool call `", id, "` has more than one decision"));
        }
        i += 1;
    }
    assert(decisions.take(decisions.len() as int) =~= decisions);
    let mut missing: Vec<String> = Vec::new();
    let mut k: usize = 0;
    assert(texts(missing@) =~= Seq::empty());
    while k < calls.len()
        invariant
            k <= calls@.len(),
            pending == views(calls@),
            decisions == views(confirmations@),
            decisions.take(decisions.len() as int) == decisions,
            texts(missing@) == undecided(pending.take(k as int), decisions),
        decreases calls@.len() - k,
    {
        assert(pending.take(k + 1).drop_last() =~= pending.take(k as int));
        assert(pending.take(k + 1).last() == calls@[k as int]@);
        if find_decision(confirmations, confirmations.len(), calls[k].id()).is_none() {
            let ghost before = texts(missing@);
            missing.push(calls[k].id().to_owned());
            assert(texts(missing@) =~= before.push(calls@[k as int]@.id));
        }
        k += 1;
    }
    if missing.len() > 0 {
        return Err(
            crate::text::concat2(
                "missing decisions for tool calls: ",
                join(&missing, ", ").as_str(),
            ),
        );
    }
    Ok(())
}

/// The positions of the decisions for a call.
pub open spec fn decides(decisions: Seq<ConfirmationView>, i: int, id: Seq<char>) -> bool {
    0 <= i < decisions.len() && decisions[i].tool_call_id == id
}

pub(crate) proof fn lemma_decision_for(decisions: Seq<ConfirmationView>, id: Seq<char>)
    ensures
        decision_for(decisions, id) is Some <==> exists|i: int| #[trigger]
            decides(decisions, i, id),
    decreases decisions.len(),
{
    if decisions.len() > 0 {
        let before = decisions.drop_last();
        lemma_decision_for(before, id);
        if decision_for(decisions, id) is Some {
            if decisions.last().tool_call_id == id {
                assert(decides(decisions, decisions.len() - 1, id));
            } else {
                let i = choose|i: int| #[trigger] decides(before, i, id);
                assert(decides(decisions, i, id));
            }
        }
        if exists|i: int| #[trigger] decides(decisions, i, id) {
            let i = choose|i: int| #[trigger] decides(decisions, i, id);
            if i < decisions.len() - 1 {
                assert(decides(before, i, id));
            }
        }
    }
}

pub(crate) proof fn lemma_undecided(calls: Seq<ToolCallView>, decisions: Seq<ConfirmationView>)
    requires
        undecided(calls, decisions).len() == 0,
    ensures
        forall|k: int|
            0 <= k < calls.len() ==> decision_for(decisions, (#[trigger] calls[k]).id) is Some,
    decreases calls.len(),
{
    if calls.len() > 0 {
        lemma_undecided(calls.drop_last(), decisions);
        assert forall|k: int| 0 <= k < calls.len() implies decision_for(
            decisions,
            (#[trigger] calls[k]).id,
        ) is Some by {
            if k < calls.len() - 1 {
                assert(calls.drop_last()[k] == calls[k]);
            }
        }
    }
}

pub(crate) proof fn lemma_decisions_distinct(calls: Seq<ToolCallView>, decisions: Seq<ConfirmationView>)
    requires
        decisions_fault(calls, decisions) is None,
    ensures
        forall|i: int|
            0 <= i < decisions.len() ==> has_call(calls, (#[trigger] decisions[i]).tool_call_id),
        forall|i: int, j: int|
            0 <= i < j < decisions.len() ==> (#[trigger] decisions[i]).tool_call_id != (
            #[trigger] decisions[j]).tool_call_id,
    decreases decisions.len(),
{
    if decisions.len() > 0 {
        let before = decisions.drop_last();
        lemma_decisions_distinct(calls, before);
        lemma_decision_for(before, decisions.last().tool_call_id);
        assert forall|i: int| 0 <= i < decisions.len() implies has_call(
            calls,
            (#[trigger] decisions[i]).tool_call_id,
        ) by {
            if i < decisions.len() - 1 {
                assert(before[i] == decisions[i]);
            }
        }
        assert forall|i: int, j: int| 0 <= i < j < decisions.len() implies (
        #[trigger] decisions[i]).tool_call_id != (#[trigger] decisions[j]).tool_call_id by {
            assert(before[i] == decisions[i]);
            if j < decisions.len() - 1 {
                assert(before[j] == decisions[j]);
            } else {
                if decisions[i].tool_call_id == decisions[j].tool_call_id {
                    assert(decides(before, i, decisions.last().tool_call_id));
                }
            }
        }
    }
}

/// Decisions are accepted only where every pending call has one, each is for a
/// pending call, and none decides a call again.
pub proof fn accepted_decisions_cover_each_call_once(
    calls: Seq<ToolCallView>,
    decisions: Seq<ConfirmationView>,
)
    requires
        confirmation_fault(calls, decisions) is None,
    ensures
        forall|k: int|
            0 <= k < calls.len() ==> decision_for(decisions, (#[trigger] calls[k]).id) is Some,
        forall|i: int|
            0 <= i < decisions.len() ==> has_call(calls, (#[trigger] decisions[i]).tool_call_id),
        forall|i: int, j: int|
            0 <= i < j < decisions.len() ==> (#[trigger] decisions[i]).tool_call_id != (
            #[trigger] decisions[j]).tool_call_id,
{
    lemma_undecided(calls, decisions);
    lemma_decisions_distinct(calls, decisions);
}

/// Approved tool calls whose execution may have begun.
#[derive(Debug, PartialEq, Eq)]
pub struct PendingToolExecution {
    pub(crate) execution_id: String,
    pub(crate) confirmation: PendingToolCalls,
    pub(crate) decisions: Vec<ToolConfirmation>,
}

/// What an execution checkpoint holds.
#[verifier::ext_equal]
pub struct ExecutionView {
    pub execution_id: Seq<char>,
    pub confirmation: PendingView,
    pub decisions: Seq<ConfirmationView>,
}

impl View for PendingToolExecution {
    type V = ExecutionView;

    open(crate) spec fn view(&self) -> ExecutionView {
        ExecutionView {
            execution_id: self.execution_id@,
            confirmation: self.confirmation@,
            decisions: views(self.decisions@),
        }
    }
}

impl Clone for PendingToolExecution {
    fn clone(&self) -> (copied: PendingToolExecution)
        ensures
            copied@ == self@,
    {
        let decisions = self.decisions.clone();
        assert(views(decisions@) =~= views(self.decisions@));
        PendingToolExecution {
            execution_id: self.execution_id.clone(),
            confirmation: self.confirmation.clone(),
            decisions,
        }
    }
}

/// The key under which the effects of an approved call are deduplicated.
pub open spec fn key_for(execution: ExecutionView, call_id: Seq<char>) -> Option<Seq<char>> {
    if has_call(execution.confirmation.calls, call_id) && decision_for(
        execution.decisions,
        call_id,
    ) == Some(DecisionView::Approve) {
        Some(execution.execution_id + ":"@ + call_id)
    } else {
        None
    }
}

impl PendingToolExecution {
    /// A checkpoint for the execution of decided calls.
    pub fn new(
        execution_id: String,
        confirmation: PendingToolCalls,
        decisions: Vec<ToolConfirmation>,
    ) -> (execution: PendingToolExecution)
        ensures
            execution@ == (ExecutionView {
                execution_id: execution_id@,
                confirmation: confirmation@,
                decisions: views(decisions@),
            }),
    {
        PendingToolExecution { execution_id, confirmation, decisions }
    }

    /// The identifier of the execution.
    pub fn execution_id(&self) -> (id: &str)
        ensures
            id@ == self@.execution_id,
    {
        self.execution_id.as_str()
    }

    /// The checkpoint that was confirmed.
    pub fn confirmation(&self) -> (confirmation: &PendingToolCalls)
        ensures
            confirmation@ == self@.confirmation,
    {
        &self.confirmation
    }

    /// The decisions for the calls of the checkpoint.
    pub fn decisions(&self) -> (decisions: &Vec<ToolConfirmation>)
        ensures
            views(decisions@) == self@.decisions,
    {
        &self.decisions
    }

    /// The key under which the effects of an approved call are deduplicated.
    pub fn idempotency_key(&self, call_id: &str) -> (key: Option<String>)
        ensures
            text_option(key) == key_for(self@, call_id@),
    {
        let ghost all = views(self.decisions@);
        assert(all.take(all.len() as int) =~= all);
        let ghost calls = views(self.confirmation.calls@);
        assert(calls.take(calls.len() as int) =~= calls);
        if !contains_call(&self.confirmation.calls, self.confirmation.calls.len(), call_id) {
            return None;
        }
        match find_decision(&self.decisions, self.decisions.len(), call_id) {
            Some(ToolConfirmationDecision::Approve) => Some(
                concat3(self.execution_id.as_str(), ":", call_id),
            ),
            _ => None,
        }
    }
}

} // verus!
