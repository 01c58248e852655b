//! Results of tool calls that were approved or denied.
use vstd::prelude::*;

use super::confirmation::{
    decision_for, find_decision, ConfirmationView, DecisionView, ToolConfirmation,
    ToolConfirmationDecision,
};
use super::error::{AgentError, AgentErrorView, AgentResult};
use crate::message::tool_call::{ToolCallBlock, ToolCallView};
use crate::message::tool_result::{
    finished_error, is_new_result, result_error_text, OutputView, ToolResultBlock,
    ToolResultOutput, ToolResultState, ToolResultView,
};
use crate::text::{concat3, same_text};
use crate::view::{lemma_views_push, views};

verus! {

/// The approved ones of some calls, in order.
pub open spec fn approved_in(calls: Seq<ToolCallView>, decisions: Seq<ConfirmationView>) -> Seq<
    ToolCallView,
>
    decreases calls.len(),
{
    if calls.len() == 0 {
        Seq::empty()
    } else {
        let rest = approved_in(calls.drop_last(), decisions);
        if decision_for(decisions, calls.last().id) == Some(DecisionView::Approve) {
            rest.push(calls.last())
        } else {
            rest
        }
    }
}

/// The approved ones of some calls, in order.
pub fn approved_calls(calls: &Vec<ToolCallBlock>, decisions: &Vec<ToolConfirmation>) -> (approved:
    Vec<ToolCallBlock>)
    ensures
        views(approved@) == approved_in(views(calls@), views(decisions@)),
{
    let ghost all = views(calls@);
    let ghost decided = views(decisions@);
    let mut approved: Vec<ToolCallBlock> = Vec::new();
    let mut i: usize = 0;
    assert(views(approved@) =~= Seq::empty());
    assert(decided.take(decided.len() as int) =~= decided);
    while i < calls.len()
        invariant
            i <= calls@.len(),
            all == views(calls@),
            decided == views(decisions@),
            decided.take(decided.len() as int) == decided,
            views(approved@) == approved_in(all.take(i as int), decided),
        decreases calls@.len() - i,
    {
        assert(all.take(i + 1).drop_last() =~= all.take(i as int));
        assert(all.take(i + 1).last() == calls@[i as int]@);
        if let Some(ToolConfirmationDecision::Approve) = find_decision(
            decisions,
            decisions.len(),
            calls[i].id(),
        ) {
            let call = calls[i].clone();
            proof {
                lemma_views_push(approved@, call);
            }
            approved.push(call);
        }
        i += 1;
    }
    assert(all.take(all.len() as int) =~= all);
    approved
}

/// The last result for a call, if there is one.
pub open spec fn result_for(results: Seq<ToolResultView>, id: Seq<char>) -> Option<ToolResultView>
    decreases results.len(),
{
    if results.len() == 0 {
        None
    } else if results.last().id == id {
        Some(results.last())
    } else {
        result_for(results.drop_last(), id)
    }
}

fn find_result<'a>(results: &'a Vec<ToolResultBlock>, count: usize, id: &str) -> (found: Option<
    &'a ToolResultBlock,
>)
    requires
        count <= results@.len(),
    ensures
        match found {
            Some(result) => result_for(views(results@).take(count as int), id@) == Some(result@),
            None => result_for(views(results@).take(count as int), id@) is None,
        },
{
    let ghost all = views(results@).take(count as int);
    let mut i: usize = count;
    assert(all.take(i as int) =~= all);
    while i > 0
        invariant
            i <= count <= results@.len(),
            all == views(results@).take(count as int),
            result_for(all.take(i as int), id@) == result_for(all, id@),
        decreases i,
    {
        i -= 1;
        assert(all.take(i + 1).drop_last() =~= all.take(i as int));
        assert(all.take(i + 1).last() == results@[i as int]@);
        if same_text(results[i].id(), id) {
            return Some(&results[i]);
        }
    }
    None
}

/// Why decided calls cannot all have a result.
#[derive(Debug)]
pub enum MergeFault {
    /// An approved call, by its identifier, has no result.
    Missing(String),
    /// A denial cannot be recorded, for a reason.
    Invalid(String),
}

/// What a fault holds.
#[verifier::ext_equal]
pub enum MergeFaultView {
    Missing(Seq<char>),
    Invalid(Seq<char>),
}

impl View for MergeFault {
    type V = MergeFaultView;

    open spec fn view(&self) -> MergeFaultView {
        match self {
            MergeFault::Missing(id) => MergeFaultView::Missing(id@),
            MergeFault::Invalid(reason) => MergeFaultView::Invalid(reason@),
        }
    }
}

/// Why a decided call cannot have a result, if it cannot.
pub open spec fn call_fault(
    call: ToolCallView,
    decisions: Seq<ConfirmationView>,
    given: Seq<ToolResultView>,
) -> Option<MergeFaultView> {
    match decision_for(decisions, call.id) {
        Some(DecisionView::Deny(_)) => match finished_error(
            call.id,
            call.name,
            ToolResultState::Denied,
        ) {
            Some(error) => Some(MergeFaultView::Invalid(result_error_text(error))),
            None => None,
        },
        _ => if result_for(given, call.id) is None {
            Some(MergeFaultView::Missing(call.id))
        } else {
            None
        },
    }
}

/// Why decided calls cannot all have a result: the reason of the first.
pub open spec fn merge_fault(
    calls: Seq<ToolCallView>,
    decisions: Seq<ConfirmationView>,
    given: Seq<ToolResultView>,
) -> Option<MergeFaultView>
    decreases calls.len(),
{
    if calls.len() == 0 {
        None
    } else {
        match merge_fault(calls.drop_last(), decisions, given) {
            Some(fault) => Some(fault),
            None => call_fault(calls.last(), decisions, given),
        }
    }
}

/// Whether a result is that of a decided call: the given one where it was approved,
/// the reason where it was denied.
pub open spec fn decides_result(
    result: ToolResultView,
    call: ToolCallView,
    decisions: Seq<ConfirmationView>,
    given: Seq<ToolResultView>,
) -> bool {
    match decision_for(decisions, call.id) {
        Some(DecisionView::Deny(reason)) => is_new_result(
            result,
            call.id,
            call.name,
            OutputView::Text(reason),
            ToolResultState::Denied,
        ),
        _ => result_for(given, call.id) == Some(result),
    }
}

/// Whether results are those of decided calls, one for one and in order.
pub open spec fn merges(
    calls: Seq<ToolCallView>,
    decisions: Seq<ConfirmationView>,
    given: Seq<ToolResultView>,
    results: Seq<ToolResultView>,
) -> bool {
    results.len() == calls.len() && forall|i: int|
        0 <= i < calls.len() ==> decides_result(#[trigger] results[i], calls[i], decisions, given)
}

proof fn lemma_merge_fault(
    calls: Seq<ToolCallView>,
    decisions: Seq<ConfirmationView>,
    given: Seq<ToolResultView>,
    count: int,
)
    requires
        0 <= count <= calls.len(),
        merge_fault(calls.take(count), decisions, given) is Some,
    ensures
        merge_fault(calls, decisions, given) == merge_fault(calls.take(count), decisions, given),
    decreases calls.len() - count,
{
    if count < calls.len() {
        assert(calls.take(count + 1).drop_last() =~= calls.take(count));
        lemma_merge_fault(calls, decisions, given, count + 1);
    } else {
        assert(calls.take(count) =~= calls);
    }
}

fn result_of(
    call: &ToolCallBlock,
    decisions: &Vec<ToolConfirmation>,
    given: &Vec<ToolResultBlock>,
) -> (result: Result<ToolResultBlock, MergeFault>)
    ensures
        match result {
            Ok(block) => call_fault(call@, views(decisions@), views(given@)) is None
                && decides_result(block@, call@, views(decisions@), views(given@)),
            Err(fault) => call_fault(call@, views(decisions@), views(given@)) == Some(fault@),
        },
{
    proof {
        assert(views(decisions@).take(decisions@.len() as int) =~= views(decisions@));
        assert(views(given@).take(given@.len() as int) =~= views(given@));
    }
    match find_decision(decisions, decisions.len(), call.id()) {
        Some(ToolConfirmationDecision::Deny { reason }) => {
            match ToolResultBlock::finished(
                call.id(),
                call.name(),
                ToolResultOutput::Text(reason.clone()),
                ToolResultState::Denied,
            ) {
                Ok(block) => Ok(block),
                Err(error) => Err(MergeFault::Invalid(error.to_string())),
            }
        },
        _ => match find_result(given, given.len(), call.id()) {
            Some(found) => Ok(found.clone()),
            None => Err(MergeFault::Missing(call.id().to_owned())),
        },
    }
}

/// The results of decided calls: given ones for the approved calls, and denials
/// with their reasons.
pub fn merge_results(
    calls: &Vec<ToolCallBlock>,
    decisions: &Vec<ToolConfirmation>,
    given: &Vec<ToolResultBlock>,
) -> (result: Result<Vec<ToolResultBlock>, MergeFault>)
    ensures
        match result {
            Ok(results) => merge_fault(views(calls@), views(decisions@), views(given@)) is None
                && merges(views(calls@), views(decisions@), views(given@), views(results@)),
            Err(fault) => merge_fault(views(calls@), views(decisions@), views(given@)) == Some(
                fault@,
            ),
        },
{
    let ghost all = views(calls@);
    let ghost decided = views(decisions@);
    let ghost offered = views(given@);
    let mut results: Vec<ToolResultBlock> = Vec::new();
    let mut i: usize = 0;
    while i < calls.len()
        invariant
            i <= calls@.len(),
            all == views(calls@),
            decided == views(decisions@),
            offered == views(given@),
            results@.len() == i,
            merge_fault(all.take(i as int), decided, offered) is None,
            forall|j: int|
                0 <= j < i ==> decides_result(
                    (#[trigger] results@[j])@,
                    all[j],
                    decided,
                    offered,
                ),
        decreases calls@.len() - i,
    {
        assert(all.take(i + 1).drop_last() =~= all.take(i as int));
        assert(all.take(i + 1).last() == calls@[i as int]@);
        match result_of(&calls[i], decisions, given) {
            Ok(block) => {
                results.push(block);
            },
            Err(fault) => {
                proof {
                    lemma_merge_fault(all, decided, offered, i + 1);
                }
                return Err(fault);
            },
        }
        i += 1;
    }
    proof {
        assert(all.take(all.len() as int) =~= all);
        assert forall|j: int| 0 <= j < all.len() implies decides_result(
            #[trigger] views(results@)[j],
            all[j],
            decided,
            offered,
        ) by {
            assert(views(results@)[j] == results@[j]@);
        }
    }
    Ok(results)
}

/// Whether a result is for an approved one of some calls.
pub open spec fn answers_approved(
    calls: Seq<ToolCallView>,
    decisions: Seq<ConfirmationView>,
    result: ToolResultView,
) -> bool {
    decision_for(decisions, result.id) == Some(DecisionView::Approve) && exists|i: int|
        0 <= i < calls.len() && (#[trigger] calls[i]).id == result.id && calls[i].name
            == result.name
}

/// What is wrong with given results: the first that is for no approved call, comes
/// after another for its call, or is not final.
pub open spec fn given_fault(
    calls: Seq<ToolCallView>,
    decisions: Seq<ConfirmationView>,
    given: Seq<ToolResultView>,
) -> Option<Seq<char>>
    decreases given.len(),
{
    if given.len() == 0 {
        None
    } else {
        let before = given.drop_last();
        match given_fault(calls, decisions, before) {
            Some(fault) => Some(fault),
            None => if !answers_approved(calls, decisions, given.last()) {
                Some("result `"@ + given.last().id + "` is for no approved tool call"@)
            } else if result_for(before, given.last().id) is Some {
                Some("tool call `"@ + given.last().id + "` has more than one result"@)
            } else if given.last().state == ToolResultState::Running {
                Some("result `"@ + given.last().id + "` is not final"@)
            } else {
                None
            },
        }
    }
}

proof fn lemma_given_fault(
    calls: Seq<ToolCallView>,
    decisions: Seq<ConfirmationView>,
    given: Seq<ToolResultView>,
    count: int,
)
    requires
        0 <= count <= given.len(),
        given_fault(calls, decisions, given.take(count)) is Some,
    ensures
        given_fault(calls, decisions, given) == given_fault(calls, decisions, given.take(count)),
    decreases given.len() - count,
{
    if count < given.len() {
        assert(given.take(count + 1).drop_last() =~= given.take(count));
        lemma_given_fault(calls, decisions, given, count + 1);
    } else {
        assert(given.take(count) =~= given);
    }
}

fn is_for_approved(
    calls: &Vec<ToolCallBlock>,
    decisions: &Vec<ToolConfirmation>,
    result: &ToolResultBlock,
) -> (answers: bool)
    ensures
        answers == answers_approved(views(calls@), views(decisions@), result@),
{
    let ghost all = views(calls@);
    assert(views(decisions@).take(decisions@.len() as int) =~= views(decisions@));
    match find_decision(decisions, decisions.len(), result.id()) {
        Some(ToolConfirmationDecision::Approve) => {},
        _ => {
            return false;
        },
    }
    let mut i: usize = 0;
    while i < calls.len()
        invariant
            i <= calls@.len(),
            all == views(calls@),
            decision_for(views(decisions@), result@.id) == Some(DecisionView::Approve),
            forall|j: int|
                0 <= j < i ==> !((#[trigger] all[j]).id == result@.id && all[j].name
                    == result@.name),
        decreases calls@.len() - i,
    {
        assert(all[i as int] == calls@[i as int]@);
        if same_text(calls[i].id(), result.id()) && same_text(calls[i].name(), result.name()) {
            return true;
        }
        i += 1;
    }
    false
}

fn check_given(
    calls: &Vec<ToolCallBlock>,
    decisions: &Vec<ToolConfirmation>,
    given: &Vec<ToolResultBlock>,
) -> (result: Result<(), String>)
    ensures
        match result {
            Ok(()) => given_fault(views(calls@), views(decisions@), views(given@)) is None,
            Err(fault) => given_fault(views(calls@), views(decisions@), views(given@)) == Some(
                fault@,
            ),
        },
{
    let ghost all = views(calls@);
    let ghost decided = views(decisions@);
    let ghost offered = views(given@);
    let mut i: usize = 0;
    while i < given.len()
        invariant
            i <= given@.len(),
            all == views(calls@),
            decided == views(decisions@),
            offered == views(given@),
            given_fault(all, decided, offered.take(i as int)) is None,
        decreases given@.len() - i,
    {
        let result = &given[i];
        proof {
            assert(offered.take(i + 1).drop_last() =~= offered.take(i as int));
            assert(offered.take(i + 1).last() == given@[i as int]@);
            if given_fault(all, decided, offered.take(i + 1)) is Some {
                lemma_given_fault(all, decided, offered, i + 1);
            }
        }
        if !is_for_approved(calls, decisions, result) {
            return Err(concat3("result `", result.id(), "` is for no approved tool call"));
        }
        if find_result(given, i, result.id()).is_some() {
            return Err(concat3("tool call `", result.id(), "` has more than one result"));
        }
        if matches!(result.state(), ToolResultState::Running) {
            return Err(concat3("result `", result.id(), "` is not final"));
        }
        i += 1;
    }
    assert(offered.take(offered.len() as int) =~= offered);
    Ok(())
}

/// What stops given results from resolving decided calls, if anything.
pub open spec fn reconcile_fault(
    calls: Seq<ToolCallView>,
    decisions: Seq<ConfirmationView>,
    given: Seq<ToolResultView>,
) -> Option<AgentErrorView> {
    match given_fault(calls, decisions, given) {
        Some(fault) => Some(AgentErrorView::InvalidToolExecutionResolution(fault)),
        None => match merge_fault(calls, decisions, given) {
            Some(MergeFaultView::Missing(id)) => Some(
                AgentErrorView::InvalidToolExecutionResolution(
                    "approved tool `"@ + id + "` has no result"@,
                ),
            ),
            Some(MergeFaultView::Invalid(reason)) => Some(
                AgentErrorView::InvalidModelResponse(reason),
            ),
            None => None,
        },
    }
}

/// Resolves decided calls with results that must be final and cover the approved
/// calls exactly.
pub fn reconcile_results(
    calls: &Vec<ToolCallBlock>,
    decisions: &Vec<ToolConfirmation>,
    given: &Vec<ToolResultBlock>,
) -> (result: AgentResult<Vec<ToolResultBlock>>)
    ensures
        match result {
            Ok(results) => reconcile_fault(views(calls@), views(decisions@), views(given@)) is None
                && merges(views(calls@), views(decisions@), views(given@), views(results@)),
            Err(error) => reconcile_fault(views(calls@), views(decisions@), views(given@)) == Some(
                error@,
            ),
        },
{
    if let Err(fault) = check_given(calls, decisions, given) {
        return Err(AgentError::InvalidToolExecutionResolution(fault));
    }
    match merge_results(calls, decisions, given) {
        Ok(results) => Ok(results),
        Err(MergeFault::Missing(id)) => Err(
            AgentError::InvalidToolExecutionResolution(
                concat3("approved tool `", id.as_str(), "` has no result"),
            ),
        ),
        Err(MergeFault::Invalid(reason)) => Err(AgentError::InvalidModelResponse(reason)),
    }
}

/// No denied call gets a result other than its denial, whatever results are given.
pub proof fn denied_calls_stay_denied(
    calls: Seq<ToolCallView>,
    decisions: Seq<ConfirmationView>,
    given: Seq<ToolResultView>,
    results: Seq<ToolResultView>,
    at: int,
)
    requires
        merges(calls, decisions, given, results),
        0 <= at < calls.len(),
        decision_for(decisions, calls[at].id) is Some,
        decision_for(decisions, calls[at].id) != Some(DecisionView::Approve),
    ensures
        results[at].state == ToolResultState::Denied,
        results[at].id == calls[at].id,
        !approved_in(calls, decisions).contains(calls[at]),
{
    assert(decides_result(results[at], calls[at], decisions, given));
    lemma_approved(calls, decisions);
}

/// Only approved calls are among the approved.
pub proof fn lemma_approved(calls: Seq<ToolCallView>, decisions: Seq<ConfirmationView>)
    ensures
        forall|i: int|
            0 <= i < approved_in(calls, decisions).len() ==> decision_for(
                decisions,
                (#[trigger] approved_in(calls, decisions)[i]).id,
            ) == Some(DecisionView::Approve) && calls.contains(approved_in(calls, decisions)[i]),
    decreases calls.len(),
{
    if calls.len() > 0 {
        lemma_approved(calls.drop_last(), decisions);
        let rest = approved_in(calls.drop_last(), decisions);
        let all = approved_in(calls, decisions);
        assert forall|i: int| 0 <= i < all.len() implies decision_for(
            decisions,
            (#[trigger] all[i]).id,
        ) == Some(DecisionView::Approve) && calls.contains(all[i]) by {
            if i < rest.len() {
                assert(all[i] == rest[i]);
                let k = choose|k: int| 0 <= k < calls.len() - 1 && calls.drop_last()[k] == rest[i];
                assert(calls[k] == all[i]);
            } else {
                assert(all[i] == calls.last());
                assert(calls[calls.len() - 1] == all[i]);
            }
        }
    }
}

} // verus!
