//! How replies pass from stage to stage, told of the messages, names and records
//! themselves.
use vstd::prelude::*;

use super::checkpoint::{
    begins_stage, replied_step, resume_fault, saved_step, CheckpointActionView, CheckpointPhaseView,
    PipelineCheckpointStatus, PipelineRecordView,
};
use super::stream::{starts_stage, stream_step, PipelineEventView, StageInput, StreamAction};
use super::{
    config_fault, names_fault, run_step, ConfigErrorView, FailureView, OutcomeView, OutputView,
    PipelineErrorView, StageReply, StepView,
};
use crate::agent::error::AgentErrorView;
use crate::agent::event::AgentEventView;
use crate::message::content::text_of_blocks;
use crate::message::msg::MsgView;
use crate::message::role::Role;
use crate::text::blank;

verus! {

/// Whether every block of a reply is text or reasoning.
pub open spec fn is_plain(message: MsgView) -> bool {
    forall|i: int|
        0 <= i < message.content.len() ==> (#[trigger] message.content[i]) is Text
            || message.content[i] is Thinking
}

/// Whether a reply says anything: its texts, line by line, are not blank.
pub open spec fn says_something(message: MsgView) -> bool {
    text_of_blocks(message.content, "\n"@) matches Some(text) && !blank(text)
}

/// Whether a message passes a reply on: a message of the user, named after the
/// agent that replied, with the reply's texts, line by line, and nothing else.
pub open spec fn passes_on(next: MsgView, name: Seq<char>, message: MsgView) -> bool {
    &&& next.role == Role::User
    &&& next.name == name
    &&& next.content.len() == 1
    &&& next.content[0] is Text
    &&& Some(next.content[0]->Text_0.text) == text_of_blocks(message.content, "\n"@)
}

/// Whether the agent of a stage is recorded with its reply, behind the stages
/// before it.
pub open spec fn is_recorded(
    names: Seq<Seq<char>>,
    before: Seq<StepView>,
    message: MsgView,
    after: Seq<StepView>,
) -> bool {
    &&& after.len() == before.len() + 1
    &&& forall|i: int| 0 <= i < before.len() ==> #[trigger] after[i] == before[i]
    &&& after.last().step == before.len() + 1
    &&& after.last().agent_name == names[before.len() as int]
    &&& after.last().message == message
}

proof fn lemma_nothing_is_blank(message: MsgView)
    ensures
        text_of_blocks(message.content, "\n"@) is None ==> blank(Seq::<char>::empty()),
{
    crate::text::blank_texts_trim_to_nothing(Seq::empty());
}

/// A reply of a stage before the last is passed on if and only if it is made of
/// text and reasoning and says something; otherwise the run fails at that stage,
/// with the stage among those completed.
pub proof fn replies_are_passed_on(
    names: Seq<Seq<char>>,
    before: Seq<StepView>,
    message: MsgView,
    reply: StageReply,
    after: Seq<StepView>,
    outcome: OutcomeView,
)
    requires
        before.len() + 1 < names.len(),
        reply matches StageReply::Replied(Ok(msg)) && msg@ == message,
        run_step(names, before, reply, after, outcome),
    ensures
        is_recorded(names, before, message, after),
        outcome is Call <==> is_plain(message) && says_something(message),
        outcome matches OutcomeView::Call(next) ==> passes_on(
            next,
            names[before.len() as int],
            message,
        ),
        !is_plain(message) ==> outcome == OutcomeView::Return(
            Err(
                PipelineErrorView {
                    step: Some((before.len() + 1) as nat),
                    agent_name: Some(names[before.len() as int]),
                    completed: after,
                    cause: FailureView::InvalidHandoff(
                        "v1 pipeline handoff supports visible text only"@,
                    ),
                },
            ),
        ),
        is_plain(message) && !says_something(message) ==> outcome == OutcomeView::Return(
            Err(
                PipelineErrorView {
                    step: Some((before.len() + 1) as nat),
                    agent_name: Some(names[before.len() as int]),
                    completed: after,
                    cause: FailureView::InvalidHandoff(
                        "agent reply has no visible text to hand off"@,
                    ),
                },
            ),
        ),
{
    lemma_nothing_is_blank(message);
}

/// The reply of the last stage is what the run returns, whatever it is made of,
/// with every stage.
pub proof fn last_replies_are_returned(
    names: Seq<Seq<char>>,
    before: Seq<StepView>,
    message: MsgView,
    reply: StageReply,
    after: Seq<StepView>,
    outcome: OutcomeView,
)
    requires
        before.len() + 1 == names.len(),
        reply matches StageReply::Replied(Ok(msg)) && msg@ == message,
        run_step(names, before, reply, after, outcome),
    ensures
        is_recorded(names, before, message, after),
        outcome == OutcomeView::Return(Ok(OutputView { message, steps: after })),
{
}

/// A stage that is interrupted or fails ends the run, with its cause and the stages
/// before it.
pub proof fn failed_stages_end_the_run(
    names: Seq<Seq<char>>,
    before: Seq<StepView>,
    reply: StageReply,
    after: Seq<StepView>,
    outcome: OutcomeView,
)
    requires
        !(reply matches StageReply::Replied(Ok(_))),
        run_step(names, before, reply, after, outcome),
    ensures
        after == before,
        outcome == OutcomeView::Return(
            Err(
                PipelineErrorView {
                    step: Some((before.len() + 1) as nat),
                    agent_name: Some(names[before.len() as int]),
                    completed: before,
                    cause: match reply {
                        StageReply::Interrupted => FailureView::Interrupted,
                        StageReply::Replied(result) => FailureView::Agent(result->Err_0@),
                    },
                },
            ),
        ),
{
}

proof fn lemma_names(names: Seq<Seq<char>>)
    ensures
        names_fault(names) is None <==> {
            &&& forall|i: int| 0 <= i < names.len() ==> !blank(#[trigger] names[i])
            &&& forall|i: int, j: int|
                0 <= i < j < names.len() ==> #[trigger] names[i] != #[trigger] names[j]
        },
    decreases names.len(),
{
    if names.len() > 0 {
        let front = names.drop_last();
        lemma_names(front);
        let last = names.len() - 1;
        assert(names[last] == names.last());
        assert forall|i: int| 0 <= i < front.len() implies front[i] == #[trigger] names[i] by {}
        if names_fault(front) is None {
            assert forall|i: int| 0 <= i < front.len() implies !blank(#[trigger] names[i]) by {
                assert(!blank(front[i]));
            }
            assert forall|i: int, j: int| 0 <= i < j < front.len() implies #[trigger] names[i]
                != #[trigger] names[j] by {
                assert(front[i] != front[j]);
            }
            if front.contains(names.last()) {
                let k = front.index_of(names.last());
                assert(names[k] == names[last]);
            } else {
                assert forall|i: int| 0 <= i < last implies #[trigger] names[i] != names[last] by {
                    assert(front.contains(front[i]));
                }
            }
        } else {
            if (forall|i: int| 0 <= i < names.len() ==> !blank(#[trigger] names[i])) && (forall|
                i: int,
                j: int,
            |
                0 <= i < j < names.len() ==> #[trigger] names[i] != #[trigger] names[j]) {
                assert forall|i: int| 0 <= i < front.len() implies !blank(#[trigger] front[i]) by {
                    assert(!blank(names[i]));
                }
                assert forall|i: int, j: int| 0 <= i < j < front.len() implies #[trigger] front[i]
                    != #[trigger] front[j] by {
                    assert(names[i] != names[j]);
                }
            }
        }
    }
}

/// Stages make a pipeline if and only if there is one, none has a blank name and no
/// two have the same.
pub proof fn stages_have_names_of_their_own(names: Seq<Seq<char>>)
    ensures
        config_fault(names) is None <==> {
            &&& names.len() > 0
            &&& forall|i: int| 0 <= i < names.len() ==> !blank(#[trigger] names[i])
            &&& forall|i: int, j: int|
                0 <= i < j < names.len() ==> #[trigger] names[i] != #[trigger] names[j]
        },
        names.len() == 0 ==> config_fault(names) == Some(ConfigErrorView::Empty),
{
    lemma_names(names);
}

/// The first stage whose name is blank, or stands before, is what is refused.
pub proof fn first_bad_names_are_told(names: Seq<Seq<char>>, at: int)
    requires
        0 <= at < names.len(),
        forall|i: int| 0 <= i < at ==> !blank(#[trigger] names[i]),
        forall|i: int, j: int|
            0 <= i < j < at ==> #[trigger] names[i] != #[trigger] names[j],
        blank(names[at]) || exists|i: int| 0 <= i < at && names[i] == names[at],
    ensures
        config_fault(names) == Some(
            if blank(names[at]) {
                ConfigErrorView::EmptyName { step: (at + 1) as nat }
            } else {
                ConfigErrorView::DuplicateName(names[at])
            },
        ),
    decreases names.len(),
{
    let front = names.drop_last();
    if at < front.len() {
        assert forall|i: int| 0 <= i < at implies !blank(#[trigger] front[i]) by {
            assert(!blank(names[i]));
        }
        assert forall|i: int, j: int| 0 <= i < j < at implies #[trigger] front[i]
            != #[trigger] front[j] by {
            assert(names[i] != names[j]);
        }
        if !blank(names[at]) {
            let i = choose|i: int| 0 <= i < at && names[i] == names[at];
            assert(front[i] == front[at]);
        }
        first_bad_names_are_told(front, at);
    } else {
        assert forall|i: int| 0 <= i < front.len() implies !blank(#[trigger] front[i]) by {
            assert(!blank(names[i]));
        }
        assert forall|i: int, j: int| 0 <= i < j < front.len() implies #[trigger] front[i]
            != #[trigger] front[j] by {
            assert(names[i] != names[j]);
        }
        lemma_names(front);
        if !blank(names[at]) {
            let i = choose|i: int| 0 <= i < at && names[i] == names[at];
            assert(front[i] == names.last());
            assert(front.contains(names.last()));
        }
    }
}

/// A checkpointed run saves each reply of a stage before the last with what the
/// next stage gets of it, over the record it was called from, and is ready for the
/// next stage; a reply that cannot be passed on is not saved.
pub proof fn replies_are_saved_with_what_is_passed_on(
    names: Seq<Seq<char>>,
    index: int,
    completed: Seq<StepView>,
    record: PipelineRecordView,
    message: MsgView,
    reply: StageReply,
    after: CheckpointPhaseView,
    action: CheckpointActionView,
)
    requires
        0 <= index,
        index + 1 < names.len(),
        record.checkpoint.completed.len() == index,
        reply matches StageReply::Replied(Ok(msg)) && msg@ == message,
        replied_step(
            names,
            CheckpointPhaseView::Replying(index, completed, record),
            reply,
            after,
            action,
        ),
    ensures
        action is Save <==> is_plain(message) && says_something(message),
        action matches CheckpointActionView::Save(revision, saved) ==> {
            &&& revision == Some(record.revision)
            &&& is_recorded(names, record.checkpoint.completed, message, saved.completed)
            &&& passes_on(saved.next_input, names[index], message)
            &&& saved.status == PipelineCheckpointStatus::Ready
            &&& saved.version == record.checkpoint.version
            &&& saved.agent_names == record.checkpoint.agent_names
            &&& after == CheckpointPhaseView::Committing(index, completed, message)
        },
        !(action is Save) ==> after is Over && action is Return
            && action->Return_0 is Err && action->Return_0->Err_0.completed == completed
            && action->Return_0->Err_0.step == Some((index + 1) as nat)
            && action->Return_0->Err_0.cause is InvalidHandoff,
{
    lemma_nothing_is_blank(message);
}

/// The reply of the last stage is saved as the end of the run, whatever it is made
/// of.
pub proof fn last_replies_are_saved_as_the_end(
    names: Seq<Seq<char>>,
    index: int,
    completed: Seq<StepView>,
    record: PipelineRecordView,
    message: MsgView,
    reply: StageReply,
    after: CheckpointPhaseView,
    action: CheckpointActionView,
)
    requires
        0 <= index,
        index + 1 == names.len(),
        record.checkpoint.completed.len() == index,
        reply matches StageReply::Replied(Ok(msg)) && msg@ == message,
        replied_step(
            names,
            CheckpointPhaseView::Replying(index, completed, record),
            reply,
            after,
            action,
        ),
    ensures
        action is Save,
        action->Save_0 == Some(record.revision),
        is_recorded(names, record.checkpoint.completed, message, action->Save_1.completed),
        action->Save_1.status == PipelineCheckpointStatus::Finished,
        action->Save_1.next_input == record.checkpoint.next_input,
        action->Save_1.agent_names == record.checkpoint.agent_names,
        after == CheckpointPhaseView::Committing(index, completed, message),
{
}

/// A stage that is interrupted or fails is not saved: its record stays in flight.
pub proof fn failed_stages_are_not_saved(
    names: Seq<Seq<char>>,
    index: int,
    completed: Seq<StepView>,
    record: PipelineRecordView,
    reply: StageReply,
    after: CheckpointPhaseView,
    action: CheckpointActionView,
)
    requires
        !(reply matches StageReply::Replied(Ok(_))),
        replied_step(
            names,
            CheckpointPhaseView::Replying(index, completed, record),
            reply,
            after,
            action,
        ),
    ensures
        after is Over,
        action == CheckpointActionView::Return(
            Err(
                PipelineErrorView {
                    step: Some((index + 1) as nat),
                    agent_name: Some(names[index]),
                    completed,
                    cause: match reply {
                        StageReply::Interrupted => FailureView::Interrupted,
                        StageReply::Replied(result) => FailureView::Agent(result->Err_0@),
                    },
                },
            ),
        ),
{
}

/// A record is resumed if and only if it exists with a revision, is of the format's
/// version and of this pipeline's agents, is ready, and holds the first stages, in
/// order, but not all of them.
pub proof fn records_are_resumed_when_safe(
    names: Seq<Seq<char>>,
    record: Option<PipelineRecordView>,
)
    ensures
        resume_fault(names, record) is None <==> {
            &&& record is Some
            &&& record->Some_0.revision > 0
            &&& record->Some_0.checkpoint.version == 1
            &&& record->Some_0.checkpoint.agent_names == names
            &&& record->Some_0.checkpoint.status == PipelineCheckpointStatus::Ready
            &&& record->Some_0.checkpoint.completed.len() < names.len()
            &&& forall|i: int|
                0 <= i < record->Some_0.checkpoint.completed.len() ==> (
                #[trigger] record->Some_0.checkpoint.completed[i]).agent_name == names[i]
                    && record->Some_0.checkpoint.completed[i].step == i + 1
        },
        resume_fault(names, record) is Some ==> resume_fault(
            names,
            record,
        )->Some_0.cause is UnsafeResume && resume_fault(names, record)->Some_0.step is None,
        record matches Some(loaded) ==> resume_fault(names, record) is Some ==> resume_fault(
            names,
            record,
        )->Some_0.completed == loaded.checkpoint.completed,
{
}

/// A stage begins by marking the record that it starts from as in flight, over that
/// record's revision; nothing else in the record changes.
pub proof fn stages_begin_with_a_mark(
    names: Seq<Seq<char>>,
    index: int,
    record: PipelineRecordView,
    after: CheckpointPhaseView,
    action: CheckpointActionView,
)
    requires
        begins_stage(names, index, record, false, after, action),
    ensures
        after == CheckpointPhaseView::Marking(index, record.checkpoint.completed),
        action is Save,
        action->Save_0 == Some(record.revision),
        action->Save_1.status == PipelineCheckpointStatus::InFlight,
        action->Save_1.completed == record.checkpoint.completed,
        action->Save_1.next_input == record.checkpoint.next_input,
        action->Save_1.agent_names == record.checkpoint.agent_names,
        action->Save_1.version == record.checkpoint.version,
{
}

/// A stage that was marked is called with the input of its record, and a stage that
/// was committed is followed by the next one, or by the end with its reply.
pub proof fn saved_stages_go_on(
    names: Seq<Seq<char>>,
    before: CheckpointPhaseView,
    record: PipelineRecordView,
    after: CheckpointPhaseView,
    action: CheckpointActionView,
)
    requires
        saved_step(names, before, Ok(record), false, after, action),
    ensures
        before matches CheckpointPhaseView::Marking(index, completed) ==> action
            == CheckpointActionView::Call(index, record.checkpoint.next_input) && after
            == CheckpointPhaseView::Replying(index, completed, record),
        before matches CheckpointPhaseView::Committing(index, _, message) ==> {
            &&& index + 1 == names.len() ==> action == CheckpointActionView::Return(
                Ok(OutputView { message, steps: record.checkpoint.completed }),
            )
            &&& index + 1 != names.len() ==> action is Save && action->Save_1.status
                == PipelineCheckpointStatus::InFlight && after is Marking && after->Marking_0
                == index + 1
        },
        before is Creating ==> action is Save && after is Marking && after->Marking_0
            == record.checkpoint.completed.len(),
{
}

/// What a store refuses ends the run, with the store's reason.
pub proof fn refused_saves_end_the_run(
    names: Seq<Seq<char>>,
    before: CheckpointPhaseView,
    reason: Seq<char>,
    interrupted: bool,
    after: CheckpointPhaseView,
    action: CheckpointActionView,
)
    requires
        saved_step(names, before, Err(reason), interrupted, after, action),
    ensures
        after is Over,
        action is Return,
        action->Return_0 is Err,
        action->Return_0->Err_0.cause == FailureView::Store(reason),
{
}

/// Whether an agent's event ends its stream.
pub open spec fn closes_stage(event: AgentEventView) -> bool {
    event is Finished || event is Error || event is ToolConfirmationRequired
}

/// Every event of a stage's agent is passed on first, with the stage's number and
/// name; a reply completes the stage and is passed to the next one or ends the run;
/// anything else that ends the agent's stream fails the stage.
pub proof fn streams_tell_every_event(
    names: Seq<Seq<char>>,
    before: Seq<StepView>,
    event: AgentEventView,
    input: StageInput,
    after: Seq<StepView>,
    action: StreamAction,
    events: Seq<PipelineEventView>,
)
    requires
        before.len() < names.len(),
        input matches StageInput::Item(Ok(item)) && item@ == event,
        stream_step(names, before, input, after, action, events),
    ensures
        events.len() > 0,
        events[0] == (PipelineEventView::Agent {
            pipeline_step: (before.len() + 1) as nat,
            agent_name: names[before.len() as int],
            event,
        }),
        !closes_stage(event) ==> events.len() == 1 && after == before && action is Next,
        event matches AgentEventView::Finished { message, .. } ==> {
            &&& is_recorded(names, before, message, after)
            &&& events.len() >= 2
            &&& events[1] == PipelineEventView::StageCompleted(after.last())
            &&& before.len() + 1 == names.len() ==> action is Stop && events.len() == 3
                && events[2] == PipelineEventView::Finished(OutputView { message, steps: after })
            &&& before.len() + 1 < names.len() && is_plain(message) && says_something(message)
                ==> action is Start && events.len() == 2 && passes_on(
                action->Start_0@,
                names[before.len() as int],
                message,
            )
            &&& before.len() + 1 < names.len() && !(is_plain(message) && says_something(message))
                ==> action is Stop && events.len() == 3 && events[2] is Error
        },
        event matches AgentEventView::Error { error, .. } ==> action is Stop && after == before
            && events.len() == 2 && events[1] is Error && events[1]->Error_0.cause
            == FailureView::Agent(error) && events[1]->Error_0.completed == before,
        event matches AgentEventView::ToolConfirmationRequired(pending) ==> action is Stop && after
            == before && events.len() == 2 && events[1] is Error && events[1]->Error_0.cause
            == FailureView::Agent(AgentErrorView::ToolConfirmationRequired(pending)),
{
    if let AgentEventView::Finished { message, .. } = event {
        lemma_nothing_is_blank(message);
    }
}

/// A stage is told as started, with its number and name, unless the run was
/// interrupted: then the run ends there, with the stages before it.
pub proof fn stages_are_told_as_started(
    names: Seq<Seq<char>>,
    completed: Seq<StepView>,
    interrupted: bool,
    proceed: bool,
    events: Seq<PipelineEventView>,
)
    requires
        starts_stage(names, completed, interrupted, proceed, events),
    ensures
        proceed == !interrupted,
        events.len() == 1,
        !interrupted ==> events[0] == (PipelineEventView::StageStarted {
            pipeline_step: (completed.len() + 1) as nat,
            agent_name: names[completed.len() as int],
        }),
        interrupted ==> events[0] is Error && events[0]->Error_0.cause == FailureView::Interrupted
            && events[0]->Error_0.completed == completed && events[0]->Error_0.step == Some(
            (completed.len() + 1) as nat,
        ),
{
}

/// A stage whose stream breaks, cannot be opened, or ends without an outcome fails
/// the run there.
pub proof fn broken_stages_end_the_run(
    names: Seq<Seq<char>>,
    before: Seq<StepView>,
    input: StageInput,
    after: Seq<StepView>,
    action: StreamAction,
    events: Seq<PipelineEventView>,
)
    requires
        stream_step(names, before, input, after, action, events),
        !(input matches StageInput::Item(Ok(_))),
        !(input matches StageInput::Opened(Ok(_))),
    ensures
        action is Stop,
        after == before,
        events.len() == 1,
        events[0] is Error,
        events[0]->Error_0.completed == before,
        events[0]->Error_0.step == Some((before.len() + 1) as nat),
        events[0]->Error_0.agent_name == Some(names[before.len() as int]),
        input is Interrupted ==> events[0]->Error_0.cause == FailureView::Interrupted,
        input is Ended ==> events[0]->Error_0.cause == FailureView::Agent(
            AgentErrorView::InvalidModelResponse("agent stream ended without a terminal event"@),
        ),
        input matches StageInput::Opened(Err(error)) ==> events[0]->Error_0.cause
            == FailureView::Agent(error@),
        input matches StageInput::Item(Err(error)) ==> events[0]->Error_0.cause
            == FailureView::Agent(error@),
{
}

} // verus!
