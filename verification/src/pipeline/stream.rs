//! The events of a streamed pipeline run.
use vstd::prelude::*;

use super::{
    completed_stage, copy_steps, follows_reply, stage_error, FailureView, OutcomeView, OutputView,
    PipelineError, PipelineErrorView, PipelineFailure, PipelineOutput, PipelineStep,
    SequentialPipeline, StageOutcome, StepView,
};
use crate::agent::error::{AgentError, AgentErrorView, AgentResult};
use crate::agent::event::{AgentEvent, AgentEventView};
use crate::message::msg::{Msg, MsgView};
use crate::view::views;

verus! {

/// An event of a pipeline run.
#[derive(Debug, PartialEq, Eq)]
pub enum PipelineEvent {
    /// A stage is about to start.
    StageStarted {
        /// The one-based stage.
        pipeline_step: usize,
        /// The name of its agent.
        agent_name: String,
    },
    /// An event of a stage's agent.
    Agent {
        /// The one-based stage.
        pipeline_step: usize,
        /// The name of its agent.
        agent_name: String,
        /// The event.
        event: AgentEvent,
    },
    /// A stage was completed.
    StageCompleted {
        /// The stage.
        stage: PipelineStep,
    },
    /// All stages were completed.
    Finished {
        /// The output of the run.
        output: PipelineOutput,
    },
    /// The run failed.
    Error {
        /// The failure.
        error: PipelineError,
    },
}

/// What an event holds.
#[verifier::ext_equal]
pub enum PipelineEventView {
    StageStarted { pipeline_step: nat, agent_name: Seq<char> },
    Agent { pipeline_step: nat, agent_name: Seq<char>, event: AgentEventView },
    StageCompleted(StepView),
    Finished(OutputView),
    Error(PipelineErrorView),
}

impl View for PipelineEvent {
    type V = PipelineEventView;

    open spec fn view(&self) -> PipelineEventView {
        match self {
            PipelineEvent::StageStarted { pipeline_step, agent_name } => PipelineEventView::StageStarted {
                pipeline_step: *pipeline_step as nat,
                agent_name: agent_name@,
            },
            PipelineEvent::Agent { pipeline_step, agent_name, event } => PipelineEventView::Agent {
                pipeline_step: *pipeline_step as nat,
                agent_name: agent_name@,
                event: event@,
            },
            PipelineEvent::StageCompleted { stage } => PipelineEventView::StageCompleted(stage@),
            PipelineEvent::Finished { output } => PipelineEventView::Finished(output@),
            PipelineEvent::Error { error } => PipelineEventView::Error(error@),
        }
    }
}

/// What ends an agent's stream, where an event ends it: the reply, or the failure.
pub open spec fn terminal_outcome(event: AgentEventView) -> Option<Result<MsgView, AgentErrorView>> {
    match event {
        AgentEventView::Finished { message, .. } => Some(Ok(message)),
        AgentEventView::ToolConfirmationRequired(checkpoint) => Some(
            Err(AgentErrorView::ToolConfirmationRequired(checkpoint)),
        ),
        AgentEventView::Error { error, .. } => Some(Err(error)),
        _ => None,
    }
}

/// What ends an agent's stream, where an event ends it.
pub fn agent_terminal(event: &AgentEvent) -> (outcome: Option<Result<Msg, PipelineFailure>>)
    ensures
        match (outcome, terminal_outcome(event@)) {
            (None, None) => true,
            (Some(Ok(msg)), Some(Ok(expected))) => msg@ == expected,
            (Some(Err(cause)), Some(Err(error))) => cause@ == FailureView::Agent(error),
            _ => false,
        },
{
    match event {
        AgentEvent::Finished { message, .. } => Some(Ok(message.clone())),
        AgentEvent::ToolConfirmationRequired { checkpoint } => Some(
            Err(
                PipelineFailure::Agent(
                    Box::new(
                        AgentError::ToolConfirmationRequired { checkpoint: checkpoint.clone() },
                    ),
                ),
            ),
        ),
        AgentEvent::Error { error, .. } => Some(
            Err(PipelineFailure::Agent(Box::new(error.clone()))),
        ),
        _ => None,
    }
}

/// What came from the current stage.
#[derive(Debug)]
pub enum StageInput {
    /// The agent's stream was opened, or could not be.
    Opened(AgentResult<()>),
    /// The agent's stream gave an item.
    Item(AgentResult<AgentEvent>),
    /// The agent's stream ended.
    Ended,
    /// The run was interrupted.
    Interrupted,
}

/// What a streamed run does next.
#[derive(Debug)]
pub enum StreamAction {
    /// Take the next item of the agent's stream.
    Next,
    /// Start the next stage with a message.
    Start(Msg),
    /// The run is over.
    Stop,
}

/// The start of a stage: its event and the opening of the agent's stream, unless
/// the run was interrupted.
pub open spec fn starts_stage(
    names: Seq<Seq<char>>,
    completed: Seq<StepView>,
    interrupted: bool,
    proceed: bool,
    events: Seq<PipelineEventView>,
) -> bool {
    let index = completed.len() as int;
    if interrupted {
        !proceed && events == seq![
            PipelineEventView::Error(
                stage_error(names, index, completed, FailureView::Interrupted),
            ),
        ]
    } else {
        proceed && events == seq![
            PipelineEventView::StageStarted {
                pipeline_step: (index + 1) as nat,
                agent_name: names[index],
            },
        ]
    }
}

/// Whether a run is over with the failure of its stage.
pub open spec fn stops_stage(
    names: Seq<Seq<char>>,
    before: Seq<StepView>,
    told: Seq<PipelineEventView>,
    cause: FailureView,
    after: Seq<StepView>,
    action: StreamAction,
    events: Seq<PipelineEventView>,
) -> bool {
    &&& after == before
    &&& action is Stop
    &&& events == told.push(
        PipelineEventView::Error(stage_error(names, before.len() as int, before, cause)),
    )
}

/// Whether a run goes on with what came from its current stage.
pub open spec fn stream_step(
    names: Seq<Seq<char>>,
    before: Seq<StepView>,
    input: StageInput,
    after: Seq<StepView>,
    action: StreamAction,
    events: Seq<PipelineEventView>,
) -> bool {
    let index = before.len() as int;
    let none = Seq::<PipelineEventView>::empty();
    match input {
        StageInput::Interrupted => stops_stage(
            names,
            before,
            none,
            FailureView::Interrupted,
            after,
            action,
            events,
        ),
        StageInput::Ended => stops_stage(
            names,
            before,
            none,
            FailureView::Agent(
                AgentErrorView::InvalidModelResponse(
                    "agent stream ended without a terminal event"@,
                ),
            ),
            after,
            action,
            events,
        ),
        StageInput::Opened(Err(error)) => stops_stage(
            names,
            before,
            none,
            FailureView::Agent(error@),
            after,
            action,
            events,
        ),
        StageInput::Opened(Ok(_)) => after == before && action is Next && events == none,
        StageInput::Item(Err(error)) => stops_stage(
            names,
            before,
            none,
            FailureView::Agent(error@),
            after,
            action,
            events,
        ),
        StageInput::Item(Ok(event)) => {
            let told = seq![
                PipelineEventView::Agent {
                    pipeline_step: (index + 1) as nat,
                    agent_name: names[index],
                    event: event@,
                },
            ];
            match terminal_outcome(event@) {
                None => after == before && action is Next && events == told,
                Some(Err(error)) => stops_stage(
                    names,
                    before,
                    told,
                    FailureView::Agent(error),
                    after,
                    action,
                    events,
                ),
                Some(Ok(message)) => exists|outcome: OutcomeView| #[trigger]
                    follows_reply(names, before, message, after, outcome) && {
                        let done = told.push(
                            PipelineEventView::StageCompleted(
                                completed_stage(names, index, message),
                            ),
                        );
                        match outcome {
                            OutcomeView::Call(next) => (action matches StreamAction::Start(msg)
                                && msg@ == next) && events == done,
                            OutcomeView::Return(Ok(output)) => action is Stop && events
                                == done.push(PipelineEventView::Finished(output)),
                            OutcomeView::Return(Err(error)) => action is Stop && events
                                == done.push(PipelineEventView::Error(error)),
                        }
                    },
            }
        },
    }
}

impl SequentialPipeline {
    /// Starts the stage behind the completed ones: its event, and whether to open
    /// the agent's stream.
    pub fn start_stage(&self, completed: &Vec<PipelineStep>, interrupted: bool) -> (start: (
        bool,
        Vec<PipelineEvent>,
    ))
        requires
            completed@.len() < self@.len(),
        ensures
            starts_stage(self@, views(completed@), interrupted, start.0, views(start.1@)),
    {
        let index = completed.len();
        let mut events: Vec<PipelineEvent> = Vec::new();
        if interrupted {
            let error = self.stage_failure(
                index,
                copy_steps(completed),
                PipelineFailure::Interrupted,
            );
            events.push(PipelineEvent::Error { error });
            assert(views(events@) =~= seq![PipelineEventView::Error(error@)]);
            return (false, events);
        }
        assert(index < self.names.len());
        let event = PipelineEvent::StageStarted {
            pipeline_step: index + 1,
            agent_name: self.name(index).to_owned(),
        };
        let ghost told = event@;
        events.push(event);
        assert(views(events@) =~= seq![told]);
        (true, events)
    }

    fn stop_stage(
        &self,
        completed: Vec<PipelineStep>,
        events: Vec<PipelineEvent>,
        cause: PipelineFailure,
    ) -> (next: (Vec<PipelineStep>, StreamAction, Vec<PipelineEvent>))
        requires
            completed@.len() < self@.len(),
        ensures
            stops_stage(
                self@,
                views(completed@),
                views(events@),
                cause@,
                views(next.0@),
                next.1,
                views(next.2@),
            ),
    {
        let mut events = events;
        let ghost told = views(events@);
        let error = self.stage_failure(completed.len(), copy_steps(&completed), cause);
        let ghost failed = error@;
        events.push(PipelineEvent::Error { error });
        assert(views(events@) =~= told.push(PipelineEventView::Error(failed)));
        (completed, StreamAction::Stop, events)
    }

    /// Goes on with what came from the stage behind the completed ones: what is
    /// completed then, what to do next, and the events to emit before it is done.
    pub fn advance_stream(&self, completed: Vec<PipelineStep>, input: StageInput) -> (next: (
        Vec<PipelineStep>,
        StreamAction,
        Vec<PipelineEvent>,
    ))
        requires
            completed@.len() < self@.len(),
        ensures
            stream_step(
                self@,
                views(completed@),
                input,
                views(next.0@),
                next.1,
                views(next.2@),
            ),
    {
        let index = completed.len();
        let mut events: Vec<PipelineEvent> = Vec::new();
        assert(views(events@) =~= Seq::<PipelineEventView>::empty());
        match input {
            StageInput::Interrupted => self.stop_stage(
                completed,
                events,
                PipelineFailure::Interrupted,
            ),
            StageInput::Ended => self.stop_stage(
                completed,
                events,
                PipelineFailure::Agent(
                    Box::new(
                        AgentError::InvalidModelResponse(
                            "agent stream ended without a terminal event".to_owned(),
                        ),
                    ),
                ),
            ),
            StageInput::Opened(Err(error)) => self.stop_stage(
                completed,
                events,
                PipelineFailure::Agent(Box::new(error)),
            ),
            StageInput::Opened(Ok(())) => (completed, StreamAction::Next, events),
            StageInput::Item(Err(error)) => self.stop_stage(
                completed,
                events,
                PipelineFailure::Agent(Box::new(error)),
            ),
            StageInput::Item(Ok(event)) => {
                assert(index < self.names.len());
                let terminal = agent_terminal(&event);
                let wrapped = PipelineEvent::Agent {
                    pipeline_step: index + 1,
                    agent_name: self.name(index).to_owned(),
                    event,
                };
                let ghost wrapped_view = wrapped@;
                events.push(wrapped);
                let ghost told = seq![wrapped_view];
                assert(views(events@) =~= told);
                match terminal {
                    None => (completed, StreamAction::Next, events),
                    Some(Err(cause)) => self.stop_stage(completed, events, cause),
                    Some(Ok(message)) => {
                        let ghost before = views(completed@);
                        let stage = self.completed_step(index, message.clone());
                        let ghost done = told.push(PipelineEventView::StageCompleted(stage@));
                        events.push(PipelineEvent::StageCompleted { stage });
                        assert(views(events@) =~= done);
                        let (completed, outcome) = self.complete(completed, message);
                        assert(follows_reply(
                            self@,
                            before,
                            message@,
                            views(completed@),
                            outcome@,
                        ));
                        match outcome {
                            StageOutcome::Call(next) => (
                                completed,
                                StreamAction::Start(next),
                                events,
                            ),
                            StageOutcome::Return(Ok(output)) => {
                                let ghost last = output@;
                                events.push(PipelineEvent::Finished { output });
                                assert(views(events@) =~= done.push(
                                    PipelineEventView::Finished(last),
                                ));
                                (completed, StreamAction::Stop, events)
                            },
                            StageOutcome::Return(Err(error)) => {
                                let ghost last = error@;
                                events.push(PipelineEvent::Error { error });
                                assert(views(events@) =~= done.push(
                                    PipelineEventView::Error(last),
                                ));
                                (completed, StreamAction::Stop, events)
                            },
                        }
                    },
                }
            },
        }
    }
}

/// Whether an event ends a run.
pub open spec fn ends_run(event: PipelineEventView) -> bool {
    event is Finished || event is Error
}

/// A streamed run emits a terminal event exactly when it stops, as its last event.
pub proof fn streams_end_with_one_terminal_event(
    names: Seq<Seq<char>>,
    before: Seq<StepView>,
    input: StageInput,
    after: Seq<StepView>,
    action: StreamAction,
    events: Seq<PipelineEventView>,
)
    requires
        stream_step(names, before, input, after, action, events),
    ensures
        action is Stop <==> events.len() > 0 && ends_run(events.last()),
        forall|i: int| 0 <= i < events.len() - 1 ==> !ends_run(#[trigger] events[i]),
{
}

} // verus!
