//! Sequential runs, their streams and checkpoints.
use agentscope::pipeline::checkpoint::{
    CheckpointAction, CheckpointPhase, PipelineCheckpointStatus, PipelineRecord,
};
use agentscope::pipeline::stream::{PipelineEvent, StageInput, StreamAction};
use agentscope::pipeline::{
    busy_error, handoff, PipelineConfigError, PipelineError, PipelineFailure, PipelineOutput,
    SequentialPipeline, StageOutcome, StageReply,
};
use agentscope::{
    AgentError, AgentEvent, ContentBlock, Msg, Role, ThinkingBlock, ToolCallBlock,
};

fn pipeline(names: &[&str]) -> SequentialPipeline {
    SequentialPipeline::new(names.iter().map(|name| name.to_string()).collect()).unwrap()
}

/// Runs a pipeline whose agents answer by a function of their name and input.
fn run(
    pipeline: &SequentialPipeline,
    input: Msg,
    mut answer: impl FnMut(&str, &Msg) -> StageReply,
) -> Result<PipelineOutput, PipelineError> {
    let mut completed = Vec::new();
    let mut incoming = input;
    loop {
        let reply = answer(pipeline.name(completed.len()), &incoming);
        let (next, outcome) = pipeline.advance(completed, reply);
        completed = next;
        match outcome {
            StageOutcome::Call(message) => incoming = message,
            StageOutcome::Return(result) => return result,
        }
    }
}

fn replies(name: &str, text: &str) -> StageReply {
    StageReply::Replied(Ok(Msg::assistant(name, text)))
}

#[test]
fn names_are_checked() {
    assert!(matches!(
        SequentialPipeline::new(vec![]),
        Err(PipelineConfigError::Empty)
    ));
    assert_eq!(
        SequentialPipeline::new(vec!["a".to_owned(), " ".to_owned()]).err(),
        Some(PipelineConfigError::EmptyName { step: 2 })
    );
    assert_eq!(
        SequentialPipeline::new(vec!["a".to_owned(), "b".to_owned(), "a".to_owned()]).err(),
        Some(PipelineConfigError::DuplicateName("a".to_owned()))
    );
    assert_eq!(pipeline(&["a", "b"]).len(), 2);
}

#[test]
fn stages_get_only_visible_text() {
    let pipeline = pipeline(&["writer", "editor"]);
    let mut inputs = Vec::new();
    let output = run(&pipeline, Msg::user("topic"), |name, input| {
        inputs.push(input.clone());
        if name == "writer" {
            StageReply::Replied(Ok(Msg::new(
                "writer",
                Role::Assistant,
                vec![
                    ContentBlock::from(ThinkingBlock::new("secret")),
                    ContentBlock::from("first"),
                    ContentBlock::from("second"),
                ],
            )))
        } else {
            replies("editor", "done")
        }
    })
    .unwrap();
    assert_eq!(inputs[1].name, "writer");
    assert_eq!(inputs[1].role, Role::User);
    assert_eq!(inputs[1].content.len(), 1);
    assert_eq!(
        inputs[1].text_content("").as_deref(),
        Some("first\nsecond")
    );
    assert_eq!(output.message.text_content("").as_deref(), Some("done"));
    assert_eq!(output.steps.len(), 2);
    assert_eq!(output.steps[0].step, 1);
    assert_eq!(output.steps[1].agent_name, "editor");
    assert_eq!(output.steps[1].message, output.message);
}

#[test]
fn unusable_replies_cannot_be_handed_over() {
    let call = ToolCallBlock::complete("call", "tool", "{}").unwrap();
    let message = Msg::new("a", Role::Assistant, vec![ContentBlock::from(call)]);
    assert_eq!(
        handoff("a", &message),
        Err("v1 pipeline handoff supports visible text only".to_owned())
    );
    assert_eq!(
        handoff("a", &Msg::assistant("a", "  ")),
        Err("agent reply has no visible text to hand off".to_owned())
    );
    let pipeline = pipeline(&["a", "b"]);
    let error = run(&pipeline, Msg::user("x"), |name, _| replies(name, " ")).unwrap_err();
    assert_eq!(error.step, Some(1));
    assert_eq!(error.agent_name.as_deref(), Some("a"));
    assert_eq!(error.completed.len(), 1);
    assert_eq!(
        error.cause,
        PipelineFailure::InvalidHandoff("agent reply has no visible text to hand off".to_owned())
    );
}

#[test]
fn failures_carry_completed_replies() {
    let pipeline = pipeline(&["a", "b"]);
    let error = run(&pipeline, Msg::user("x"), |name, _| {
        if name == "a" {
            replies(name, "one")
        } else {
            StageReply::Replied(Err(AgentError::Interrupted))
        }
    })
    .unwrap_err();
    assert_eq!(error.step, Some(2));
    assert_eq!(error.agent_name.as_deref(), Some("b"));
    assert_eq!(error.completed.len(), 1);
    assert_eq!(
        error.cause,
        PipelineFailure::Agent(Box::new(AgentError::Interrupted))
    );
    let error = run(&pipeline, Msg::user("x"), |_, _| StageReply::Interrupted).unwrap_err();
    assert_eq!(error.cause, PipelineFailure::Interrupted);
    assert_eq!(error.step, Some(1));
    assert_eq!(busy_error().cause, PipelineFailure::Busy);
    assert_eq!(busy_error().step, None);
}

#[test]
fn streams_wrap_agent_events_and_end_once() {
    let pipeline = pipeline(&["a", "b"]);
    let (proceed, events) = pipeline.start_stage(&Vec::new(), false);
    assert!(proceed);
    assert_eq!(
        events,
        [PipelineEvent::StageStarted {
            pipeline_step: 1,
            agent_name: "a".to_owned()
        }]
    );
    let (proceed, events) = pipeline.start_stage(&Vec::new(), true);
    assert!(!proceed);
    assert!(matches!(&events[..], [PipelineEvent::Error { error }]
        if error.cause == PipelineFailure::Interrupted));

    let (completed, action, events) =
        pipeline.advance_stream(Vec::new(), StageInput::Opened(Ok(())));
    assert!(matches!(action, StreamAction::Next));
    assert!(events.is_empty());
    let finished = AgentEvent::Finished {
        steps: 1,
        message: Msg::assistant("a", "one"),
    };
    let (completed, action, events) =
        pipeline.advance_stream(completed, StageInput::Item(Ok(finished)));
    assert!(matches!(&action, StreamAction::Start(message)
        if message.text_content("").as_deref() == Some("one")));
    assert_eq!(events.len(), 2);
    assert!(matches!(
        events[0],
        PipelineEvent::Agent {
            pipeline_step: 1,
            ..
        }
    ));
    assert!(matches!(&events[1], PipelineEvent::StageCompleted { stage } if stage.step == 1));
    let (_, action, events) = pipeline.advance_stream(completed.clone(), StageInput::Ended);
    assert!(matches!(action, StreamAction::Stop));
    assert!(matches!(&events[..], [PipelineEvent::Error { error }]
        if error.step == Some(2) && error.completed.len() == 1));
    let finished = AgentEvent::Finished {
        steps: 1,
        message: Msg::assistant("b", "two"),
    };
    let (_, action, events) = pipeline.advance_stream(completed, StageInput::Item(Ok(finished)));
    assert!(matches!(action, StreamAction::Stop));
    assert!(matches!(&events[2], PipelineEvent::Finished { output }
        if output.steps.len() == 2));
}

/// Drives a checkpointed run against a store that keeps the last record.
fn drive(
    pipeline: &SequentialPipeline,
    step: (CheckpointPhase, CheckpointAction),
    store: &mut Option<PipelineRecord>,
    mut answer: impl FnMut(usize, Msg) -> StageReply,
) -> Result<PipelineOutput, PipelineError> {
    let (mut phase, mut action) = step;
    loop {
        (phase, action) = match action {
            CheckpointAction::Save(expected, checkpoint) => {
                assert_eq!(expected, store.as_ref().map(|record| record.revision));
                let revision = expected.unwrap_or(0) + 1;
                let copy = |record: &PipelineRecord| PipelineRecord {
                    revision: record.revision,
                    checkpoint: agentscope::pipeline::checkpoint::PipelineCheckpoint {
                        version: record.checkpoint.version,
                        agent_names: record.checkpoint.agent_names.clone(),
                        completed: record.checkpoint.completed.clone(),
                        next_input: record.checkpoint.next_input.clone(),
                        status: record.checkpoint.status,
                    },
                };
                let record = PipelineRecord {
                    revision,
                    checkpoint,
                };
                *store = Some(copy(&record));
                pipeline.saved(phase, Ok(record), false)
            }
            CheckpointAction::Call(index, input) => {
                let reply = answer(index, input);
                pipeline.replied(phase, reply)
            }
            CheckpointAction::Return(result) => return result,
        };
    }
}

#[test]
fn checkpointed_runs_resume_only_from_committed_boundaries() {
    let pipeline = pipeline(&["a", "b"]);
    let mut store = None;
    let output = drive(
        &pipeline,
        pipeline.begin_checkpointed(Msg::user("x")),
        &mut store,
        |index, _| replies("any", if index == 0 { "one" } else { "two" }),
    )
    .unwrap();
    assert_eq!(output.steps.len(), 2);
    let finished = store.take().unwrap();
    assert_eq!(finished.revision, 5);
    assert_eq!(
        finished.checkpoint.status,
        PipelineCheckpointStatus::Finished
    );
    let refused = |record: Option<PipelineRecord>, pipeline: &SequentialPipeline| {
        let (_, action) = pipeline.resume_checkpointed(record, false);
        let CheckpointAction::Return(Err(error)) = action else {
            panic!("expected a refusal");
        };
        error.cause
    };
    let unsafe_resume = |text: &str| PipelineFailure::UnsafeResume(text.to_owned());
    let corrupt = unsafe_resume(
        "checkpoint is in flight, finished, corrupt, or configured for another pipeline",
    );
    assert_eq!(refused(Some(finished), &pipeline), corrupt);
    assert_eq!(
        refused(None, &pipeline),
        unsafe_resume("checkpoint does not exist")
    );

    // A failure in the second stage leaves it in flight.
    let mut store = None;
    let error = drive(
        &pipeline,
        pipeline.begin_checkpointed(Msg::user("x")),
        &mut store,
        |index, _| {
            if index == 0 {
                replies("any", "one")
            } else {
                StageReply::Interrupted
            }
        },
    )
    .unwrap_err();
    assert_eq!(error.completed.len(), 1);
    let mut record = store.take().unwrap();
    assert_eq!(
        record.checkpoint.status,
        PipelineCheckpointStatus::InFlight
    );
    record.checkpoint.status = PipelineCheckpointStatus::Ready;
    let other = SequentialPipeline::new(vec!["a".to_owned(), "c".to_owned()]).unwrap();
    assert!(other.validate_checkpoint(&record.checkpoint) == false);
    assert!(pipeline.validate_checkpoint(&record.checkpoint));
    let revision = record.revision;
    let step = pipeline.resume_checkpointed(Some(record), false);
    assert!(matches!(&step.1, CheckpointAction::Save(Some(expected), checkpoint)
        if *expected == revision && checkpoint.status == PipelineCheckpointStatus::InFlight));
}
