//! Runs that are checkpointed at each stage boundary.
use vstd::prelude::*;

use super::{
    completed_stage, copy_steps, failed_run, handoff, handoff_fault, run_error, stage_error,
    visible_text, FailureView, OutputView, PipelineError, PipelineErrorView, PipelineFailure,
    PipelineOutput, PipelineStep, SequentialPipeline, StageReply, StepView,
};
use crate::message::msg::{is_new_text_msg, Msg, MsgView};
use crate::message::role::Role;
use crate::text::same_text;
use crate::view::{lemma_views_push, view_option, views};

verus! {

/// The format version of checkpoints.
pub const PIPELINE_CHECKPOINT_VERSION: u32 = 1;

/// Where a checkpointed run stands.
#[derive(Clone, Copy, Debug, PartialEq, Eq, Structural)]
pub enum PipelineCheckpointStatus {
    /// The next stage may start.
    Ready,
    /// A stage was started and may have had effects.
    InFlight,
    /// All stages were completed.
    Finished,
}

/// A run at a stage boundary.
#[derive(Debug, PartialEq, Eq)]
pub struct PipelineCheckpoint {
    /// The format version.
    pub version: u32,
    /// The names of the stages' agents.
    pub agent_names: Vec<String>,
    /// The completed stages.
    pub completed: Vec<PipelineStep>,
    /// What the next stage gets.
    pub next_input: Msg,
    /// Where the run stands.
    pub status: PipelineCheckpointStatus,
}

/// What a checkpoint holds.
#[verifier::ext_equal]
pub struct CheckpointView {
    pub version: u32,
    pub agent_names: Seq<Seq<char>>,
    pub completed: Seq<StepView>,
    pub next_input: MsgView,
    pub status: PipelineCheckpointStatus,
}

impl View for PipelineCheckpoint {
    type V = CheckpointView;

    open spec fn view(&self) -> CheckpointView {
        CheckpointView {
            version: self.version,
            agent_names: views(self.agent_names@),
            completed: views(self.completed@),
            next_input: self.next_input@,
            status: self.status,
        }
    }
}

/// A stored checkpoint with its revision.
#[derive(Debug, PartialEq, Eq)]
pub struct PipelineRecord {
    /// The revision, from one on.
    pub revision: u64,
    /// The checkpoint.
    pub checkpoint: PipelineCheckpoint,
}

/// What a stored checkpoint holds.
#[verifier::ext_equal]
pub struct PipelineRecordView {
    pub revision: u64,
    pub checkpoint: CheckpointView,
}

impl View for PipelineRecord {
    type V = PipelineRecordView;

    open spec fn view(&self) -> PipelineRecordView {
        PipelineRecordView { revision: self.revision, checkpoint: self.checkpoint@ }
    }
}

/// Whether stages were completed by a pipeline's first agents, in order.
pub open spec fn completed_in_order(names: Seq<Seq<char>>, completed: Seq<StepView>) -> bool {
    forall|i: int|
        0 <= i < completed.len() ==> (#[trigger] completed[i]).step == i + 1
            && completed[i].agent_name == names[i]
}

/// Whether a pipeline can go on from a checkpoint.
pub open spec fn is_resumable(names: Seq<Seq<char>>, checkpoint: CheckpointView) -> bool {
    &&& checkpoint.version == PIPELINE_CHECKPOINT_VERSION
    &&& checkpoint.agent_names == names
    &&& checkpoint.status == PipelineCheckpointStatus::Ready
    &&& checkpoint.completed.len() < names.len()
    &&& completed_in_order(names, checkpoint.completed)
}

/// Why a loaded record cannot be resumed, if it cannot.
pub open spec fn resume_fault(names: Seq<Seq<char>>, record: Option<PipelineRecordView>) -> Option<
    PipelineErrorView,
> {
    match record {
        None => Some(
            run_error(Seq::empty(), FailureView::UnsafeResume("checkpoint does not exist"@)),
        ),
        Some(record) => if record.revision == 0 {
            Some(
                run_error(
                    record.checkpoint.completed,
                    FailureView::UnsafeResume("checkpoint revision is zero"@),
                ),
            )
        } else if !is_resumable(names, record.checkpoint) {
            Some(
                run_error(
                    record.checkpoint.completed,
                    FailureView::UnsafeResume(
                        "checkpoint is in flight, finished, corrupt, or configured for another pipeline"@,
                    ),
                ),
            )
        } else {
            None
        },
    }
}

/// What a checkpointed run waits for. The stages completed before the current one
/// are kept for failures.
#[derive(Debug)]
pub enum CheckpointPhase {
    /// The store, for the first checkpoint.
    Creating,
    /// The store, for the mark that a stage is in flight.
    Marking(usize, Vec<PipelineStep>),
    /// The agent of a stage.
    Replying(usize, Vec<PipelineStep>, PipelineRecord),
    /// The store, for a completed stage.
    Committing(usize, Vec<PipelineStep>, Msg),
    /// Nothing: it is over.
    Over,
}

/// What a phase holds.
#[verifier::ext_equal]
pub enum CheckpointPhaseView {
    Creating,
    Marking(int, Seq<StepView>),
    Replying(int, Seq<StepView>, PipelineRecordView),
    Committing(int, Seq<StepView>, MsgView),
    Over,
}

impl View for CheckpointPhase {
    type V = CheckpointPhaseView;

    open spec fn view(&self) -> CheckpointPhaseView {
        match self {
            CheckpointPhase::Creating => CheckpointPhaseView::Creating,
            CheckpointPhase::Marking(index, completed) => CheckpointPhaseView::Marking(
                *index as int,
                views(completed@),
            ),
            CheckpointPhase::Replying(index, completed, record) => CheckpointPhaseView::Replying(
                *index as int,
                views(completed@),
                record@,
            ),
            CheckpointPhase::Committing(index, completed, msg) => CheckpointPhaseView::Committing(
                *index as int,
                views(completed@),
                msg@,
            ),
            CheckpointPhase::Over => CheckpointPhaseView::Over,
        }
    }
}

/// What a checkpointed run asks its driver to do.
#[derive(Debug)]
pub enum CheckpointAction {
    /// Save a checkpoint over an expected revision.
    Save(Option<u64>, PipelineCheckpoint),
    /// Call the agent of a stage with a message, unless interrupted first.
    Call(usize, Msg),
    /// The run is over.
    Return(Result<PipelineOutput, PipelineError>),
}

/// What an action holds.
#[verifier::ext_equal]
pub enum CheckpointActionView {
    Save(Option<u64>, CheckpointView),
    Call(int, MsgView),
    Return(Result<OutputView, PipelineErrorView>),
}

impl View for CheckpointAction {
    type V = CheckpointActionView;

    open spec fn view(&self) -> CheckpointActionView {
        match self {
            CheckpointAction::Save(revision, checkpoint) => CheckpointActionView::Save(
                *revision,
                checkpoint@,
            ),
            CheckpointAction::Call(index, msg) => CheckpointActionView::Call(*index as int, msg@),
            CheckpointAction::Return(result) => CheckpointActionView::Return(
                match result {
                    Ok(output) => Ok(output@),
                    Err(error) => Err(error@),
                },
            ),
        }
    }
}

/// Whether a run is over with a failure.
pub open spec fn checkpoint_fails(
    error: PipelineErrorView,
    after: CheckpointPhaseView,
    action: CheckpointActionView,
) -> bool {
    after == CheckpointPhaseView::Over && action == CheckpointActionView::Return(Err(error))
}

/// Whether a stage is about to be marked as in flight, unless interrupted.
pub open spec fn begins_stage(
    names: Seq<Seq<char>>,
    index: int,
    record: PipelineRecordView,
    interrupted: bool,
    after: CheckpointPhaseView,
    action: CheckpointActionView,
) -> bool {
    let completed = record.checkpoint.completed;
    if interrupted {
        checkpoint_fails(
            stage_error(names, index, completed, FailureView::Interrupted),
            after,
            action,
        )
    } else {
        &&& after == CheckpointPhaseView::Marking(index, completed)
        &&& action == CheckpointActionView::Save(
            Some(record.revision),
            CheckpointView {
                status: PipelineCheckpointStatus::InFlight,
                ..record.checkpoint
            },
        )
    }
}

/// The checkpoint after a stage was completed with a reply.
pub open spec fn next_checkpoint(
    names: Seq<Seq<char>>,
    index: int,
    checkpoint: CheckpointView,
    message: MsgView,
    next_input: MsgView,
) -> CheckpointView {
    CheckpointView {
        completed: checkpoint.completed.push(completed_stage(names, index, message)),
        next_input,
        status: if index + 1 == names.len() {
            PipelineCheckpointStatus::Finished
        } else {
            PipelineCheckpointStatus::Ready
        },
        ..checkpoint
    }
}

/// Whether a run goes on after the store saved a checkpoint, or did not.
pub open spec fn saved_step(
    names: Seq<Seq<char>>,
    before: CheckpointPhaseView,
    saved: Result<PipelineRecordView, Seq<char>>,
    interrupted: bool,
    after: CheckpointPhaseView,
    action: CheckpointActionView,
) -> bool {
    match (before, saved) {
        (CheckpointPhaseView::Creating, Err(reason)) => checkpoint_fails(
            run_error(Seq::empty(), FailureView::Store(reason)),
            after,
            action,
        ),
        (CheckpointPhaseView::Creating, Ok(record)) => begins_stage(
            names,
            record.checkpoint.completed.len() as int,
            record,
            interrupted,
            after,
            action,
        ),
        (CheckpointPhaseView::Marking(index, completed), Err(reason)) => checkpoint_fails(
            stage_error(names, index, completed, FailureView::Store(reason)),
            after,
            action,
        ),
        (CheckpointPhaseView::Marking(index, completed), Ok(record)) => {
            &&& after == CheckpointPhaseView::Replying(index, completed, record)
            &&& action == CheckpointActionView::Call(index, record.checkpoint.next_input)
        },
        (CheckpointPhaseView::Committing(index, completed, _), Err(reason)) => checkpoint_fails(
            stage_error(names, index, completed, FailureView::Store(reason)),
            after,
            action,
        ),
        (CheckpointPhaseView::Committing(index, _, message), Ok(record)) => if index + 1
            == names.len() {
            &&& after == CheckpointPhaseView::Over
            &&& action == CheckpointActionView::Return(
                Ok(OutputView { message, steps: record.checkpoint.completed }),
            )
        } else {
            begins_stage(names, index + 1, record, interrupted, after, action)
        },
        _ => false,
    }
}

/// Whether a run goes on after the agent of a stage was called.
pub open spec fn replied_step(
    names: Seq<Seq<char>>,
    before: CheckpointPhaseView,
    reply: StageReply,
    after: CheckpointPhaseView,
    action: CheckpointActionView,
) -> bool {
    before matches CheckpointPhaseView::Replying(index, completed, record) && match reply {
        StageReply::Interrupted => checkpoint_fails(
            stage_error(names, index, completed, FailureView::Interrupted),
            after,
            action,
        ),
        StageReply::Replied(Err(error)) => checkpoint_fails(
            stage_error(names, index, completed, FailureView::Agent(error@)),
            after,
            action,
        ),
        StageReply::Replied(Ok(message)) => {
            if index + 1 < names.len() && handoff_fault(message@.content) is Some {
                checkpoint_fails(
                    stage_error(
                        names,
                        index,
                        completed,
                        FailureView::InvalidHandoff(handoff_fault(message@.content)->Some_0),
                    ),
                    after,
                    action,
                )
            } else {
                &&& after == CheckpointPhaseView::Committing(index, completed, message@)
                &&& action matches CheckpointActionView::Save(revision, checkpoint) && revision
                    == Some(record.revision) && checkpoint == next_checkpoint(
                    names,
                    index,
                    record.checkpoint,
                    message@,
                    checkpoint.next_input,
                ) && if index + 1 == names.len() {
                    checkpoint.next_input == record.checkpoint.next_input
                } else {
                    is_new_text_msg(
                        checkpoint.next_input,
                        names[index],
                        Role::User,
                        visible_text(message@.content),
                    )
                }
            }
        },
    }
}

impl CheckpointPhaseView {
    /// The stage that is under way is one of the pipeline's.
    pub open spec fn well_formed(self, names: Seq<Seq<char>>) -> bool {
        match self {
            CheckpointPhaseView::Marking(index, _) => 0 <= index < names.len(),
            CheckpointPhaseView::Replying(index, _, _) => 0 <= index < names.len(),
            CheckpointPhaseView::Committing(index, _, _) => 0 <= index < names.len(),
            _ => true,
        }
    }
}

impl SequentialPipeline {
    fn owned_names(&self) -> (names: Vec<String>)
        ensures
            views(names@) == self@,
    {
        let names = self.names.clone();
        assert(views(names@) =~= views(self.names@));
        names
    }

    /// Begins a new checkpointed run.
    pub fn begin_checkpointed(&self, input: Msg) -> (next: (CheckpointPhase, CheckpointAction))
        ensures
            next.0@ == CheckpointPhaseView::Creating,
            next.1@ == CheckpointActionView::Save(
                None,
                CheckpointView {
                    version: PIPELINE_CHECKPOINT_VERSION,
                    agent_names: self@,
                    completed: Seq::empty(),
                    next_input: input@,
                    status: PipelineCheckpointStatus::Ready,
                },
            ),
    {
        let completed: Vec<PipelineStep> = Vec::new();
        assert(views(completed@) =~= Seq::empty());
        let checkpoint = PipelineCheckpoint {
            version: PIPELINE_CHECKPOINT_VERSION,
            agent_names: self.owned_names(),
            completed,
            next_input: input,
            status: PipelineCheckpointStatus::Ready,
        };
        (CheckpointPhase::Creating, CheckpointAction::Save(None, checkpoint))
    }

    /// Whether a run can go on from a checkpoint.
    pub fn validate_checkpoint(&self, checkpoint: &PipelineCheckpoint) -> (valid: bool)
        ensures
            valid == is_resumable(self@, checkpoint@),
    {
        if checkpoint.version != PIPELINE_CHECKPOINT_VERSION {
            return false;
        }
        let ghost names = self@;
        let ghost stored = views(checkpoint.agent_names@);
        if checkpoint.agent_names.len() != self.names.len() {
            return false;
        }
        let mut i: usize = 0;
        while i < self.names.len()
            invariant
                i <= self.names@.len() == checkpoint.agent_names@.len(),
                names == views(self.names@),
                names == self@,
                stored == views(checkpoint.agent_names@),
                forall|j: int| 0 <= j < i ==> #[trigger] stored[j] == names[j],
            decreases self.names@.len() - i,
        {
            assert(stored[i as int] == checkpoint.agent_names@[i as int]@);
            assert(names[i as int] == self.names@[i as int]@);
            if !same_text(checkpoint.agent_names[i].as_str(), self.names[i].as_str()) {
                return false;
            }
            i += 1;
        }
        assert(stored =~= names);
        if !matches!(checkpoint.status, PipelineCheckpointStatus::Ready) {
            return false;
        }
        if checkpoint.completed.len() >= self.names.len() {
            return false;
        }
        let ghost completed = views(checkpoint.completed@);
        let mut k: usize = 0;
        while k < checkpoint.completed.len()
            invariant
                k <= checkpoint.completed@.len() < self.names@.len(),
                names == views(self.names@),
                names == self@,
                completed == views(checkpoint.completed@),
                forall|j: int|
                    0 <= j < k ==> (#[trigger] completed[j]).step == j + 1
                        && completed[j].agent_name == names[j],
            decreases checkpoint.completed@.len() - k,
        {
            assert(completed[k as int] == checkpoint.completed@[k as int]@);
            assert(names[k as int] == self.names@[k as int]@);
            let step = &checkpoint.completed[k];
            if step.step != k + 1 || !same_text(step.agent_name.as_str(), self.names[k].as_str()) {
                return false;
            }
            k += 1;
        }
        true
    }

    /// Resumes a run from a loaded record, only from a committed boundary.
    pub fn resume_checkpointed(&self, record: Option<PipelineRecord>, interrupted: bool) -> (next: (
        CheckpointPhase,
        CheckpointAction,
    ))
        ensures
            match resume_fault(self@, view_option(record)) {
                Some(fault) => checkpoint_fails(fault, next.0@, next.1@),
                None => record is Some && begins_stage(
                    self@,
                    record->Some_0@.checkpoint.completed.len() as int,
                    record->Some_0@,
                    interrupted,
                    next.0@,
                    next.1@,
                ),
            },
            next.0@.well_formed(self@),
    {
        match record {
            None => {
                let completed: Vec<PipelineStep> = Vec::new();
                assert(views(completed@) =~= Seq::empty());
                let error = failed_run(
                    completed,
                    PipelineFailure::UnsafeResume("checkpoint does not exist".to_owned()),
                );
                (CheckpointPhase::Over, CheckpointAction::Return(Err(error)))
            },
            Some(record) => {
                if record.revision == 0 {
                    let error = failed_run(
                        record.checkpoint.completed,
                        PipelineFailure::UnsafeResume("checkpoint revision is zero".to_owned()),
                    );
                    return (CheckpointPhase::Over, CheckpointAction::Return(Err(error)));
                }
                if !self.validate_checkpoint(&record.checkpoint) {
                    let error = failed_run(
                        record.checkpoint.completed,
                        PipelineFailure::UnsafeResume(
                            "checkpoint is in flight, finished, corrupt, or configured for another pipeline".to_owned(),
                        ),
                    );
                    return (CheckpointPhase::Over, CheckpointAction::Return(Err(error)));
                }
                let index = record.checkpoint.completed.len();
                self.begin_stage(index, record, interrupted)
            },
        }
    }

    fn begin_stage(&self, index: usize, record: PipelineRecord, interrupted: bool) -> (next: (
        CheckpointPhase,
        CheckpointAction,
    ))
        requires
            index < self@.len(),
        ensures
            begins_stage(self@, index as int, record@, interrupted, next.0@, next.1@),
            next.0@.well_formed(self@),
    {
        let completed = copy_steps(&record.checkpoint.completed);
        if interrupted {
            let error = self.stage_failure(index, completed, PipelineFailure::Interrupted);
            return (CheckpointPhase::Over, CheckpointAction::Return(Err(error)));
        }
        let revision = record.revision;
        let mut checkpoint = record.checkpoint;
        checkpoint.status = PipelineCheckpointStatus::InFlight;
        (
            CheckpointPhase::Marking(index, completed),
            CheckpointAction::Save(Some(revision), checkpoint),
        )
    }

    /// Goes on after the store saved a checkpoint, or refused with a reason.
    ///
    /// A store that gives back more completed stages for a new run than there are
    /// stages is broken, and not served.
    pub fn saved(
        &self,
        phase: CheckpointPhase,
        saved: Result<PipelineRecord, String>,
        interrupted: bool,
    ) -> (next: (CheckpointPhase, CheckpointAction))
        requires
            phase@.well_formed(self@),
            phase@ is Creating || phase@ is Marking || phase@ is Committing,
            phase@ is Creating && saved is Ok ==> saved->Ok_0@.checkpoint.completed.len()
                < self@.len(),
        ensures
            saved_step(
                self@,
                phase@,
                match saved {
                    Ok(record) => Ok(record@),
                    Err(reason) => Err(reason@),
                },
                interrupted,
                next.0@,
                next.1@,
            ),
            next.0@.well_formed(self@),
    {
        match (phase, saved) {
            (CheckpointPhase::Creating, Err(reason)) => {
                let completed: Vec<PipelineStep> = Vec::new();
                assert(views(completed@) =~= Seq::empty());
                let error = failed_run(completed, PipelineFailure::Store(reason));
                (CheckpointPhase::Over, CheckpointAction::Return(Err(error)))
            },
            (CheckpointPhase::Creating, Ok(record)) => {
                let index = record.checkpoint.completed.len();
                self.begin_stage(index, record, interrupted)
            },
            (CheckpointPhase::Marking(index, completed), Err(reason)) => {
                let error = self.stage_failure(index, completed, PipelineFailure::Store(reason));
                (CheckpointPhase::Over, CheckpointAction::Return(Err(error)))
            },
            (CheckpointPhase::Marking(index, completed), Ok(record)) => {
                let input = record.checkpoint.next_input.clone();
                (
                    CheckpointPhase::Replying(index, completed, record),
                    CheckpointAction::Call(index, input),
                )
            },
            (CheckpointPhase::Committing(index, completed, _), Err(reason)) => {
                let error = self.stage_failure(index, completed, PipelineFailure::Store(reason));
                (CheckpointPhase::Over, CheckpointAction::Return(Err(error)))
            },
            (CheckpointPhase::Committing(index, _, message), Ok(record)) => {
                assert(index < self.names.len());
                if index + 1 == self.len() {
                    (
                        CheckpointPhase::Over,
                        CheckpointAction::Return(
                            Ok(PipelineOutput { message, steps: record.checkpoint.completed }),
                        ),
                    )
                } else {
                    self.begin_stage(index + 1, record, interrupted)
                }
            },
            (_, _) => {
                let completed: Vec<PipelineStep> = Vec::new();
                let error = failed_run(completed, PipelineFailure::Interrupted);
                (CheckpointPhase::Over, CheckpointAction::Return(Err(error)))
            },
        }
    }

    /// Goes on after the agent of a stage was called.
    pub fn replied(&self, phase: CheckpointPhase, reply: StageReply) -> (next: (
        CheckpointPhase,
        CheckpointAction,
    ))
        requires
            phase@ is Replying,
            phase@.well_formed(self@),
        ensures
            replied_step(self@, phase@, reply, next.0@, next.1@),
            next.0@.well_formed(self@),
    {
        let (index, completed, record) = match phase {
            CheckpointPhase::Replying(index, completed, record) => (index, completed, record),
            _ => {
                let completed: Vec<PipelineStep> = Vec::new();
                let error = failed_run(completed, PipelineFailure::Interrupted);
                return (CheckpointPhase::Over, CheckpointAction::Return(Err(error)));
            },
        };
        let message = match reply {
            StageReply::Interrupted => {
                let error = self.stage_failure(index, completed, PipelineFailure::Interrupted);
                return (CheckpointPhase::Over, CheckpointAction::Return(Err(error)));
            },
            StageReply::Replied(Err(error)) => {
                let error = self.stage_failure(
                    index,
                    completed,
                    PipelineFailure::Agent(Box::new(error)),
                );
                return (CheckpointPhase::Over, CheckpointAction::Return(Err(error)));
            },
            StageReply::Replied(Ok(message)) => message,
        };
        assert(index < self.names.len());
        let last = index + 1 == self.len();
        let revision = record.revision;
        let mut checkpoint = record.checkpoint;
        if !last {
            match handoff(self.name(index), &message) {
                Err(reason) => {
                    let error = self.stage_failure(
                        index,
                        completed,
                        PipelineFailure::InvalidHandoff(reason),
                    );
                    return (CheckpointPhase::Over, CheckpointAction::Return(Err(error)));
                },
                Ok(next_input) => {
                    checkpoint.next_input = next_input;
                },
            }
        }
        let step = self.completed_step(index, message.clone());
        proof {
            lemma_views_push(checkpoint.completed@, step);
        }
        checkpoint.completed.push(step);
        checkpoint.status = if last {
            PipelineCheckpointStatus::Finished
        } else {
            PipelineCheckpointStatus::Ready
        };
        (
            CheckpointPhase::Committing(index, completed, message),
            CheckpointAction::Save(Some(revision), checkpoint),
        )
    }
}

/// A stage is called only after the store has recorded it as in flight, and with
/// the input of that record.
pub proof fn stages_are_marked_before_they_run(
    names: Seq<Seq<char>>,
    before: CheckpointPhaseView,
    saved: Result<PipelineRecordView, Seq<char>>,
    interrupted: bool,
    after: CheckpointPhaseView,
    index: int,
    input: MsgView,
)
    requires
        saved_step(
            names,
            before,
            saved,
            interrupted,
            after,
            CheckpointActionView::Call(index, input),
        ),
    ensures
        before is Marking,
        saved is Ok,
        saved->Ok_0.checkpoint.next_input == input,
{
}

/// A checkpoint in flight or finished is never resumed, nor one of another pipeline.
pub proof fn unsafe_checkpoints_are_refused(
    names: Seq<Seq<char>>,
    record: PipelineRecordView,
)
    requires
        record.checkpoint.status != PipelineCheckpointStatus::Ready
            || record.checkpoint.agent_names != names || record.checkpoint.completed.len()
            >= names.len(),
    ensures
        resume_fault(names, Some(record)) is Some,
{
}

/// A committed boundary can be resumed: what a run saves after a stage that is not
/// the last is accepted when it is loaded again.
pub proof fn committed_boundaries_are_resumable(
    names: Seq<Seq<char>>,
    index: int,
    checkpoint: CheckpointView,
    message: MsgView,
    next_input: MsgView,
    revision: u64,
)
    requires
        0 <= index,
        index + 1 < names.len(),
        checkpoint.version == PIPELINE_CHECKPOINT_VERSION,
        checkpoint.agent_names == names,
        checkpoint.completed.len() == index,
        completed_in_order(names, checkpoint.completed),
        revision > 0,
    ensures
        resume_fault(
            names,
            Some(
                PipelineRecordView {
                    revision,
                    checkpoint: next_checkpoint(names, index, checkpoint, message, next_input),
                },
            ),
        ) is None,
{
}

} // verus!
