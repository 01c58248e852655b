//! Sequential orchestration of agents, without shared memory or automatic replay.
pub mod checkpoint;
pub mod passage;
pub mod stream;

use vstd::prelude::*;

use crate::agent::error::{AgentError, AgentErrorView, AgentResult};
use crate::message::content::{text_of_blocks, BlockView, ContentBlock};
use crate::message::msg::{is_new_text_msg, Msg, MsgView};
use crate::message::role::Role;
use crate::text::{blank, is_blank, same_text};
use crate::view::{lemma_views_push, views};

verus! {

/// One completed stage. Indices are one-based pipeline stages, not model calls.
#[derive(Debug, PartialEq, Eq)]
pub struct PipelineStep {
    /// The one-based position in the fixed stage list.
    pub step: usize,
    /// The configured name of the stage's agent.
    pub agent_name: String,
    /// The original reply; may hold content that is not passed to the next agent.
    pub message: Msg,
}

/// What a completed stage holds.
#[verifier::ext_equal]
pub struct StepView {
    pub step: nat,
    pub agent_name: Seq<char>,
    pub message: MsgView,
}

impl View for PipelineStep {
    type V = StepView;

    open spec fn view(&self) -> StepView {
        StepView {
            step: self.step as nat,
            agent_name: self.agent_name@,
            message: self.message@,
        }
    }
}

impl Clone for PipelineStep {
    fn clone(&self) -> (copied: PipelineStep)
        ensures
            copied@ == self@,
    {
        PipelineStep {
            step: self.step,
            agent_name: self.agent_name.clone(),
            message: self.message.clone(),
        }
    }
}

/// A completed run with the last reply and all stage results.
#[derive(Debug, PartialEq, Eq)]
pub struct PipelineOutput {
    /// The last agent's original reply.
    pub message: Msg,
    /// The original completed outputs.
    pub steps: Vec<PipelineStep>,
}

/// What a completed run holds.
#[verifier::ext_equal]
pub struct OutputView {
    pub message: MsgView,
    pub steps: Seq<StepView>,
}

impl View for PipelineOutput {
    type V = OutputView;

    open spec fn view(&self) -> OutputView {
        OutputView { message: self.message@, steps: views(self.steps@) }
    }
}

/// Why a pipeline cannot be configured.
#[derive(Debug, PartialEq, Eq)]
pub enum PipelineConfigError {
    /// There is no stage.
    Empty,
    /// The agent of a stage has a blank name.
    EmptyName {
        /// The one-based position of the stage.
        step: usize,
    },
    /// Two agents have the same name.
    DuplicateName(String),
}

/// What a configuration error holds.
#[verifier::ext_equal]
pub enum ConfigErrorView {
    Empty,
    EmptyName { step: nat },
    DuplicateName(Seq<char>),
}

impl View for PipelineConfigError {
    type V = ConfigErrorView;

    open spec fn view(&self) -> ConfigErrorView {
        match self {
            PipelineConfigError::Empty => ConfigErrorView::Empty,
            PipelineConfigError::EmptyName { step } => ConfigErrorView::EmptyName {
                step: *step as nat,
            },
            PipelineConfigError::DuplicateName(name) => ConfigErrorView::DuplicateName(name@),
        }
    }
}

/// Why a run failed.
#[derive(Debug, PartialEq, Eq)]
pub enum PipelineFailure {
    /// Another run of the pipeline is active.
    Busy,
    /// The run was interrupted.
    Interrupted,
    /// An agent failed.
    Agent(Box<AgentError>),
    /// A reply cannot be handed to the next agent.
    InvalidHandoff(String),
    /// The checkpoint store failed.
    Store(String),
    /// The checkpoint cannot be resumed safely.
    UnsafeResume(String),
}

/// What a failure holds.
#[verifier::ext_equal]
pub enum FailureView {
    Busy,
    Interrupted,
    Agent(AgentErrorView),
    InvalidHandoff(Seq<char>),
    Store(Seq<char>),
    UnsafeResume(Seq<char>),
}

impl View for PipelineFailure {
    type V = FailureView;

    open spec fn view(&self) -> FailureView {
        match self {
            PipelineFailure::Busy => FailureView::Busy,
            PipelineFailure::Interrupted => FailureView::Interrupted,
            PipelineFailure::Agent(error) => FailureView::Agent((**error)@),
            PipelineFailure::InvalidHandoff(reason) => FailureView::InvalidHandoff(reason@),
            PipelineFailure::Store(reason) => FailureView::Store(reason@),
            PipelineFailure::UnsafeResume(reason) => FailureView::UnsafeResume(reason@),
        }
    }
}

/// A failed run, with what was completed before.
#[derive(Debug, PartialEq, Eq)]
pub struct PipelineError {
    /// The one-based stage that failed, where one had begun.
    pub step: Option<usize>,
    /// The name of that stage's agent.
    pub agent_name: Option<String>,
    /// The stages completed before.
    pub completed: Vec<PipelineStep>,
    /// The reason.
    pub cause: PipelineFailure,
}

/// What a failed run holds.
#[verifier::ext_equal]
pub struct PipelineErrorView {
    pub step: Option<nat>,
    pub agent_name: Option<Seq<char>>,
    pub completed: Seq<StepView>,
    pub cause: FailureView,
}

impl View for PipelineError {
    type V = PipelineErrorView;

    open spec fn view(&self) -> PipelineErrorView {
        PipelineErrorView {
            step: match self.step {
                Some(step) => Some(step as nat),
                None => None,
            },
            agent_name: match self.agent_name {
                Some(name) => Some(name@),
                None => None,
            },
            completed: views(self.completed@),
            cause: self.cause@,
        }
    }
}

/// The failure of a stage.
pub open spec fn stage_error(
    names: Seq<Seq<char>>,
    index: int,
    completed: Seq<StepView>,
    cause: FailureView,
) -> PipelineErrorView {
    PipelineErrorView {
        step: Some((index + 1) as nat),
        agent_name: Some(names[index]),
        completed,
        cause,
    }
}

/// The failure of a run that belongs to no stage.
pub open spec fn run_error(completed: Seq<StepView>, cause: FailureView) -> PipelineErrorView {
    PipelineErrorView { step: None, agent_name: None, completed, cause }
}

/// The failure of a run while another one is active.
pub fn busy_error() -> (error: PipelineError)
    ensures
        error@ == run_error(Seq::empty(), FailureView::Busy),
{
    let completed: Vec<PipelineStep> = Vec::new();
    assert(views(completed@) =~= Seq::empty());
    PipelineError { step: None, agent_name: None, completed, cause: PipelineFailure::Busy }
}

pub(crate) fn failed_run(completed: Vec<PipelineStep>, cause: PipelineFailure) -> (error:
    PipelineError)
    ensures
        error@ == run_error(views(completed@), cause@),
{
    PipelineError { step: None, agent_name: None, completed, cause }
}

pub(crate) fn copy_steps(steps: &Vec<PipelineStep>) -> (copies: Vec<PipelineStep>)
    ensures
        views(copies@) == views(steps@),
{
    let copies = steps.clone();
    assert(views(copies@) =~= views(steps@));
    copies
}

/// What is wrong with the names of the first stages: the first that is blank or
/// stands before.
pub open spec fn names_fault(names: Seq<Seq<char>>) -> Option<ConfigErrorView>
    decreases names.len(),
{
    if names.len() == 0 {
        None
    } else {
        match names_fault(names.drop_last()) {
            Some(fault) => Some(fault),
            None => if blank(names.last()) {
                Some(ConfigErrorView::EmptyName { step: names.len() })
            } else if names.drop_last().contains(names.last()) {
                Some(ConfigErrorView::DuplicateName(names.last()))
            } else {
                None
            },
        }
    }
}

/// Why stages cannot make a pipeline, if they cannot.
pub open spec fn config_fault(names: Seq<Seq<char>>) -> Option<ConfigErrorView> {
    if names.len() == 0 {
        Some(ConfigErrorView::Empty)
    } else {
        names_fault(names)
    }
}

proof fn lemma_names_fault(names: Seq<Seq<char>>, count: int)
    requires
        0 <= count <= names.len(),
        names_fault(names.take(count)) is Some,
    ensures
        names_fault(names) == names_fault(names.take(count)),
    decreases names.len() - count,
{
    if count < names.len() {
        assert(names.take(count + 1).drop_last() =~= names.take(count));
        lemma_names_fault(names, count + 1);
    } else {
        assert(names.take(count) =~= names);
    }
}

/// The stages of a pipeline: each agent is run once, in order, and gets only the
/// visible text of the one before as new user input.
#[derive(Debug)]
pub struct SequentialPipeline {
    pub(crate) names: Vec<String>,
}

impl View for SequentialPipeline {
    type V = Seq<Seq<char>>;

    open(crate) spec fn view(&self) -> Seq<Seq<char>> {
        views(self.names@)
    }
}

impl SequentialPipeline {
    /// Creates a pipeline of agents with unique names that are not blank.
    pub fn new(names: Vec<String>) -> (result: Result<SequentialPipeline, PipelineConfigError>)
        ensures
            match result {
                Ok(pipeline) => config_fault(views(names@)) is None && pipeline@ == views(names@),
                Err(error) => config_fault(views(names@)) == Some(error@),
            },
    {
        if names.len() == 0 {
            return Err(PipelineConfigError::Empty);
        }
        let ghost all = views(names@);
        let mut i: usize = 0;
        while i < names.len()
            invariant
                i <= names@.len(),
                all == views(names@),
                all.len() > 0,
                names_fault(all.take(i as int)) is None,
            decreases names@.len() - i,
        {
            proof {
                assert(all.take(i + 1).drop_last() =~= all.take(i as int));
                assert(all.take(i + 1).last() == names@[i as int]@);
                if names_fault(all.take(i + 1)) is Some {
                    lemma_names_fault(all, i + 1);
                }
            }
            if is_blank(names[i].as_str()) {
                return Err(PipelineConfigError::EmptyName { step: i + 1 });
            }
            let mut j: usize = 0;
            while j < i
                invariant
                    j <= i < names@.len(),
                    all == views(names@),
                    all.len() > 0,
                    !blank(names@[i as int]@),
                    names_fault(all.take(i as int)) is None,
                    all.take(i + 1).drop_last() == all.take(i as int),
                    all.take(i + 1).last() == names@[i as int]@,
                    names_fault(all.take(i + 1)) is Some ==> names_fault(all) == names_fault(
                        all.take(i + 1),
                    ),
                    forall|k: int| 0 <= k < j ==> #[trigger] all[k] != names@[i as int]@,
                decreases i - j,
            {
                if same_text(names[j].as_str(), names[i].as_str()) {
                    assert(all.take(i as int)[j as int] == names@[i as int]@);
                    return Err(PipelineConfigError::DuplicateName(names[i].clone()));
                }
                j += 1;
            }
            assert(!all.take(i as int).contains(names@[i as int]@)) by {
                if all.take(i as int).contains(names@[i as int]@) {
                    let k = choose|k: int|
                        0 <= k < i && all.take(i as int)[k] == names@[i as int]@;
                    assert(all[k] == names@[i as int]@);
                }
            }
            i += 1;
        }
        assert(all.take(all.len() as int) =~= all);
        Ok(SequentialPipeline { names })
    }

    /// The number of stages.
    pub fn len(&self) -> (count: usize)
        ensures
            count == self@.len(),
    {
        self.names.len()
    }

    /// The name of a stage's agent.
    pub fn name(&self, index: usize) -> (name: &str)
        requires
            index < self@.len(),
        ensures
            name@ == self@[index as int],
    {
        self.names[index].as_str()
    }

    pub(crate) fn stage_failure(
        &self,
        index: usize,
        completed: Vec<PipelineStep>,
        cause: PipelineFailure,
    ) -> (error: PipelineError)
        requires
            index < self@.len(),
        ensures
            error@ == stage_error(self@, index as int, views(completed@), cause@),
    {
        assert(index < self.names.len());
        PipelineError {
            step: Some(index + 1),
            agent_name: Some(self.names[index].clone()),
            completed,
            cause,
        }
    }

    pub(crate) fn completed_step(&self, index: usize, message: Msg) -> (step: PipelineStep)
        requires
            index < self@.len(),
        ensures
            step@ == (StepView {
                step: (index + 1) as nat,
                agent_name: self@[index as int],
                message: message@,
            }),
    {
        assert(index < self.names.len());
        PipelineStep { step: index + 1, agent_name: self.names[index].clone(), message }
    }
}

/// Whether a block can be handed over, or be left out silently.
pub open spec fn is_handed_over(block: BlockView) -> bool {
    block is Text || block is Thinking
}

/// The visible text of content: its text blocks on lines of their own.
pub open spec fn visible_text(content: Seq<BlockView>) -> Seq<char> {
    match text_of_blocks(content, "\n"@) {
        Some(text) => text,
        None => Seq::empty(),
    }
}

/// Why a reply cannot be handed to the next agent, if it cannot.
pub open spec fn handoff_fault(content: Seq<BlockView>) -> Option<Seq<char>> {
    if exists|i: int| 0 <= i < content.len() && !is_handed_over(#[trigger] content[i]) {
        Some("v1 pipeline handoff supports visible text only"@)
    } else if blank(visible_text(content)) {
        Some("agent reply has no visible text to hand off"@)
    } else {
        None
    }
}

/// What the next agent gets of a reply: a new user message, named after the agent
/// that replied, with the visible text.
pub fn handoff(source: &str, message: &Msg) -> (result: Result<Msg, String>)
    ensures
        match result {
            Ok(next) => handoff_fault(message@.content) is None && is_new_text_msg(
                next@,
                source@,
                Role::User,
                visible_text(message@.content),
            ),
            Err(reason) => handoff_fault(message@.content) == Some(reason@),
        },
{
    let ghost content = views(message.content@);
    let mut i: usize = 0;
    while i < message.content.len()
        invariant
            i <= message.content@.len(),
            content == views(message.content@),
            message@.content == content,
            forall|j: int| 0 <= j < i ==> is_handed_over(#[trigger] content[j]),
        decreases message.content@.len() - i,
    {
        assert(content[i as int] == message.content@[i as int]@);
        match &message.content[i] {
            ContentBlock::Text(_) => {},
            ContentBlock::Thinking(_) => {},
            _ => {
                assert(!is_handed_over(content[i as int]));
                return Err("v1 pipeline handoff supports visible text only".to_owned());
            },
        }
        i += 1;
    }
    let text = match message.text_content("\n") {
        Some(text) => text,
        None => String::new(),
    };
    assert(text@ =~= visible_text(content));
    if is_blank(text.as_str()) {
        return Err("agent reply has no visible text to hand off".to_owned());
    }
    let mut blocks: Vec<ContentBlock> = Vec::new();
    blocks.push(ContentBlock::from(text.as_str()));
    Ok(Msg::new(source, Role::User, blocks))
}

/// What follows a stage.
#[derive(Debug)]
pub enum StageOutcome {
    /// The next agent is called with a message.
    Call(Msg),
    /// The run is over.
    Return(Result<PipelineOutput, PipelineError>),
}

/// What follows a stage, by its view.
#[verifier::ext_equal]
pub enum OutcomeView {
    Call(MsgView),
    Return(Result<OutputView, PipelineErrorView>),
}

impl View for StageOutcome {
    type V = OutcomeView;

    open spec fn view(&self) -> OutcomeView {
        match self {
            StageOutcome::Call(msg) => OutcomeView::Call(msg@),
            StageOutcome::Return(result) => OutcomeView::Return(
                match result {
                    Ok(output) => Ok(output@),
                    Err(error) => Err(error@),
                },
            ),
        }
    }
}

/// The stage that a reply completes.
pub open spec fn completed_stage(names: Seq<Seq<char>>, index: int, message: MsgView) -> StepView {
    StepView { step: (index + 1) as nat, agent_name: names[index], message }
}

/// Whether an outcome follows a stage that was completed with a reply, after the
/// stages before it: the end of the run after the last stage, and the handoff
/// elsewhere.
pub open spec fn follows_reply(
    names: Seq<Seq<char>>,
    before: Seq<StepView>,
    message: MsgView,
    after: Seq<StepView>,
    outcome: OutcomeView,
) -> bool {
    let index = before.len() as int;
    &&& after == before.push(completed_stage(names, index, message))
    &&& if index + 1 == names.len() {
        outcome == OutcomeView::Return(Ok(OutputView { message, steps: after }))
    } else {
        match handoff_fault(message.content) {
            Some(reason) => outcome == OutcomeView::Return(
                Err(stage_error(names, index, after, FailureView::InvalidHandoff(reason))),
            ),
            None => outcome matches OutcomeView::Call(next) && is_new_text_msg(
                next,
                names[index],
                Role::User,
                visible_text(message.content),
            ),
        }
    }
}

/// What came of calling the agent of a stage.
#[derive(Debug)]
pub enum StageReply {
    /// The run was interrupted first.
    Interrupted,
    /// The agent replied.
    Replied(AgentResult<Msg>),
}

/// Whether an outcome follows a call of an agent.
pub open spec fn run_step(
    names: Seq<Seq<char>>,
    before: Seq<StepView>,
    reply: StageReply,
    after: Seq<StepView>,
    outcome: OutcomeView,
) -> bool {
    let index = before.len() as int;
    match reply {
        StageReply::Interrupted => after == before && outcome == OutcomeView::Return(
            Err(stage_error(names, index, before, FailureView::Interrupted)),
        ),
        StageReply::Replied(Err(error)) => after == before && outcome == OutcomeView::Return(
            Err(stage_error(names, index, before, FailureView::Agent(error@))),
        ),
        StageReply::Replied(Ok(message)) => follows_reply(
            names,
            before,
            message@,
            after,
            outcome,
        ),
    }
}

impl SequentialPipeline {
    pub(crate) fn complete(&self, completed: Vec<PipelineStep>, message: Msg) -> (next: (
        Vec<PipelineStep>,
        StageOutcome,
    ))
        requires
            completed@.len() < self@.len(),
        ensures
            follows_reply(
                self@,
                views(completed@),
                message@,
                views(next.0@),
                next.1@,
            ),
    {
        let index = completed.len();
        let mut completed = completed;
        let step = self.completed_step(index, message.clone());
        proof {
            lemma_views_push(completed@, step);
        }
        completed.push(step);
        if index + 1 == self.len() {
            let steps = copy_steps(&completed);
            return (completed, StageOutcome::Return(Ok(PipelineOutput { message, steps })));
        }
        match handoff(self.name(index), &message) {
            Err(reason) => {
                let error = self.stage_failure(
                    index,
                    copy_steps(&completed),
                    PipelineFailure::InvalidHandoff(reason),
                );
                (completed, StageOutcome::Return(Err(error)))
            },
            Ok(incoming) => (completed, StageOutcome::Call(incoming)),
        }
    }

    /// Goes on after the agent of the stage behind the completed ones was called.
    pub fn advance(&self, completed: Vec<PipelineStep>, reply: StageReply) -> (next: (
        Vec<PipelineStep>,
        StageOutcome,
    ))
        requires
            completed@.len() < self@.len(),
        ensures
            run_step(self@, views(completed@), reply, views(next.0@), next.1@),
    {
        let index = completed.len();
        match reply {
            StageReply::Interrupted => {
                let error = self.stage_failure(
                    index,
                    copy_steps(&completed),
                    PipelineFailure::Interrupted,
                );
                (completed, StageOutcome::Return(Err(error)))
            },
            StageReply::Replied(Err(error)) => {
                let error = self.stage_failure(
                    index,
                    copy_steps(&completed),
                    PipelineFailure::Agent(Box::new(error)),
                );
                (completed, StageOutcome::Return(Err(error)))
            },
            StageReply::Replied(Ok(message)) => self.complete(completed, message),
        }
    }
}

/// Only the visible text of a reply reaches the next agent: replies with the same
/// visible text, both of which can be handed over, hand over messages with the same
/// text, name and role, whatever else they hold.
pub proof fn handoffs_carry_only_visible_text(
    names: Seq<Seq<char>>,
    before: Seq<StepView>,
    message: MsgView,
    other: MsgView,
    after: Seq<StepView>,
    other_after: Seq<StepView>,
    next: MsgView,
    other_next: MsgView,
)
    requires
        follows_reply(names, before, message, after, OutcomeView::Call(next)),
        follows_reply(names, before, other, other_after, OutcomeView::Call(other_next)),
        visible_text(message.content) == visible_text(other.content),
    ensures
        next.name == other_next.name,
        next.role == other_next.role,
        next.content.len() == 1,
        other_next.content.len() == 1,
        next.content[0] matches BlockView::Text(block) && block.text == visible_text(
            message.content,
        ),
        other_next.content[0] matches BlockView::Text(block) && block.text == visible_text(
            message.content,
        ),
        next.metadata == Map::<Seq<char>, crate::json::JsonView>::empty(),
        next.usage is None,
{
}

/// A run that goes on has completed one more stage, and stages are never completed
/// again: there are at most as many calls as stages.
pub proof fn stages_run_once_in_order(
    names: Seq<Seq<char>>,
    before: Seq<StepView>,
    reply: StageReply,
    after: Seq<StepView>,
    outcome: OutcomeView,
)
    requires
        before.len() < names.len(),
        run_step(names, before, reply, after, outcome),
    ensures
        outcome is Call ==> after.len() == before.len() + 1 && after.len() < names.len(),
        forall|i: int| 0 <= i < before.len() ==> #[trigger] after[i] == before[i],
        after.len() > before.len() ==> after.len() == before.len() + 1 && after.last().step
            == after.len() && after.last().agent_name == names[before.len() as int],
        outcome matches OutcomeView::Return(Ok(output)) ==> output.steps.len() == names.len()
            && output.steps.last().message == output.message,
{
}

/// Every failure carries the stages that were completed before it.
pub proof fn failures_carry_completed_stages(
    names: Seq<Seq<char>>,
    before: Seq<StepView>,
    reply: StageReply,
    after: Seq<StepView>,
    error: PipelineErrorView,
)
    requires
        run_step(names, before, reply, after, OutcomeView::Return(Err(error))),
    ensures
        error.completed == after,
        error.step == Some((before.len() + 1) as nat),
        error.agent_name == Some(names[before.len() as int]),
{
}

} // verus!
