//! The agent loop, driven step by step against scripted models, tools and stores.
use std::cell::RefCell;
use std::rc::Rc;

use agentscope::agent::compact::{
    compaction_event, Compaction, CompactionAction, SummaryReply,
};
use agentscope::agent::compaction::{auto_check, check_auto_budget, summary_projection};
use agentscope::agent::react::ensure_not_interrupted;
use agentscope::agent::recovery::{Recovery, RecoveryAction, RecoveryInput, RecoveryKind};
use agentscope::agent::reply::{Reply, ReplyAction, ReplyInput};
use agentscope::agent::resume::{Resume, ResumeAction, ResumeInput};
use agentscope::agent::session::{event_after_save, Observe, ObserveAction, Session};
use agentscope::agent::stream::{model_stream_step, ModelStreamItem, ModelStreamStep};
use agentscope::agent::{
    AgentHookError, AgentHookEvent, AgentInterruptToken, AgentState, InMemoryStateStore,
    InterruptSignal, PendingToolCalls, PendingToolExecution, StateKey, StateStoreError,
    ToolConfirmation, AGENT_STATE_VERSION,
};
use agentscope::context::budget::BudgetErrorView;
use agentscope::context::{
    ContextPolicy, ContextSummary, FullContext, RecentTurns, SummaryError, TokenBudget,
    TokenBudgetError, TokenCount, TokenCountAccuracy, TokenCounter,
};
use agentscope::json::Json;
use agentscope::model::request::RequestView;
use agentscope::{
    AgentError, AgentEvent, AgentResult, ChatEvent, ChatRequest, ChatResponse,
    ChatResponseAccumulator, ContentBlock, FinishReason, GenerateOptions, InMemoryMemory,
    MockChatModel, ModelError, ModelResult, Msg, ReActAgent, Role, ToolCallBlock, ToolCallState,
    ToolDefinition, ToolError, ToolResultBlock, ToolResultOutput, ToolResultState, Usage,
};

type Hook = Box<dyn FnMut(&AgentHookEvent) -> Result<(), AgentHookError>>;
type Watch = Box<dyn FnMut(&AgentEvent)>;
type Counting = Rc<dyn Fn(&ChatRequest) -> u64>;
type Summarizing = Box<dyn FnMut(&[Msg]) -> Result<String, SummaryError>>;

struct Counter(Counting);

impl TokenCounter for Counter {
    fn counted(&self, _: RequestView) -> Result<TokenCount, BudgetErrorView> {
        unreachable!("only proofs speak of it")
    }

    fn count(&self, request: &ChatRequest) -> Result<TokenCount, TokenBudgetError> {
        Ok(TokenCount {
            tokens: (self.0)(request),
            accuracy: TokenCountAccuracy::Estimated,
        })
    }
}

/// A store whose saves can be made to fail, by their number.
#[derive(Default)]
struct Store {
    inner: InMemoryStateStore,
    fail_from: Option<usize>,
    writes: usize,
}

/// Performs what the agent's decisions ask for, synchronously.
struct Rig {
    agent: Rc<ReActAgent>,
    model: MockChatModel,
    memory: Option<InMemoryMemory>,
    hooks: Vec<Hook>,
    output: String,
    invocations: Vec<(String, Option<String>)>,
    signal: Rc<RefCell<InterruptSignal>>,
    interrupt_model: bool,
    interrupt_tool: bool,
    stop_before_tools: bool,
    policy: Option<Box<dyn ContextPolicy>>,
    budget: Option<TokenBudget<Counter>>,
    pending: Option<PendingToolCalls>,
    execution: Option<PendingToolExecution>,
    summary: Option<ContextSummary>,
    summarizer: Option<Summarizing>,
    watch: Option<Watch>,
    binding: Option<(StateKey, Rc<RefCell<Store>>)>,
    revision: Option<u64>,
}

/// The driver stopped before it executed tools.
const DROPPED: &str = "dropped";

impl Rig {
    fn new(agent: ReActAgent, model: MockChatModel) -> Rig {
        Rig {
            agent: Rc::new(agent),
            model,
            memory: None,
            hooks: Vec::new(),
            output: "42".to_owned(),
            invocations: Vec::new(),
            signal: Rc::new(RefCell::new(InterruptSignal::new())),
            interrupt_model: false,
            interrupt_tool: false,
            stop_before_tools: false,
            policy: None,
            budget: None,
            pending: None,
            execution: None,
            summary: None,
            summarizer: None,
            watch: None,
            binding: None,
            revision: None,
        }
    }

    fn with_memory(mut self, memory: InMemoryMemory) -> Rig {
        self.memory = Some(memory);
        self
    }

    fn with_store(mut self, key: StateKey, store: Rc<RefCell<Store>>) -> Rig {
        self.binding = Some((key, store));
        self
    }

    fn with_budget(mut self, window: u64, output: u32, counting: Counting) -> Rig {
        self.budget = Some(
            TokenBudget::new(window, output)
                .unwrap()
                .with_counter(Counter(counting)),
        );
        self
    }

    fn messages(&self) -> Vec<Msg> {
        self.memory.as_ref().unwrap().messages()
    }

    fn snapshot(&self) -> AgentResult<AgentState> {
        self.agent.snapshot(Session {
            messages: match &self.memory {
                Some(memory) => memory.messages(),
                None => Vec::new(),
            },
            pending_tool_calls: self.pending.clone(),
            pending_tool_execution: self.execution.clone(),
            context_summary: self.summary.clone(),
        })
    }

    fn install(&mut self, session: Session) {
        self.memory.as_mut().unwrap().replace(session.messages);
        self.pending = session.pending_tool_calls;
        self.execution = session.pending_tool_execution;
        self.summary = session.context_summary;
    }

    fn restore(&mut self, state: AgentState) -> AgentResult<()> {
        let session = self.agent.restore(state)?;
        self.install(session);
        Ok(())
    }

    fn begin(&mut self) -> AgentResult<()> {
        let Some((key, store)) = self.binding.clone() else {
            return Ok(());
        };
        let record = store.borrow().inner.load(&key);
        let (revision, session) = self.agent.begin_session(record)?;
        self.revision = revision;
        if let Some(session) = session {
            self.install(session);
        }
        Ok(())
    }

    fn persist(&mut self) -> AgentResult<()> {
        if self.binding.is_none() {
            return Ok(());
        }
        let state = self.snapshot()?;
        self.save(state)
    }

    fn save(&mut self, state: AgentState) -> AgentResult<()> {
        let Some((key, store)) = self.binding.clone() else {
            return Ok(());
        };
        let mut store = store.borrow_mut();
        store.writes += 1;
        if store.fail_from.is_some_and(|first| store.writes >= first) {
            return Err(AgentError::StateStore(StateStoreError::new(
                "storage unavailable",
            )));
        }
        let record = store
            .inner
            .save(key, self.revision, state)
            .map_err(AgentError::StateStore)?;
        self.revision = Some(record.revision());
        Ok(())
    }

    fn notify(&mut self, events: &[AgentHookEvent]) -> Result<(), AgentHookError> {
        for event in events {
            for hook in &mut self.hooks {
                hook(event)?;
            }
        }
        Ok(())
    }

    fn remember(&mut self, message: Msg) {
        if let Some(memory) = &mut self.memory {
            memory.append(vec![message]);
        }
    }

    /// What the context policy keeps of messages.
    fn keep(&self, messages: Vec<Msg>) -> Vec<Msg> {
        match &self.policy {
            Some(policy) => policy.select_messages(&messages),
            None => messages,
        }
    }

    fn select(&self, history: &[Msg], summary: Option<&ContextSummary>) -> AgentResult<Vec<Msg>> {
        Ok(self.keep(summary_projection(history, summary)?))
    }

    fn unbudgeted(
        &self,
        history: &[Msg],
        summary: Option<&ContextSummary>,
    ) -> AgentResult<ChatRequest> {
        let selected = self.select(history, summary)?;
        let system = self.agent.system_message();
        self.agent.request_with_summary(
            system.as_ref(),
            summary,
            &selected,
            None::<&TokenBudget<Counter>>,
        )
    }

    fn prepare(
        &self,
        history: &[Msg],
        summary: Option<&ContextSummary>,
    ) -> AgentResult<ChatRequest> {
        let selected = self.select(history, summary)?;
        let system = self.agent.system_message();
        self.agent
            .request_with_summary(system.as_ref(), summary, &selected, self.budget.as_ref())
    }

    fn execute(
        &mut self,
        calls: &[ToolCallBlock],
        keys: &[String],
    ) -> Option<Result<Vec<ToolResultBlock>, ToolError>> {
        let mut results = Vec::new();
        for (index, call) in calls.iter().enumerate() {
            self.invocations
                .push((call.input().to_owned(), keys.get(index).cloned()));
            if self.interrupt_tool {
                self.signal.borrow_mut().interrupt();
                return None;
            }
            results.push(
                ToolResultBlock::success(
                    call.id(),
                    call.name(),
                    ToolResultOutput::from(self.output.as_str()),
                )
                .unwrap(),
            );
        }
        Some(Ok(results))
    }

    /// Performs an action of a reply other than a model call.
    fn perform(&mut self, action: ReplyAction) -> ReplyInput {
        match action {
            ReplyAction::Start => ReplyInput::Begin,
            ReplyAction::Load => ReplyInput::Loaded(Ok(self.messages())),
            ReplyAction::Prepare => ReplyInput::Summary(self.summary.clone()),
            ReplyAction::Select(messages) => ReplyInput::Selected(Ok(self.keep(messages))),
            ReplyAction::Notify(events) => ReplyInput::Notified(self.notify(&events)),
            ReplyAction::Remember(message) => {
                self.remember(message);
                ReplyInput::Remembered(Ok(()))
            }
            ReplyAction::Pause(message, pending) => {
                self.remember(message);
                self.pending = Some(pending);
                ReplyInput::Remembered(Ok(()))
            }
            ReplyAction::Execute(calls) => match self.execute(&calls, &[]) {
                Some(results) => ReplyInput::Executed(results),
                None => ReplyInput::Interrupted,
            },
            ReplyAction::CallModel(_) | ReplyAction::Return(_) => {
                unreachable!("the caller deals with it")
            }
        }
    }

    fn interrupted(&self, token: &AgentInterruptToken) -> bool {
        token.is_interrupted(&self.signal.borrow())
    }

    fn run(&mut self, reply: Reply, token: &AgentInterruptToken) -> AgentResult<Msg> {
        self.run_from(reply, ReplyInput::Begin, token)
    }

    fn run_from(
        &mut self,
        reply: Reply,
        input: ReplyInput,
        token: &AgentInterruptToken,
    ) -> AgentResult<Msg> {
        let agent = self.agent.clone();
        let mut reply = reply;
        let mut input = input;
        loop {
            let (next, action) = reply.advance(&agent, self.budget.as_ref(), input, self.interrupted(token));
            reply = next;
            input = match action {
                ReplyAction::Return(result) => return result,
                ReplyAction::CallModel(request) => {
                    let response = self.model.generate(request);
                    if self.interrupt_model {
                        self.signal.borrow_mut().interrupt();
                        ReplyInput::Interrupted
                    } else {
                        ReplyInput::Responded(response)
                    }
                }
                action => self.perform(action),
            };
        }
    }

    /// Streams a started reply.
    fn run_streamed(
        &mut self,
        reply: Reply,
        token: &AgentInterruptToken,
        events: &mut Vec<AgentEvent>,
    ) {
        let agent = self.agent.clone();
        let mut reply = reply;
        let mut input = ReplyInput::Begin;
        loop {
            let interrupted = self.interrupted(token);
            let (next, action, emitted) =
                reply.advance_streamed(&agent, self.budget.as_ref(), input, interrupted);
            reply = next;
            events.extend(emitted);
            input = match action {
                ReplyAction::Return(_) => return,
                ReplyAction::CallModel(request) => match self.model.stream(request) {
                    Err(error) => ReplyInput::Responded(Err(error)),
                    Ok(items) => match self.collect(reply.step(), items, events) {
                        Some(response) => ReplyInput::Responded(Ok(response)),
                        None => return,
                    },
                },
                action => self.perform(action),
            };
        }
    }

    fn collect(
        &mut self,
        step: usize,
        items: Vec<ModelResult<ChatEvent>>,
        events: &mut Vec<AgentEvent>,
    ) -> Option<ChatResponse> {
        let mut accumulator = ChatResponseAccumulator::new();
        let mut items = items.into_iter();
        loop {
            let item = if self.interrupt_model {
                self.signal.borrow_mut().interrupt();
                ModelStreamItem::Interrupted
            } else {
                match items.next() {
                    Some(item) => ModelStreamItem::Next(item),
                    None => ModelStreamItem::Ended,
                }
            };
            match model_stream_step(accumulator, step, item) {
                ModelStreamStep::Emit(event, kept) => {
                    events.push(event);
                    accumulator = kept;
                }
                ModelStreamStep::Stop(event) => {
                    events.push(event);
                    return None;
                }
                ModelStreamStep::Respond(response) => return Some(response),
            }
        }
    }

    fn reply(&mut self, message: Msg) -> AgentResult<Msg> {
        if self.agent.auto_compaction().is_some() {
            return self.auto_reply(message);
        }
        self.begin()?;
        let token = self.signal.borrow().token();
        let result = match Reply::open(message, self.pending.as_ref(), self.execution.as_ref()) {
            Ok(reply) => self.run(reply, &token),
            Err(error) => Err(error),
        };
        self.persist()?;
        result
    }

    fn close(&mut self, events: &mut Vec<AgentEvent>) {
        let last = events.pop().unwrap();
        assert!(last.is_terminal());
        let saved = self.persist();
        events.push(event_after_save(last, saved));
    }

    /// Takes an opened reply to its start.
    fn take_in(
        &mut self,
        reply: Reply,
        input: ReplyInput,
        token: &AgentInterruptToken,
    ) -> AgentResult<Reply> {
        let agent = self.agent.clone();
        let mut reply = reply;
        let mut input = input;
        loop {
            let interrupted = self.interrupted(token);
            let (next, action) = reply.advance(&agent, self.budget.as_ref(), input, interrupted);
            reply = next;
            match action {
                ReplyAction::Start => return Ok(reply),
                ReplyAction::Return(result) => return Err(result.unwrap_err()),
                action => input = self.perform(action),
            }
        }
    }

    fn stream(&mut self, message: Msg) -> AgentResult<Vec<AgentEvent>> {
        if self.agent.auto_compaction().is_some() {
            return self.auto_stream(message);
        }
        self.begin()?;
        let token = self.signal.borrow().token();
        let reply = Reply::open(message, self.pending.as_ref(), self.execution.as_ref())?;
        let reply = match self.take_in(reply, ReplyInput::Begin, &token) {
            Ok(reply) => reply,
            Err(error) => {
                self.persist()?;
                return Err(error);
            }
        };
        let mut events = Vec::new();
        self.run_streamed(reply, &token, &mut events);
        self.close(&mut events);
        Ok(events)
    }

    /// Opens a reply up to the point where its conversation is read.
    fn greet(
        &mut self,
        message: Msg,
        token: &AgentInterruptToken,
    ) -> AgentResult<(Reply, ReplyAction)> {
        let agent = self.agent.clone();
        let mut reply = Reply::open(message, self.pending.as_ref(), self.execution.as_ref())?;
        let mut input = ReplyInput::Begin;
        loop {
            let interrupted = self.interrupted(token);
            let (next, action) = reply.advance(&agent, self.budget.as_ref(), input, interrupted);
            reply = next;
            input = match action {
                ReplyAction::Notify(events) => ReplyInput::Notified(self.notify(&events)),
                ReplyAction::Return(result) => return Err(result.unwrap_err()),
                action => return Ok((reply, action)),
            };
        }
    }

    /// Replies after one attempt to compact the context.
    fn auto_reply(&mut self, message: Msg) -> AgentResult<Msg> {
        self.begin()?;
        let token = self.signal.borrow().token();
        let (reply, action) = self.greet(message.clone(), &token)?;
        self.auto_compact(&message, &mut Vec::new())?;
        let result = match ensure_not_interrupted(self.interrupted(&token)) {
            Ok(()) => {
                let input = self.perform(action);
                self.run_from(reply, input, &token)
            }
            Err(error) => Err(error),
        };
        self.persist()?;
        result
    }

    /// Streams a reply after one attempt to compact the context.
    fn auto_stream(&mut self, message: Msg) -> AgentResult<Vec<AgentEvent>> {
        self.begin()?;
        let token = self.signal.borrow().token();
        let (reply, action) = self.greet(message.clone(), &token)?;
        let mut events = Vec::new();
        let admitted = match self.auto_compact(&message, &mut events) {
            Ok(()) => match ensure_not_interrupted(self.interrupted(&token)) {
                Ok(()) => {
                    let input = self.perform(action);
                    self.take_in(reply, input, &token)
                }
                Err(error) => Err(error),
            },
            Err(error) => Err(error),
        };
        match admitted {
            Ok(reply) => {
                self.run_streamed(reply, &token, &mut events);
                self.close(&mut events);
            }
            Err(error) => events.push(AgentEvent::Error { step: None, error }),
        }
        Ok(events)
    }

    fn resume(&mut self, reply_id: &str, decisions: Vec<ToolConfirmation>) -> AgentResult<Msg> {
        self.begin()?;
        let result = self.resume_started(reply_id, decisions);
        self.persist()?;
        result
    }

    fn resume_started(
        &mut self,
        reply_id: &str,
        decisions: Vec<ToolConfirmation>,
    ) -> AgentResult<Msg> {
        let agent = self.agent.clone();
        let token = self.signal.borrow().token();
        let mut resume = Resume::open(&agent, self.pending.as_ref(), reply_id, decisions)?;
        let mut input = ResumeInput::Loaded(Ok(self.messages()));
        loop {
            let (next, action) = resume.advance(input, self.interrupted(&token));
            resume = next;
            input = match action {
                ResumeAction::Load => ResumeInput::Loaded(Ok(self.messages())),
                ResumeAction::Notify(events) => ResumeInput::Notified(self.notify(&events)),
                ResumeAction::Execute(calls) => match self.execute(&calls, &[]) {
                    Some(results) => ResumeInput::Executed(results),
                    None => ResumeInput::Interrupted,
                },
                ResumeAction::Replace(history) => {
                    self.memory.as_mut().unwrap().replace(history);
                    ResumeInput::Remembered(Ok(()))
                }
                ResumeAction::Remember(message) => {
                    self.remember(message);
                    ResumeInput::Remembered(Ok(()))
                }
                ResumeAction::Continue(history, step) => {
                    self.pending = None;
                    assert!(step < agent.max_steps());
                    return self.run(Reply::new(history, step), &token);
                }
                ResumeAction::Abandon => {
                    self.pending = None;
                    return Err(AgentError::Interrupted);
                }
                ResumeAction::Fail(error) => return Err(error),
            };
        }
    }

    /// Recovers calls and streams the rest of the reply.
    fn recover(&mut self, reply_id: &str, kind: RecoveryKind) -> AgentResult<Vec<AgentEvent>> {
        self.begin()?;
        let token = self.signal.borrow().token();
        let mut events = Vec::new();
        if let Ok((history, step)) = self.recovered(reply_id, kind, &token, &mut events)? {
            self.run_streamed(Reply::new(history, step), &token, &mut events);
        }
        self.close(&mut events);
        Ok(events)
    }

    /// Recovers calls and completes the reply without streaming it.
    fn recover_reply(&mut self, reply_id: &str, kind: RecoveryKind) -> AgentResult<Msg> {
        if let RecoveryKind::Confirm(decisions) = kind {
            return self.resume(reply_id, decisions);
        }
        self.begin()?;
        let token = self.signal.borrow().token();
        let result = match self.recovered(reply_id, kind, &token, &mut Vec::new())? {
            Ok((history, step)) => self.run(Reply::new(history, step), &token),
            Err(error) => Err(error),
        };
        self.persist()?;
        result
    }

    /// Recovers calls up to the rest of the reply, or its failure.
    fn recovered(
        &mut self,
        reply_id: &str,
        kind: RecoveryKind,
        token: &AgentInterruptToken,
        events: &mut Vec<AgentEvent>,
    ) -> AgentResult<Result<(Vec<Msg>, usize), AgentError>> {
        let agent = self.agent.clone();
        let mut recovery = Recovery::open(
            &agent,
            self.pending.as_ref(),
            self.execution.as_ref(),
            reply_id,
            kind,
        )?;
        let mut input = RecoveryInput::Loaded(Ok(self.messages()));
        loop {
            let interrupted = self.interrupted(token);
            let (next, action, emitted) = recovery.advance(&agent, input, interrupted);
            recovery = next;
            events.extend(emitted);
            input = match action {
                RecoveryAction::Load => RecoveryInput::Loaded(Ok(self.messages())),
                RecoveryAction::Start => RecoveryInput::Begin,
                RecoveryAction::Notify(told) => RecoveryInput::Notified(self.notify(&told)),
                RecoveryAction::Mark(execution) => {
                    self.pending = None;
                    self.execution = Some(execution);
                    RecoveryInput::Saved(self.persist())
                }
                RecoveryAction::Execute(calls, keys) => {
                    if self.stop_before_tools && !calls.is_empty() {
                        return Err(AgentError::InvalidModelResponse(DROPPED.to_owned()));
                    }
                    match self.execute(&calls, &keys) {
                        Some(results) => RecoveryInput::Executed(results),
                        None => RecoveryInput::Interrupted,
                    }
                }
                RecoveryAction::Replace(history) => {
                    self.memory.as_mut().unwrap().replace(history);
                    RecoveryInput::Remembered(Ok(()))
                }
                RecoveryAction::Clear => {
                    self.pending = None;
                    self.execution = None;
                    RecoveryInput::Saved(self.persist())
                }
                RecoveryAction::Continue(history, step) => return Ok(Ok((history, step))),
                RecoveryAction::Refuse(error) => return Err(error),
                RecoveryAction::Fail(error) => return Ok(Err(error)),
            };
        }
    }

    fn observe(&mut self, message: Msg) -> AgentResult<()> {
        self.begin()?;
        let agent = self.agent.clone();
        let (mut observe, mut action) = Observe::open(&agent, message);
        let result = loop {
            (observe, action) = match action {
                ObserveAction::Notify(event) => observe.notified(self.notify(&[event])),
                ObserveAction::Remember(message) => {
                    self.remember(message);
                    observe.remembered(Ok(()))
                }
                ObserveAction::Return(result) => break result,
            };
        };
        result?;
        self.persist()
    }

    /// Drives a compaction, whose check of the model input is given.
    fn drive(
        &mut self,
        compaction: Compaction,
        check: &dyn Fn(&Rig, &ContextSummary) -> AgentResult<()>,
    ) -> AgentResult<CompactionAction> {
        let token = self.signal.borrow().token();
        let original = self.snapshot()?;
        let (mut compaction, mut action) = compaction.planned(
            original.clone(),
            self.summarizer.is_some(),
            self.interrupted(&token),
        );
        loop {
            (compaction, action) = match action {
                CompactionAction::Summarize(source) => {
                    let reply = self.summarizer.as_mut().unwrap()(&source);
                    let interrupted = self.interrupted(&token);
                    compaction.summarized(SummaryReply::Given(reply), interrupted)
                }
                CompactionAction::Check(summary) => {
                    let checked = check(self, &summary);
                    compaction.checked(checked, self.interrupted(&token))
                }
                CompactionAction::Compare => compaction.compared(self.snapshot()? != original),
                CompactionAction::Save(state) => {
                    let saved = self.save(state);
                    compaction.saved(saved)
                }
                action => return Ok(action),
            };
        }
    }

    fn compact(&mut self, keep: usize) -> AgentResult<Option<ContextSummary>> {
        let compaction = Compaction::explicit(keep)?;
        self.begin()?;
        let action = self.drive(compaction, &|rig, summary| {
            let history = rig.messages();
            rig.prepare(&history, Some(summary)).map(|_| ())
        })?;
        match action {
            CompactionAction::Install(summary) => {
                self.summary = Some(summary.clone());
                Ok(Some(summary))
            }
            CompactionAction::Fail(error) => Err(error),
            _ => Ok(None),
        }
    }

    fn emit(&mut self, event: AgentEvent, events: &mut Vec<AgentEvent>) {
        if let Some(watch) = &mut self.watch {
            watch(&event);
        }
        events.push(event);
    }

    /// One automatic compaction before a reply to a message, with its events.
    fn auto_compact(&mut self, message: &Msg, events: &mut Vec<AgentEvent>) -> AgentResult<()> {
        let Some(keep) = self.agent.auto_compaction() else {
            return Ok(());
        };
        let original = self.snapshot()?;
        let mut history = original.messages().clone();
        history.push(message.clone());
        let request = self.unbudgeted(&history, original.context_summary())?;
        let check = check_auto_budget(self.budget.as_ref(), request);
        let Some(overflow) = auto_check(self.summarizer.is_some(), check)? else {
            return Ok(());
        };
        let (compaction, event) = Compaction::automatic(keep, overflow);
        self.emit(event, events);
        let action = self.drive(compaction, &|rig, summary| {
            let request = rig.unbudgeted(&history, Some(summary))?;
            check_auto_budget(rig.budget.as_ref(), request)
        })?;
        if let Some(event) = compaction_event(&action) {
            self.emit(event, events);
        }
        match action {
            CompactionAction::Install(summary) => {
                self.summary = Some(summary);
                Ok(())
            }
            CompactionAction::Fail(error) => Err(error),
            _ => Ok(()),
        }
    }
}

fn json(text: &str) -> Json {
    Json::parse(text).unwrap()
}

fn calculator_definition() -> ToolDefinition {
    ToolDefinition::new(
        "calculator",
        "Evaluate an arithmetic expression",
        json(
            r#"{
            "type": "object",
            "properties": {"expression": {"type": "string"}},
            "required": ["expression"]
        }"#,
        ),
    )
    .unwrap()
}

fn friday() -> ReActAgent {
    ReActAgent::new("Friday").unwrap()
}

fn friday_with_calculator() -> ReActAgent {
    friday().with_tools(vec![calculator_definition()])
}

fn calls(id: &str, input: &str) -> ChatResponse {
    ChatResponse::finished(
        vec![ContentBlock::from(
            ToolCallBlock::complete(id, "calculator", input).unwrap(),
        )],
        FinishReason::ToolCalls,
    )
}

fn says(text: &str) -> ChatResponse {
    ChatResponse::completed(vec![ContentBlock::from(text)])
}

fn calculator_call_stream() -> Vec<ModelResult<ChatEvent>> {
    vec![
        Ok(ChatEvent::ToolCallDelta {
            tool_call_id: "call-stream-1".to_owned(),
            tool_name: "calculator".to_owned(),
            delta: "{\"expression\":\"".to_owned(),
        }),
        Ok(ChatEvent::ToolCallDelta {
            tool_call_id: "call-stream-1".to_owned(),
            tool_name: "calculator".to_owned(),
            delta: "6*7\"}".to_owned(),
        }),
        Ok(ChatEvent::Usage {
            usage: Usage::new(10, 4),
        }),
        Ok(ChatEvent::Finished {
            reason: FinishReason::ToolCalls,
        }),
    ]
}

fn final_answer_stream() -> Vec<ModelResult<ChatEvent>> {
    vec![
        Ok(ChatEvent::TextDelta {
            block_id: "text-final".to_owned(),
            delta: "The answer ".to_owned(),
        }),
        Ok(ChatEvent::TextDelta {
            block_id: "text-final".to_owned(),
            delta: "is 42.".to_owned(),
        }),
        Ok(ChatEvent::Usage {
            usage: Usage::new(18, 6),
        }),
        Ok(ChatEvent::Finished {
            reason: FinishReason::Completed,
        }),
    ]
}

fn ordered_hook(name: &'static str, recorded: &Rc<RefCell<Vec<String>>>) -> Hook {
    let recorded = recorded.clone();
    Box::new(move |event| {
        let kind = match event {
            AgentHookEvent::BeforeObserve { .. } => "before_observe",
            AgentHookEvent::AfterObserve { .. } => "after_observe",
            AgentHookEvent::BeforeReply { .. } => "before_reply",
            AgentHookEvent::BeforeModelCall { .. } => "before_model_call",
            AgentHookEvent::AfterModelCall { .. } => "after_model_call",
            AgentHookEvent::BeforeToolCall { .. } => "before_tool_call",
            AgentHookEvent::AfterToolCall { .. } => "after_tool_call",
            AgentHookEvent::AfterReply { .. } => "after_reply",
        };
        recorded.borrow_mut().push(format!("{name}:{kind}"));
        Ok(())
    })
}

fn checkpoint_of(error: AgentError) -> PendingToolCalls {
    let AgentError::ToolConfirmationRequired { checkpoint } = error else {
        panic!("tool call should pause for confirmation")
    };
    checkpoint
}

#[test]
fn react_agent_completes_a_model_tool_model_loop() {
    let model = MockChatModel::new("mock-model")
        .with_response(calls("call-1", r#"{"expression":"6*7"}"#))
        .with_response(says("The answer is 42."));
    let agent = friday_with_calculator()
        .with_memory()
        .with_system_prompt("Use tools when helpful.")
        .with_options(GenerateOptions::new().with_temperature(Json::Unsigned(0)));
    let mut rig = Rig::new(agent, model).with_memory(InMemoryMemory::new());

    let reply = rig.reply(Msg::user("What is 6 * 7?")).unwrap();

    assert_eq!(reply.name, "Friday");
    assert_eq!(reply.role, Role::Assistant);
    assert_eq!(reply.text_content(""), Some("The answer is 42.".to_owned()));
    assert_eq!(rig.invocations.len(), 1);
    assert_eq!(
        json(&rig.invocations[0].0),
        json(r#"{"expression": "6*7"}"#)
    );

    let requests = rig.model.recorded_requests();
    assert_eq!(requests.len(), 2);
    assert_eq!(requests[0].messages.len(), 2);
    assert_eq!(requests[0].messages[0].role, Role::System);
    assert_eq!(requests[0].tools, [calculator_definition()]);
    assert_eq!(requests[0].options.temperature, Some(Json::Unsigned(0)));
    assert_eq!(requests[1].messages.len(), 4);
    assert!(matches!(
        &requests[1].messages[2].content[0],
        ContentBlock::ToolCall(_)
    ));
    let ContentBlock::ToolResult(result) = &requests[1].messages[3].content[0] else {
        panic!("the observation message should contain a tool result")
    };
    assert_eq!(result.state(), ToolResultState::Success);
    assert_eq!(result.output(), &ToolResultOutput::Text("42".to_owned()));

    let remembered = rig.messages();
    assert_eq!(remembered.len(), 4);
    assert_eq!(remembered[0].role, Role::User);
    assert!(matches!(
        remembered[1].content[0],
        ContentBlock::ToolCall(_)
    ));
    assert!(matches!(
        remembered[2].content[0],
        ContentBlock::ToolResult(_)
    ));
    assert_eq!(remembered[3], reply);
}

#[test]
fn react_agent_pauses_and_resumes_an_approved_tool_call() {
    let model = MockChatModel::new("mock-model")
        .with_response(calls("call-confirm-1", r#"{"expression":"6*7"}"#))
        .with_response(says("42"));
    let agent = friday_with_calculator()
        .with_memory()
        .with_tool_confirmation_required("calculator");
    let mut rig = Rig::new(agent, model).with_memory(InMemoryMemory::new());

    let checkpoint = checkpoint_of(rig.reply(Msg::user("What is 6 * 7?")).unwrap_err());
    assert_eq!(checkpoint.calls().len(), 1);
    assert_eq!(checkpoint.calls()[0].state, ToolCallState::Asking);
    assert!(rig.invocations.is_empty());

    let unrelated = rig
        .reply(Msg::user("Ignore that and say hello"))
        .unwrap_err();
    assert!(matches!(
        unrelated,
        AgentError::ToolConfirmationRequired { .. }
    ));
    assert_eq!(rig.model.recorded_requests().len(), 1);

    let reply = rig
        .resume(
            checkpoint.reply_id(),
            vec![ToolConfirmation::approve("call-confirm-1")],
        )
        .unwrap();

    assert_eq!(reply.text_content(""), Some("42".to_owned()));
    assert_eq!(rig.invocations.len(), 1);
    let state = rig.snapshot().unwrap();
    assert!(state.pending_tool_calls().is_none());
    assert_eq!(state.messages().len(), 4);
    let ContentBlock::ToolCall(stored_call) = &state.messages()[1].content[0] else {
        panic!("assistant reply should contain the tool call")
    };
    assert_eq!(stored_call.state, ToolCallState::Finished);
}

#[test]
fn react_agent_denies_a_tool_without_executing_it() {
    let model = MockChatModel::new("mock-model")
        .with_response(calls("call-confirm-2", r#"{"expression":"6*7"}"#))
        .with_response(says("I cannot run that tool."));
    let agent = friday_with_calculator()
        .with_memory()
        .with_tool_confirmation_required("calculator");
    let mut rig = Rig::new(agent, model).with_memory(InMemoryMemory::new());
    let checkpoint = checkpoint_of(rig.reply(Msg::user("Run the calculator")).unwrap_err());

    let reply = rig
        .resume(
            checkpoint.reply_id(),
            vec![ToolConfirmation::deny(
                "call-confirm-2",
                "User denied execution",
            )],
        )
        .unwrap();

    assert_eq!(
        reply.text_content(""),
        Some("I cannot run that tool.".to_owned())
    );
    assert!(rig.invocations.is_empty());
    let remembered = rig.messages();
    let ContentBlock::ToolResult(result) = &remembered[2].content[0] else {
        panic!("denial should create a tool result")
    };
    assert_eq!(result.state(), ToolResultState::Denied);
    assert_eq!(
        result.output(),
        &ToolResultOutput::Text("User denied execution".to_owned())
    );
}

#[test]
fn react_agent_rejects_invalid_confirmations_without_losing_the_checkpoint() {
    let model = MockChatModel::new("mock-model")
        .with_response(calls("call-confirm-3", r#"{"expression":"1+1"}"#))
        .with_response(says("done"));
    let agent = friday_with_calculator()
        .with_memory()
        .with_tool_confirmation_required("calculator");
    let mut rig = Rig::new(agent, model).with_memory(InMemoryMemory::new());
    let checkpoint = checkpoint_of(rig.reply(Msg::user("Run it")).unwrap_err());

    let wrong_reply = rig
        .resume(
            "wrong-reply",
            vec![ToolConfirmation::approve("call-confirm-3")],
        )
        .unwrap_err();
    assert_eq!(
        wrong_reply,
        AgentError::InvalidToolConfirmation(format!(
            "reply id `wrong-reply` does not match pending reply `{}`",
            checkpoint.reply_id()
        ))
    );
    let missing = rig.resume(checkpoint.reply_id(), Vec::new()).unwrap_err();
    assert_eq!(
        missing,
        AgentError::InvalidToolConfirmation(
            "missing decisions for tool calls: call-confirm-3".to_owned()
        )
    );
    assert!(rig.invocations.is_empty());

    rig.resume(
        checkpoint.reply_id(),
        vec![ToolConfirmation::approve("call-confirm-3")],
    )
    .unwrap();
    assert_eq!(rig.invocations.len(), 1);
    assert_eq!(
        rig.resume(checkpoint.reply_id(), Vec::new()).unwrap_err(),
        AgentError::NoPendingToolConfirmation
    );
}

#[test]
fn interrupted_resumption_closes_the_calls_and_drops_the_checkpoint() {
    let model = MockChatModel::new("mock-model")
        .with_response(calls("call-confirm-5", r#"{"expression":"1+1"}"#));
    let agent = friday_with_calculator()
        .with_memory()
        .with_tool_confirmation_required("calculator");
    let mut rig = Rig::new(agent, model).with_memory(InMemoryMemory::new());
    let checkpoint = checkpoint_of(rig.reply(Msg::user("Run it")).unwrap_err());
    rig.interrupt_tool = true;
    assert_eq!(
        rig.resume(
            checkpoint.reply_id(),
            vec![ToolConfirmation::approve("call-confirm-5")],
        ),
        Err(AgentError::Interrupted)
    );
    assert!(rig.pending.is_none());
    let remembered = rig.messages();
    let ContentBlock::ToolResult(result) = &remembered[2].content[0] else {
        panic!("interruption should create a tool result")
    };
    assert_eq!(result.state(), ToolResultState::Interrupted);
    assert_eq!(
        result.output(),
        &ToolResultOutput::Text("agent operation was interrupted".to_owned())
    );
}

#[test]
fn state_store_restores_a_pending_tool_call_in_a_new_agent() {
    let key = StateKey::new("user-1", "hitl-restart").unwrap();
    let store = Rc::new(RefCell::new(Store::default()));
    let agent = || {
        friday_with_calculator()
            .with_memory()
            .with_tool_confirmation_required("calculator")
    };
    let mut first = Rig::new(
        agent(),
        MockChatModel::new("first-model")
            .with_response(calls("call-confirm-4", r#"{"expression":"1+1"}"#)),
    )
    .with_memory(InMemoryMemory::new())
    .with_store(key.clone(), store.clone());
    let checkpoint = checkpoint_of(first.reply(Msg::user("Run after restart")).unwrap_err());
    assert!(first.invocations.is_empty());
    let saved = store.borrow().inner.load(&key).unwrap();
    assert_eq!(saved.revision(), 1);
    assert!(saved.state().pending_tool_calls().is_some());

    let mut resumed = Rig::new(
        agent(),
        MockChatModel::new("resumed-model").with_response(says("finished")),
    )
    .with_memory(InMemoryMemory::new())
    .with_store(key.clone(), store.clone());
    let reply = resumed
        .resume(
            checkpoint.reply_id(),
            vec![ToolConfirmation::approve("call-confirm-4")],
        )
        .unwrap();

    assert_eq!(reply.text_content(""), Some("finished".to_owned()));
    assert_eq!(resumed.invocations.len(), 1);
    let saved = store.borrow().inner.load(&key).unwrap();
    assert_eq!(saved.revision(), 2);
    assert!(saved.state().pending_tool_calls().is_none());
}

#[test]
fn react_agent_runs_lifecycle_hooks_in_registration_order() {
    let model = MockChatModel::new("mock-model")
        .with_response(calls("call-hook-1", r#"{"expression":"6*7"}"#))
        .with_response(says("42"));
    let recorded = Rc::new(RefCell::new(Vec::new()));
    let mut rig = Rig::new(friday_with_calculator(), model);
    rig.hooks.push(ordered_hook("first", &recorded));
    rig.hooks.push(ordered_hook("second", &recorded));

    let reply = rig.reply(Msg::user("What is 6 * 7?")).unwrap();

    assert_eq!(reply.text_content(""), Some("42".to_owned()));
    assert_eq!(
        *recorded.borrow(),
        [
            "first:before_reply",
            "second:before_reply",
            "first:before_model_call",
            "second:before_model_call",
            "first:after_model_call",
            "second:after_model_call",
            "first:before_tool_call",
            "second:before_tool_call",
            "first:after_tool_call",
            "second:after_tool_call",
            "first:before_model_call",
            "second:before_model_call",
            "first:after_model_call",
            "second:after_model_call",
            "first:after_reply",
            "second:after_reply",
        ]
    );
}

#[test]
fn react_agent_uses_memory_across_replies() {
    let model = MockChatModel::new("mock-model")
        .with_response(says("I will remember that your favorite color is green."))
        .with_response(says("Your favorite color is green."));
    let mut rig = Rig::new(friday().with_memory(), model).with_memory(InMemoryMemory::new());

    rig.reply(Msg::user("My favorite color is green.")).unwrap();
    let reply = rig.reply(Msg::user("What is my favorite color?")).unwrap();

    assert_eq!(
        reply.text_content(""),
        Some("Your favorite color is green.".to_owned())
    );
    let requests = rig.model.recorded_requests();
    assert_eq!(requests.len(), 2);
    assert_eq!(requests[0].messages.len(), 1);
    assert_eq!(requests[1].messages.len(), 3);
    assert_eq!(
        requests[1].messages[0].text_content(""),
        Some("My favorite color is green.".to_owned())
    );
    assert_eq!(
        requests[1].messages[1].text_content(""),
        Some("I will remember that your favorite color is green.".to_owned())
    );
    assert_eq!(rig.messages().len(), 4);
}

#[test]
fn react_agent_observes_external_messages_without_calling_the_model() {
    let model = MockChatModel::new("mock-model").with_response(says("I used the observation."));
    let recorded = Rc::new(RefCell::new(Vec::new()));
    let mut rig = Rig::new(friday().with_memory(), model).with_memory(InMemoryMemory::new());
    rig.hooks.push(ordered_hook("first", &recorded));
    rig.hooks.push(ordered_hook("second", &recorded));
    let observation = Msg::assistant("planner", "Use the verified result 42.");

    rig.observe(observation.clone()).unwrap();

    assert!(rig.model.recorded_requests().is_empty());
    assert_eq!(rig.messages(), [observation.clone()]);
    assert_eq!(
        *recorded.borrow(),
        [
            "first:before_observe",
            "second:before_observe",
            "first:after_observe",
            "second:after_observe",
        ]
    );

    let reply = rig.reply(Msg::user("What result should I use?")).unwrap();
    assert_eq!(
        reply.text_content(""),
        Some("I used the observation.".to_owned())
    );
    let requests = rig.model.recorded_requests();
    assert_eq!(requests.len(), 1);
    assert_eq!(requests[0].messages.len(), 2);
    assert_eq!(requests[0].messages[0], observation);
    assert_eq!(requests[0].messages[1].role, Role::User);
}

#[test]
fn react_agent_rejects_observation_without_memory() {
    let mut rig = Rig::new(friday(), MockChatModel::new("mock-model"));

    let error = rig
        .observe(Msg::assistant("planner", "Remember this."))
        .unwrap_err();

    assert_eq!(error, AgentError::MemoryNotConfigured);
    assert!(rig.model.recorded_requests().is_empty());
}

#[test]
fn requests_of_one_reply_share_their_system_message() {
    for (streaming, budgeted) in [(false, false), (true, false), (false, true), (true, true)] {
        let model = MockChatModel::new("mock")
            .with_response(calls("call-stream-1", r#"{"expression":"6*7"}"#))
            .with_response(says("42"))
            .with_response(says("again"))
            .with_stream(calculator_call_stream())
            .with_stream(final_answer_stream())
            .with_stream(final_answer_stream());
        let mut rig = Rig::new(friday_with_calculator().with_system_prompt("Be precise"), model);
        if budgeted {
            rig = rig.with_budget(1000, 20, budget_counting());
        }
        for text in ["first", "second"] {
            if streaming {
                rig.stream(Msg::user(text)).unwrap();
            } else {
                rig.reply(Msg::user(text)).unwrap();
            }
        }
        let leads: Vec<Msg> = rig
            .model
            .recorded_requests()
            .iter()
            .map(|request| request.messages[0].clone())
            .collect();
        assert_eq!(leads.len(), 3);
        assert_eq!(leads[0].text_content(""), Some("Be precise".into()));
        assert_eq!(leads[0], leads[1]);
        assert_ne!(leads[1].id, leads[2].id);
    }
}

#[test]
fn refused_snapshots_change_nothing_and_older_formats_are_renewed() {
    let mut rig = Rig::new(friday().with_memory(), MockChatModel::new("mock"))
        .with_memory(InMemoryMemory::from_messages(vec![Msg::user("kept")]));
    let before = rig.snapshot().unwrap();
    let state = |version: u32, name: &str| {
        AgentState::from_parts(
            version,
            name.to_owned(),
            vec![Msg::user("other")],
            None,
            None,
            None,
        )
    };
    for (version, name) in [
        (0, "Friday"),
        (AGENT_STATE_VERSION + 1, "Friday"),
        (0, "Saturday"),
        (AGENT_STATE_VERSION, "Saturday"),
    ] {
        let error = rig.restore(state(version, name)).unwrap_err();
        if version == AGENT_STATE_VERSION {
            assert!(matches!(error, AgentError::StateAgentMismatch { .. }));
        } else {
            assert_eq!(
                error,
                AgentError::UnsupportedStateVersion {
                    found: version,
                    supported: AGENT_STATE_VERSION
                }
            );
        }
        assert_eq!(rig.snapshot().unwrap(), before);
    }
    rig.restore(state(1, "Friday")).unwrap();
    let after = rig.snapshot().unwrap();
    assert_eq!(after.format_version(), AGENT_STATE_VERSION);
    assert_eq!(after.messages()[0].text_content(""), Some("other".into()));
}

#[test]
fn react_agent_snapshots_and_restores_complete_conversation_state() {
    let source = Rig::new(friday().with_memory(), MockChatModel::new("source-model")).with_memory(
        InMemoryMemory::from_messages(vec![
            Msg::system("Be concise."),
            Msg::user("Remember this conversation."),
        ]),
    );
    let mut target = Rig::new(friday().with_memory(), MockChatModel::new("target-model"))
        .with_memory(InMemoryMemory::from_messages(vec![Msg::user("replace me")]));

    let snapshot = source.snapshot().unwrap();
    target.restore(snapshot.clone()).unwrap();

    assert_eq!(snapshot.format_version(), AGENT_STATE_VERSION);
    assert_eq!(snapshot.agent_name(), "Friday");
    assert_eq!(target.snapshot().unwrap(), snapshot);
    assert_eq!(target.messages().len(), 2);
}

#[test]
fn react_agent_rejects_incompatible_state_without_changing_memory() {
    let original = vec![Msg::user("keep me")];
    let mut rig = Rig::new(friday().with_memory(), MockChatModel::new("mock-model"))
        .with_memory(InMemoryMemory::from_messages(original.clone()));

    let mismatch = rig
        .restore(AgentState::new("Saturday", Vec::new()))
        .unwrap_err();
    assert_eq!(
        mismatch,
        AgentError::StateAgentMismatch {
            expected: "Friday".to_owned(),
            found: "Saturday".to_owned(),
        }
    );
    let future_state = AgentState::from_parts(
        AGENT_STATE_VERSION + 1,
        "Friday".to_owned(),
        Vec::new(),
        None,
        None,
        None,
    );
    let unsupported = rig.restore(future_state).unwrap_err();
    assert_eq!(
        unsupported,
        AgentError::UnsupportedStateVersion {
            found: AGENT_STATE_VERSION + 1,
            supported: AGENT_STATE_VERSION,
        }
    );
    assert_eq!(rig.messages(), original);
}

#[test]
fn react_agent_requires_memory_for_state_operations() {
    let mut rig = Rig::new(friday(), MockChatModel::new("mock-model"));

    assert_eq!(
        rig.snapshot().unwrap_err(),
        AgentError::MemoryNotConfigured
    );
    assert_eq!(
        rig.restore(AgentState::new("Friday", Vec::new()))
            .unwrap_err(),
        AgentError::MemoryNotConfigured
    );
}

#[test]
fn react_agent_restores_legacy_version_one_state() {
    let message = Msg::user("legacy history");
    let legacy = AgentState::from_parts(
        1,
        "Friday".to_owned(),
        vec![message.clone()],
        None,
        None,
        None,
    );
    let mut rig = Rig::new(friday().with_memory(), MockChatModel::new("mock-model"))
        .with_memory(InMemoryMemory::new());

    rig.restore(legacy).unwrap();

    assert_eq!(rig.messages(), [message]);
}

#[test]
fn agent_state_operations_are_object_safe() {
    let mut rig = Rig::new(friday().with_memory(), MockChatModel::new("mock-model"))
        .with_memory(InMemoryMemory::from_messages(vec![Msg::user("Hello")]));

    let state = rig.snapshot().unwrap();
    rig.restore(state.clone()).unwrap();

    assert_eq!(rig.snapshot().unwrap(), state);
}

#[test]
fn react_agent_automatically_restores_and_saves_a_bound_session() {
    let key = StateKey::new("user-1", "session-1").unwrap();
    let store = Rc::new(RefCell::new(Store::default()));
    let mut first = Rig::new(
        friday().with_memory(),
        MockChatModel::new("first-model").with_response(says("First reply")),
    )
    .with_memory(InMemoryMemory::new())
    .with_store(key.clone(), store.clone());

    first.reply(Msg::user("First question")).unwrap();
    let first_record = store.borrow().inner.load(&key).unwrap();
    assert_eq!(first_record.revision(), 1);
    assert_eq!(first_record.state().messages().len(), 2);

    let mut second = Rig::new(
        friday().with_memory(),
        MockChatModel::new("second-model").with_response(says("Second reply")),
    )
    .with_memory(InMemoryMemory::new())
    .with_store(key.clone(), store.clone());
    second.reply(Msg::user("Second question")).unwrap();

    let requests = second.model.recorded_requests();
    assert_eq!(requests[0].messages.len(), 3);
    assert_eq!(
        requests[0].messages[0].text_content(""),
        Some("First question".to_owned())
    );
    let second_record = store.borrow().inner.load(&key).unwrap();
    assert_eq!(second_record.revision(), 2);
    assert_eq!(second_record.state().messages().len(), 4);
}

#[test]
fn react_agent_automatically_persists_observations() {
    let key = StateKey::new("user-1", "observations").unwrap();
    let store = Rc::new(RefCell::new(Store::default()));
    let mut rig = Rig::new(friday().with_memory(), MockChatModel::new("mock-model"))
        .with_memory(InMemoryMemory::new())
        .with_store(key.clone(), store.clone());

    rig.observe(Msg::assistant("planner", "Use exact arithmetic."))
        .unwrap();

    let record = store.borrow().inner.load(&key).unwrap();
    assert_eq!(record.revision(), 1);
    assert_eq!(record.state().messages().len(), 1);
}

#[test]
fn independent_agents_report_concurrent_state_conflicts() {
    let key = StateKey::new("user-1", "concurrent").unwrap();
    let store = Rc::new(RefCell::new(Store::default()));
    let rig = || {
        Rig::new(
            friday().with_memory(),
            MockChatModel::new("model").with_response(says("done")),
        )
        .with_memory(InMemoryMemory::new())
        .with_store(key.clone(), store.clone())
    };
    let mut first = rig();
    let mut second = rig();
    first.begin().unwrap();
    second.begin().unwrap();
    for (rig, text) in [(&mut first, "first"), (&mut second, "second")] {
        let token = rig.signal.borrow().token();
        let reply = Reply::open(Msg::user(text), None, None).unwrap();
        rig.run(reply, &token).unwrap();
    }
    assert_eq!(first.persist(), Ok(()));
    let conflict = second.persist().unwrap_err();
    assert!(matches!(
        conflict,
        AgentError::StateStore(error)
            if error.code.as_deref() == Some("revision_conflict") && error.retryable
    ));
    let record = store.borrow().inner.load(&key).unwrap();
    assert_eq!(record.revision(), 1);
    assert_eq!(record.state().messages().len(), 2);
}

#[test]
fn react_agent_persists_state_before_yielding_the_terminal_event() {
    let key = StateKey::new("user-1", "stream").unwrap();
    let store = Rc::new(RefCell::new(Store::default()));
    let mut rig = Rig::new(
        friday().with_memory(),
        MockChatModel::new("mock-model").with_stream(final_answer_stream()),
    )
    .with_memory(InMemoryMemory::new())
    .with_store(key.clone(), store.clone());

    let events = rig.stream(Msg::user("Stream a reply")).unwrap();
    assert!(matches!(events.last(), Some(AgentEvent::Finished { .. })));

    let record = store.borrow().inner.load(&key).unwrap();
    assert_eq!(record.revision(), 1);
    assert_eq!(record.state().messages().len(), 2);
}

#[test]
fn state_store_binding_requires_conversation_memory() {
    let key = StateKey::new("user-1", "session-1").unwrap();
    let mut rig = Rig::new(friday(), MockChatModel::new("mock-model"))
        .with_store(key, Rc::new(RefCell::new(Store::default())));

    let error = rig.reply(Msg::user("Hello")).unwrap_err();

    assert_eq!(error, AgentError::MemoryNotConfigured);
}

#[test]
fn react_agent_is_object_safe() {
    let model = MockChatModel::new("mock-model")
        .with_response(says("Hello from the agent."))
        .with_stream(vec![
            Ok(ChatEvent::TextDelta {
                block_id: "text-1".to_owned(),
                delta: "Streamed hello.".to_owned(),
            }),
            Ok(ChatEvent::Finished {
                reason: FinishReason::Completed,
            }),
        ]);
    let mut rig = Rig::new(friday(), model);

    let reply = rig.reply(Msg::user("Hello")).unwrap();

    assert_eq!(rig.agent.name(), "Friday");
    assert_eq!(
        reply.text_content(""),
        Some("Hello from the agent.".to_owned())
    );

    let events = rig.stream(Msg::user("Hello again")).unwrap();
    assert!(matches!(
        events.last().unwrap(),
        AgentEvent::Finished { steps: 1, .. }
    ));
    assert_eq!(
        rig.resume("missing", Vec::new()).unwrap_err(),
        AgentError::NoPendingToolConfirmation
    );
}

#[test]
fn react_agent_streams_a_complete_model_tool_model_loop() {
    let model = MockChatModel::new("mock-model")
        .with_stream(calculator_call_stream())
        .with_stream(final_answer_stream());
    let mut rig = Rig::new(friday_with_calculator().with_memory(), model)
        .with_memory(InMemoryMemory::new());

    let events = rig.stream(Msg::user("What is 6 * 7?")).unwrap();

    assert_eq!(events.len(), 11);
    assert!(matches!(
        events[0],
        AgentEvent::ToolCallDelta { step: 1, .. }
    ));
    assert!(matches!(
        events[1],
        AgentEvent::ToolCallDelta { step: 1, .. }
    ));
    assert!(matches!(events[2], AgentEvent::Usage { step: 1, .. }));
    assert!(matches!(
        events[3],
        AgentEvent::StepFinished {
            step: 1,
            reason: FinishReason::ToolCalls
        }
    ));
    assert!(matches!(events[4], AgentEvent::ToolStarted { step: 1, .. }));
    assert!(matches!(
        events[5],
        AgentEvent::ToolFinished { step: 1, .. }
    ));
    assert!(matches!(events[6], AgentEvent::TextDelta { step: 2, .. }));
    assert!(matches!(events[7], AgentEvent::TextDelta { step: 2, .. }));
    assert!(matches!(events[8], AgentEvent::Usage { step: 2, .. }));
    assert!(matches!(
        events[9],
        AgentEvent::StepFinished {
            step: 2,
            reason: FinishReason::Completed
        }
    ));
    let AgentEvent::Finished { steps, message } = &events[10] else {
        panic!("the stream should end with the final message")
    };
    assert_eq!(*steps, 2);
    assert_eq!(
        message.text_content(""),
        Some("The answer is 42.".to_owned())
    );
    assert_eq!(message.usage, Some(Usage::new(18, 6)));
    assert_eq!(rig.invocations.len(), 1);
    assert_eq!(rig.model.recorded_requests().len(), 2);
    assert_eq!(rig.model.recorded_requests()[1].messages.len(), 3);
    assert_eq!(rig.messages().len(), 4);
}

#[test]
fn react_agent_stream_emits_and_persists_a_confirmation_checkpoint() {
    let key = StateKey::new("user-1", "hitl-stream").unwrap();
    let store = Rc::new(RefCell::new(Store::default()));
    let mut rig = Rig::new(
        friday_with_calculator()
            .with_memory()
            .with_tool_confirmation_required("calculator"),
        MockChatModel::new("mock-model").with_stream(calculator_call_stream()),
    )
    .with_memory(InMemoryMemory::new())
    .with_store(key.clone(), store.clone());

    let events = rig.stream(Msg::user("What is 6 * 7?")).unwrap();
    let Some(AgentEvent::ToolConfirmationRequired { checkpoint }) = events.last() else {
        panic!("the stream should end with the checkpoint")
    };

    assert_eq!(checkpoint.calls()[0].id(), "call-stream-1");
    assert!(rig.invocations.is_empty());
    let saved = store.borrow().inner.load(&key).unwrap();
    assert_eq!(saved.revision(), 1);
    assert_eq!(saved.state().pending_tool_calls(), Some(checkpoint));
}

#[test]
fn react_agent_stream_does_not_persist_partial_model_output() {
    let model = MockChatModel::new("mock-model").with_stream(vec![
        Ok(ChatEvent::TextDelta {
            block_id: "text-1".to_owned(),
            delta: "partial".to_owned(),
        }),
        Err(ModelError::new("connection lost")
            .with_code("transport")
            .with_retryable(true)),
    ]);
    let mut rig = Rig::new(friday().with_memory(), model).with_memory(InMemoryMemory::new());

    let events = rig.stream(Msg::user("Hello")).unwrap();

    assert_eq!(events.len(), 2);
    assert!(matches!(events[0], AgentEvent::TextDelta { .. }));
    assert!(matches!(
        &events[1],
        AgentEvent::Error {
            step: Some(1),
            error: AgentError::Model(error),
        } if error.code.as_deref() == Some("transport") && error.retryable
    ));
    let remembered = rig.messages();
    assert_eq!(remembered.len(), 1);
    assert_eq!(remembered[0].role, Role::User);
}

#[test]
fn react_agent_stream_converts_start_failures_to_terminal_events() {
    let model = MockChatModel::new("mock-model").with_stream_error(
        ModelError::new("provider unavailable")
            .with_code("unavailable")
            .with_retryable(true),
    );
    let mut rig = Rig::new(friday(), model);

    let events = rig.stream(Msg::user("Hello")).unwrap();

    assert_eq!(events.len(), 1);
    assert!(matches!(
        &events[0],
        AgentEvent::Error {
            step: Some(1),
            error: AgentError::Model(error),
        } if error.code.as_deref() == Some("unavailable") && error.retryable
    ));
}

#[test]
fn unfinished_model_streams_are_invalid_responses() {
    let model = MockChatModel::new("mock-model").with_stream(vec![]);
    let mut rig = Rig::new(friday(), model);
    let events = rig.stream(Msg::user("Hello")).unwrap();
    assert!(matches!(
        &events[..],
        [AgentEvent::Error {
            step: Some(1),
            error: AgentError::InvalidModelResponse(_)
        }]
    ));
}

#[test]
fn react_agent_interrupts_an_inflight_model_stream() {
    let model = MockChatModel::new("mock-model").with_stream(final_answer_stream());
    let mut rig = Rig::new(friday().with_memory(), model).with_memory(InMemoryMemory::new());
    rig.interrupt_model = true;

    let events = rig.stream(Msg::user("Start a long response")).unwrap();

    assert_eq!(events.len(), 1);
    assert!(matches!(
        events[0],
        AgentEvent::Error {
            step: Some(1),
            error: AgentError::Interrupted
        }
    ));
    assert_eq!(rig.model.recorded_requests().len(), 1);
    let remembered = rig.messages();
    assert_eq!(remembered.len(), 1);
    assert_eq!(remembered[0].role, Role::User);
}

#[test]
fn react_agent_interrupts_an_inflight_complete_model_call() {
    let model = MockChatModel::new("mock-model").with_response(says("never used"));
    let mut rig = Rig::new(friday().with_memory(), model).with_memory(InMemoryMemory::new());
    rig.interrupt_model = true;

    let error = rig.reply(Msg::user("Start a long response")).unwrap_err();

    assert_eq!(error, AgentError::Interrupted);
    assert_eq!(rig.model.recorded_requests().len(), 1);
    let remembered = rig.messages();
    assert_eq!(remembered.len(), 1);
    assert_eq!(remembered[0].role, Role::User);
}

#[test]
fn react_agent_closes_interrupted_tool_calls_in_memory() {
    let mut rig = Rig::new(
        friday_with_calculator().with_memory(),
        MockChatModel::new("mock-model").with_stream(calculator_call_stream()),
    )
    .with_memory(InMemoryMemory::new());
    rig.interrupt_tool = true;

    let events = rig.stream(Msg::user("What is 6 * 7?")).unwrap();

    assert!(events.iter().any(|event| matches!(
        event,
        AgentEvent::ToolFinished { result, .. }
            if result.state() == ToolResultState::Interrupted
    )));
    assert!(matches!(
        events.last().unwrap(),
        AgentEvent::Error {
            step: Some(1),
            error: AgentError::Interrupted
        }
    ));
    assert_eq!(rig.invocations.len(), 1);
    let remembered = rig.messages();
    assert_eq!(remembered.len(), 3);
    let ContentBlock::ToolResult(result) = &remembered[2].content[0] else {
        panic!("interruption should persist a closing tool result")
    };
    assert_eq!(result.state(), ToolResultState::Interrupted);
}

#[test]
fn react_agent_stream_stops_before_unobservable_tool_execution() {
    let model = MockChatModel::new("mock-model").with_stream(calculator_call_stream());
    let agent = friday_with_calculator().with_max_steps(1).unwrap();
    let mut rig = Rig::new(agent, model);

    let events = rig.stream(Msg::user("What is 6 * 7?")).unwrap();

    assert!(matches!(
        events.last().unwrap(),
        AgentEvent::Error {
            step: Some(1),
            error: AgentError::MaxStepsExceeded { max_steps: 1 }
        }
    ));
    assert!(!events.iter().any(|event| matches!(
        event,
        AgentEvent::ToolStarted { .. } | AgentEvent::ToolFinished { .. }
    )));
    assert!(rig.invocations.is_empty());
}

#[test]
fn react_agent_stream_converts_hook_failures_to_terminal_events() {
    let model = MockChatModel::new("mock-model").with_stream(calculator_call_stream());
    let mut rig = Rig::new(friday_with_calculator().with_memory(), model)
        .with_memory(InMemoryMemory::new());
    rig.hooks.push(Box::new(|event| {
        if matches!(event, AgentHookEvent::BeforeToolCall { .. }) {
            Err(AgentHookError::new("tool observation rejected").with_code("hook_rejected"))
        } else {
            Ok(())
        }
    }));

    let events = rig.stream(Msg::user("What is 6 * 7?")).unwrap();

    assert!(matches!(
        events.last().unwrap(),
        AgentEvent::Error {
            step: Some(1),
            error: AgentError::Hook(error),
        } if error.code.as_deref() == Some("hook_rejected")
    ));
    assert!(!events
        .iter()
        .any(|event| matches!(event, AgentEvent::ToolStarted { .. })));
    assert!(rig.invocations.is_empty());
    let remembered = rig.messages();
    assert_eq!(remembered.len(), 1);
    assert_eq!(remembered[0].role, Role::User);
}

#[test]
fn react_agent_stops_before_executing_unobservable_tool_calls() {
    let model =
        MockChatModel::new("mock-model").with_response(calls("call-2", r#"{"expression":"1+1"}"#));
    let agent = friday_with_calculator().with_max_steps(1).unwrap();
    let mut rig = Rig::new(agent, model);

    let error = rig.reply(Msg::user("What is 1 + 1?")).unwrap_err();

    assert!(matches!(
        error,
        AgentError::MaxStepsExceeded { max_steps: 1 }
    ));
    assert!(rig.invocations.is_empty());
    assert_eq!(rig.model.recorded_requests().len(), 1);
}

#[test]
fn react_agent_rejects_invalid_configuration_and_partial_responses() {
    assert!(matches!(ReActAgent::new("  "), Err(AgentError::EmptyName)));
    assert!(matches!(
        friday().with_max_steps(0),
        Err(AgentError::ZeroMaxSteps)
    ));

    let mut rig = Rig::new(
        friday(),
        MockChatModel::new("mock-model")
            .with_response(ChatResponse::partial(vec![ContentBlock::from("partial")])),
    );
    let partial = rig.reply(Msg::user("Hello")).unwrap_err();
    assert_eq!(
        partial,
        AgentError::InvalidModelResponse(
            "complete generation returned a partial response".to_owned()
        )
    );

    let mut rig = Rig::new(
        friday(),
        MockChatModel::new("mock-model").with_response(ChatResponse::finished(
            vec![ContentBlock::from("no calls")],
            FinishReason::ToolCalls,
        )),
    );
    assert_eq!(
        rig.reply(Msg::user("Hello")).unwrap_err(),
        AgentError::InvalidModelResponse(
            "finish reason requested tools, but no tool calls were present".to_owned()
        )
    );
}

/// An agent that waits for the confirmation of one call, with its store.
fn recovery_fixture() -> (Rig, PendingToolCalls, Rc<RefCell<Store>>, StateKey) {
    let model = MockChatModel::new("mock")
        .with_response(calls("call", r#"{"expression":"6*7"}"#))
        .with_stream(vec![
            Ok(ChatEvent::TextDelta {
                block_id: "text".into(),
                delta: "4".into(),
            }),
            Ok(ChatEvent::TextDelta {
                block_id: "text".into(),
                delta: "2".into(),
            }),
            Ok(ChatEvent::Finished {
                reason: FinishReason::Completed,
            }),
        ]);
    let key = StateKey::new("user", "stream-recovery").unwrap();
    let store = Rc::new(RefCell::new(Store::default()));
    let mut rig = Rig::new(
        friday_with_calculator()
            .with_memory()
            .with_tool_confirmation_required("calculator"),
        model,
    )
    .with_memory(InMemoryMemory::new())
    .with_store(key.clone(), store.clone());
    let pending = checkpoint_of(rig.reply(Msg::user("calculate")).unwrap_err());
    (rig, pending, store, key)
}

fn approve(id: &str) -> RecoveryKind {
    RecoveryKind::Confirm(vec![ToolConfirmation::approve(id)])
}

#[test]
fn approval_stream_is_lazy_and_saves_tools_and_final_reply_before_events() {
    let (mut rig, pending, store, key) = recovery_fixture();
    rig.stop_before_tools = true;
    assert!(rig.recover(pending.reply_id(), approve("call")).is_err());
    let stored = store.borrow().inner.load(&key).unwrap();
    assert!(stored.state().pending_tool_calls().is_none());
    assert!(stored.state().pending_tool_execution().is_some());

    let (mut rig, pending, store, key) = recovery_fixture();
    let observed = Rc::new(RefCell::new(Vec::new()));
    let (seen, seen_store, seen_key) = (observed.clone(), store.clone(), key.clone());
    rig.hooks.push(Box::new(move |event| {
        if matches!(event, AgentHookEvent::AfterToolCall { .. }) {
            let stored = seen_store.borrow().inner.load(&seen_key).unwrap();
            seen.borrow_mut().push((
                stored.state().messages().len(),
                stored.state().pending_tool_execution().is_none(),
            ));
        }
        Ok(())
    }));
    let events = rig.recover(pending.reply_id(), approve("call")).unwrap();
    assert_eq!(*observed.borrow(), [(3, true)]);
    assert!(matches!(events[0], AgentEvent::ToolStarted { step: 1, .. }));
    assert!(matches!(
        events[1],
        AgentEvent::ToolFinished { step: 1, .. }
    ));
    assert!(
        matches!(&events[2], AgentEvent::TextDelta { step: 2, delta, .. } if delta == "4")
    );
    assert!(
        matches!(&events[3], AgentEvent::TextDelta { step: 2, delta, .. } if delta == "2")
    );
    assert!(matches!(
        events[4],
        AgentEvent::StepFinished { step: 2, .. }
    ));
    let AgentEvent::Finished { steps, message } = &events[5] else {
        panic!("expected final reply")
    };
    assert_eq!(*steps, 2);
    let stored = store.borrow().inner.load(&key).unwrap();
    assert_eq!(stored.state().messages().last(), Some(message));
    assert_eq!(events.len(), 6);
    assert_eq!(rig.invocations.len(), 1);
}

#[test]
fn denial_and_invalid_confirmation_do_not_execute_tools() {
    let (mut rig, pending, _, _) = recovery_fixture();
    assert!(matches!(
        rig.recover("wrong", RecoveryKind::Confirm(vec![])),
        Err(AgentError::InvalidToolConfirmation(_))
    ));
    assert!(matches!(
        rig.recover(pending.reply_id(), RecoveryKind::Confirm(vec![])),
        Err(AgentError::InvalidToolConfirmation(_))
    ));
    let events = rig
        .recover(
            pending.reply_id(),
            RecoveryKind::Confirm(vec![ToolConfirmation::deny("call", "denied")]),
        )
        .unwrap();
    assert!(
        matches!(&events[0], AgentEvent::ToolFinished { result, .. } if result.state() == ToolResultState::Denied)
    );
    assert!(matches!(
        events.last(),
        Some(AgentEvent::Finished { steps: 2, .. })
    ));
    assert!(rig.invocations.is_empty());
}

fn leave_execution_pending(
    rig: &mut Rig,
    pending: &PendingToolCalls,
    store: &Rc<RefCell<Store>>,
    key: &StateKey,
) -> PendingToolExecution {
    rig.stop_before_tools = true;
    assert!(rig.recover(pending.reply_id(), approve("call")).is_err());
    rig.stop_before_tools = false;
    let stored = store.borrow().inner.load(key).unwrap();
    stored.state().pending_tool_execution().unwrap().clone()
}

#[test]
fn dropped_execution_stream_retries_with_original_key() {
    let (mut rig, pending, store, key) = recovery_fixture();
    let execution = leave_execution_pending(&mut rig, &pending, &store, &key);
    assert!(matches!(
        rig.reply(Msg::user("meanwhile")),
        Err(AgentError::ToolExecutionInDoubt { .. })
    ));
    let events = rig
        .recover(pending.reply_id(), RecoveryKind::Retry)
        .unwrap();
    assert!(matches!(
        events.last(),
        Some(AgentEvent::Finished { steps: 2, .. })
    ));
    assert_eq!(rig.invocations.len(), 1);
    assert_eq!(rig.invocations[0].1, execution.idempotency_key("call"));
    assert_eq!(
        rig.invocations[0].1,
        Some(format!("{}:call", execution.execution_id()))
    );
}

#[test]
fn verified_results_stream_without_executing_tools() {
    let (mut rig, pending, store, key) = recovery_fixture();
    leave_execution_pending(&mut rig, &pending, &store, &key);
    assert!(matches!(
        rig.recover(pending.reply_id(), RecoveryKind::Resolve(vec![])),
        Err(AgentError::InvalidToolExecutionResolution(_))
    ));
    let result =
        ToolResultBlock::success("call", "calculator", ToolResultOutput::from("42")).unwrap();
    let running = ToolResultBlock::running("call", "calculator").unwrap();
    let other = ToolResultBlock::success("call", "other", ToolResultOutput::from("42")).unwrap();
    for invalid in [
        vec![running],
        vec![other],
        vec![result.clone(), result.clone()],
    ] {
        assert!(matches!(
            rig.recover(pending.reply_id(), RecoveryKind::Resolve(invalid)),
            Err(AgentError::InvalidToolExecutionResolution(_))
        ));
    }
    let events = rig
        .recover(pending.reply_id(), RecoveryKind::Resolve(vec![result]))
        .unwrap();
    assert!(matches!(&events[0], AgentEvent::ToolFinished { .. }));
    assert!(matches!(events.last(), Some(AgentEvent::Finished { .. })));
    assert!(rig.invocations.is_empty());
}

#[test]
fn dropping_model_continuation_preserves_results_but_not_partial_text() {
    let (mut rig, pending, _, _) = recovery_fixture();
    rig.interrupt_model = true;
    rig.recover(pending.reply_id(), approve("call")).unwrap();
    let state = rig.snapshot().unwrap();
    assert_eq!(state.messages().len(), 3);
    assert!(state.pending_tool_execution().is_none());
    assert!(matches!(
        &state.messages()[2].content[0],
        ContentBlock::ToolResult(_)
    ));
}

#[test]
fn interrupted_stream_keeps_a_restorable_execution_checkpoint() {
    let (mut rig, pending, _, _) = recovery_fixture();
    rig.interrupt_tool = true;
    let events = rig.recover(pending.reply_id(), approve("call")).unwrap();
    assert!(matches!(
        events.last(),
        Some(AgentEvent::Error {
            error: AgentError::ToolExecutionInDoubt { .. },
            ..
        })
    ));
    assert!(!events.iter().any(|event| matches!(
        event,
        AgentEvent::ToolFinished { .. } | AgentEvent::Finished { .. }
    )));
    assert!(rig.snapshot().unwrap().pending_tool_execution().is_some());
    assert_eq!(rig.invocations.len(), 1);
}

#[test]
fn interruption_between_tools_and_model_preserves_saved_results() {
    let (mut rig, pending, _, _) = recovery_fixture();
    let signal = rig.signal.clone();
    rig.hooks.push(Box::new(move |event| {
        if matches!(event, AgentHookEvent::AfterToolCall { .. }) {
            signal.borrow_mut().interrupt();
        }
        Ok(())
    }));
    let events = rig.recover(pending.reply_id(), approve("call")).unwrap();
    assert!(matches!(
        events.last(),
        Some(AgentEvent::Error {
            error: AgentError::Interrupted,
            step: Some(2)
        })
    ));
    assert!(!events
        .iter()
        .any(|event| matches!(event, AgentEvent::TextDelta { .. })));
    assert_eq!(rig.snapshot().unwrap().messages().len(), 3);
}

#[test]
fn subsequent_confirmation_preserves_original_step_budget() {
    let model = MockChatModel::new("mock")
        .with_response(calls("first", r#"{"expression":"1+1"}"#))
        .with_stream(vec![
            Ok(ChatEvent::ToolCallDelta {
                tool_call_id: "second".into(),
                tool_name: "calculator".into(),
                delta: r#"{"expression":"2+2"}"#.into(),
            }),
            Ok(ChatEvent::Finished {
                reason: FinishReason::ToolCalls,
            }),
        ]);
    let agent = friday_with_calculator()
        .with_memory()
        .with_max_steps(3)
        .unwrap()
        .with_tool_confirmation_required("calculator");
    let mut rig = Rig::new(agent, model).with_memory(InMemoryMemory::new());
    let checkpoint = checkpoint_of(rig.reply(Msg::user("compute")).unwrap_err());
    let events = rig
        .recover(checkpoint.reply_id(), approve("first"))
        .unwrap();
    assert!(
        matches!(events.last(), Some(AgentEvent::ToolConfirmationRequired { checkpoint }) if checkpoint.step() == 2)
    );
    assert_eq!(
        rig.snapshot()
            .unwrap()
            .pending_tool_calls()
            .unwrap()
            .step(),
        2
    );
}

#[test]
fn final_save_failure_replaces_success_event() {
    let (mut rig, pending, store, _) = recovery_fixture();
    {
        let mut store = store.borrow_mut();
        store.fail_from = Some(store.writes + 3);
    }
    let events = rig.recover(pending.reply_id(), approve("call")).unwrap();
    assert!(matches!(
        events.last(),
        Some(AgentEvent::Error {
            error: AgentError::StateStore(_),
            ..
        })
    ));
    assert!(!events
        .iter()
        .any(|event| matches!(event, AgentEvent::Finished { .. })));
}

fn uncertain_state() -> AgentState {
    let calls: Vec<ToolCallBlock> = ["approved", "denied"]
        .into_iter()
        .map(|id| {
            let mut call =
                ToolCallBlock::complete(id, "calculator", r#"{"expression":"6*7"}"#).unwrap();
            call.state = ToolCallState::Asking;
            call
        })
        .collect();
    let message = Msg::new(
        "Friday",
        Role::Assistant,
        calls.iter().cloned().map(ContentBlock::from).collect(),
    );
    let checkpoint = PendingToolCalls::new(message.id.clone(), 1, calls);
    AgentState::new("Friday", vec![Msg::user("calculate"), message]).with_pending_tool_execution(
        Some(PendingToolExecution::new(
            "original-execution".to_owned(),
            checkpoint,
            vec![
                ToolConfirmation::approve("approved"),
                ToolConfirmation::deny("denied", "no"),
            ],
        )),
    )
}

#[test]
fn retry_after_restore_reuses_keys_and_preserves_denials_in_both_modes() {
    let state = uncertain_state();
    let execution = state.pending_tool_execution().unwrap().clone();
    let store = Rc::new(RefCell::new(Store::default()));
    let key = StateKey::new("user", "retry").unwrap();
    store
        .borrow_mut()
        .inner
        .save(key.clone(), None, state)
        .unwrap();
    let mut rig = Rig::new(
        friday_with_calculator().with_memory(),
        MockChatModel::new("mock").with_stream(final_answer_stream()),
    )
    .with_memory(InMemoryMemory::new())
    .with_store(key.clone(), store.clone());
    assert!(matches!(
        rig.recover("wrong", RecoveryKind::Retry),
        Err(AgentError::InvalidToolExecutionResolution(_))
    ));
    assert!(rig.invocations.is_empty());
    let reply_id = execution.confirmation().reply_id();
    let events = rig.recover(reply_id, RecoveryKind::Retry).unwrap();
    assert!(matches!(events.last(), Some(AgentEvent::Finished { .. })));
    assert_eq!(rig.invocations.len(), 1);
    assert_eq!(
        rig.invocations[0].1.as_deref(),
        Some("original-execution:approved")
    );
    let saved = store.borrow().inner.load(&key).unwrap();
    assert!(saved.state().pending_tool_execution().is_none());
    let ContentBlock::ToolResult(denial) = &saved.state().messages()[2].content[1] else {
        panic!("missing denied result")
    };
    assert_eq!(denial.state(), ToolResultState::Denied);
    assert_eq!(
        rig.recover(reply_id, RecoveryKind::Retry).unwrap_err(),
        AgentError::NoPendingToolExecution
    );
}

#[test]
fn interrupted_retry_preserves_the_original_checkpoint() {
    let state = uncertain_state();
    let execution = state.pending_tool_execution().unwrap().clone();
    let mut rig = Rig::new(
        friday_with_calculator().with_memory(),
        MockChatModel::new("mock"),
    )
    .with_memory(InMemoryMemory::new());
    rig.interrupt_tool = true;
    rig.restore(state).unwrap();
    let events = rig
        .recover(execution.confirmation().reply_id(), RecoveryKind::Retry)
        .unwrap();
    assert_eq!(
        events.last(),
        Some(&AgentEvent::Error {
            step: Some(1),
            error: AgentError::ToolExecutionInDoubt {
                checkpoint: execution.clone()
            }
        })
    );
    assert_eq!(
        rig.snapshot().unwrap().pending_tool_execution(),
        Some(&execution)
    );
    assert_eq!(rig.invocations.len(), 1);
}

#[test]
fn retry_does_not_execute_when_checkpoint_save_fails() {
    let state = uncertain_state();
    let execution = state.pending_tool_execution().unwrap().clone();
    let key = StateKey::new("user", "retry").unwrap();
    let store = Rc::new(RefCell::new(Store::default()));
    store
        .borrow_mut()
        .inner
        .save(key.clone(), None, state)
        .unwrap();
    store.borrow_mut().fail_from = Some(1);
    let mut rig = Rig::new(
        friday_with_calculator().with_memory(),
        MockChatModel::new("mock"),
    )
    .with_memory(InMemoryMemory::new())
    .with_store(key, store);
    let events = rig
        .recover(execution.confirmation().reply_id(), RecoveryKind::Retry)
        .unwrap();
    assert!(matches!(
        events.last(),
        Some(AgentEvent::Error {
            error: AgentError::StateStore(_),
            ..
        })
    ));
    assert!(rig.invocations.is_empty());
}

fn old_history() -> Vec<Msg> {
    vec![
        Msg::user("old question"),
        Msg::assistant("Friday", "old answer"),
    ]
}

fn is_old(message: &Msg) -> bool {
    message
        .text_content("")
        .is_some_and(|text| text.starts_with("old"))
}

fn budget_counting() -> Counting {
    Rc::new(|request: &ChatRequest| {
        let messages = request.messages.iter();
        messages
            .map(|message| if is_old(message) { 100 } else { 10 })
            .sum::<u64>()
            + request.tools.len() as u64 * 20
    })
}

#[test]
fn normal_and_streaming_loops_trim_every_request_but_keep_memory() {
    for (streaming, budgeted) in [(false, false), (true, false), (false, true), (true, true)] {
        let model = MockChatModel::new("mock")
            .with_response(calls("call-stream-1", r#"{"expression":"6*7"}"#))
            .with_response(says("42"))
            .with_stream(calculator_call_stream())
            .with_stream(final_answer_stream());
        let mut rig = Rig::new(
            friday_with_calculator()
                .with_memory()
                .with_system_prompt("Be precise"),
            model,
        )
        .with_memory(InMemoryMemory::from_messages(old_history()));
        if budgeted {
            rig = rig.with_budget(80, 20, budget_counting());
        } else {
            rig.policy = Some(Box::new(RecentTurns::new(1).unwrap()));
        }
        if streaming {
            let events = rig.stream(Msg::user("current")).unwrap();
            assert!(matches!(events.last(), Some(AgentEvent::Finished { .. })));
        } else {
            rig.reply(Msg::user("current")).unwrap();
        }
        let requests = rig.model.recorded_requests();
        assert_eq!(requests.len(), 2);
        assert_eq!(requests[0].messages.len(), 2);
        assert_eq!(requests[1].messages.len(), 4);
        for request in &requests {
            assert_eq!(request.messages[0].role, Role::System);
            assert_eq!(
                request.messages[0].text_content(""),
                Some("Be precise".into())
            );
            assert_eq!(request.messages[1].text_content(""), Some("current".into()));
            assert_eq!(request.tools.len(), 1);
        }
        assert!(matches!(
            requests[1].messages[2].content[0],
            ContentBlock::ToolCall(_)
        ));
        assert!(matches!(
            requests[1].messages[3].content[0],
            ContentBlock::ToolResult(_)
        ));
        assert_eq!(
            requests[0].options.max_tokens,
            if budgeted { Some(20) } else { None }
        );
        let history = rig.messages();
        assert_eq!(history.len(), 6);
        assert_eq!(history[0].text_content(""), Some("old question".into()));
        assert_eq!(rig.invocations.len(), 1);
    }
}

#[test]
fn all_recovery_paths_apply_policy_after_reloading_full_state() {
    for budgeted in [false, true] {
        for mode in 0..3 {
            let store = Rc::new(RefCell::new(Store::default()));
            let key = StateKey::new("user", "context").unwrap();
            let build = |memory: InMemoryMemory, model: MockChatModel| {
                let mut rig = Rig::new(
                    friday_with_calculator()
                        .with_memory()
                        .with_system_prompt("Be precise")
                        .with_tool_confirmation_required("calculator"),
                    model,
                )
                .with_memory(memory)
                .with_store(key.clone(), store.clone());
                if budgeted {
                    rig = rig.with_budget(80, 20, budget_counting());
                } else {
                    rig.policy = Some(Box::new(RecentTurns::new(1).unwrap()));
                }
                rig
            };
            let mut first = build(
                InMemoryMemory::from_messages(old_history()),
                MockChatModel::new("mock")
                    .with_response(calls("call-stream-1", r#"{"expression":"6*7"}"#)),
            );
            let pending = checkpoint_of(first.reply(Msg::user("current")).unwrap_err());
            if mode != 0 {
                first.stop_before_tools = true;
                assert!(first
                    .recover(pending.reply_id(), approve("call-stream-1"))
                    .is_err());
            }
            let mut second = build(
                InMemoryMemory::new(),
                MockChatModel::new("mock").with_stream(final_answer_stream()),
            );
            let kind = match mode {
                0 => approve("call-stream-1"),
                1 => RecoveryKind::Retry,
                _ => RecoveryKind::Resolve(vec![ToolResultBlock::success(
                    "call-stream-1",
                    "calculator",
                    ToolResultOutput::from("42"),
                )
                .unwrap()]),
            };
            let events = second.recover(pending.reply_id(), kind).unwrap();
            assert!(matches!(events.last(), Some(AgentEvent::Finished { .. })));
            let requests = second.model.recorded_requests();
            assert_eq!(requests[0].messages.len(), 4);
            assert_eq!(requests[0].messages[1].text_content(""), Some("current".into()));
            assert_eq!(
                requests[0].options.max_tokens,
                if budgeted { Some(20) } else { None }
            );
            let stored = store.borrow().inner.load(&key).unwrap();
            assert_eq!(stored.state().messages().len(), 6);
            assert_eq!(
                stored.state().messages()[0].text_content(""),
                Some("old question".into())
            );
            assert!(stored.state().pending_tool_calls().is_none());
            assert!(stored.state().pending_tool_execution().is_none());
            assert_eq!(second.invocations.len(), usize::from(mode != 2));
        }
    }
}

#[test]
fn budget_errors_block_model_calls_and_preserve_saved_history() {
    for streaming in [false, true] {
        for after_tool in [false, true] {
            let model = MockChatModel::new("mock")
                .with_response(calls("call-stream-1", r#"{"expression":"6*7"}"#))
                .with_stream(calculator_call_stream());
            let store = Rc::new(RefCell::new(Store::default()));
            let key = StateKey::new("user", "budget-failure").unwrap();
            // Initial protected request costs 40; after tools it costs 60.
            let window = if after_tool { 60 } else { 30 };
            let mut rig = Rig::new(
                friday_with_calculator()
                    .with_memory()
                    .with_system_prompt("Be precise"),
                model,
            )
            .with_memory(InMemoryMemory::from_messages(old_history()))
            .with_store(key.clone(), store.clone())
            .with_budget(window, 20, budget_counting());
            if streaming {
                let events = rig.stream(Msg::user("current")).unwrap();
                assert!(matches!(
                    events.last(),
                    Some(AgentEvent::Error {
                        error: AgentError::TokenBudget(TokenBudgetError::Exceeded { .. }),
                        ..
                    })
                ));
                assert!(!events
                    .iter()
                    .any(|event| matches!(event, AgentEvent::Finished { .. })));
            } else {
                assert!(matches!(
                    rig.reply(Msg::user("current")),
                    Err(AgentError::TokenBudget(TokenBudgetError::Exceeded { .. }))
                ));
            }
            assert_eq!(rig.model.recorded_requests().len(), usize::from(after_tool));
            assert_eq!(rig.invocations.len(), usize::from(after_tool));
            let state = store.borrow().inner.load(&key).unwrap();
            assert_eq!(
                state.state().messages().len(),
                if after_tool { 5 } else { 3 }
            );
            assert_eq!(
                state.state().messages()[0].text_content(""),
                Some("old question".into())
            );
        }
    }
}

#[test]
fn budget_follows_context_policy_and_hooks_see_final_request() {
    for streaming in [false, true] {
        let counts = Rc::new(RefCell::new(Vec::new()));
        let hooks = Rc::new(RefCell::new(0));
        let model = MockChatModel::new("mock")
            .with_response(says("42"))
            .with_stream(final_answer_stream());
        let counted = counts.clone();
        let mut rig = Rig::new(
            friday().with_memory().with_system_prompt("instructions"),
            model,
        )
        .with_memory(InMemoryMemory::from_messages(vec![
            Msg::user("first"),
            Msg::assistant("a", "one"),
            Msg::user("second"),
            Msg::assistant("a", "two"),
            Msg::user("third"),
            Msg::assistant("a", "three"),
        ]))
        .with_budget(
            50,
            20,
            Rc::new(move |request: &ChatRequest| {
                counted.borrow_mut().push(request.messages.len());
                assert_eq!(request.options.max_tokens, Some(20));
                request.messages.len() as u64 * 10
            }),
        );
        rig.policy = Some(Box::new(RecentTurns::new(2).unwrap()));
        let seen = hooks.clone();
        rig.hooks.push(Box::new(move |event| {
            if let AgentHookEvent::BeforeModelCall { request, .. } = event {
                assert_eq!(request.messages.len(), 2);
                assert_eq!(request.options.max_tokens, Some(20));
                *seen.borrow_mut() += 1;
            }
            Ok(())
        }));
        if streaming {
            let events = rig.stream(Msg::user("current")).unwrap();
            assert!(matches!(events.last(), Some(AgentEvent::Finished { .. })));
        } else {
            rig.reply(Msg::user("current")).unwrap();
        }
        assert_eq!(*counts.borrow(), vec![4, 2]);
        assert_eq!(*hooks.borrow(), 1);
        assert_eq!(rig.snapshot().unwrap().messages().len(), 8);
    }
}

fn long_history() -> Vec<Msg> {
    vec![
        Msg::system("Never disclose private data."),
        Msg::user(&"old question".repeat(100)),
        Msg::assistant("Friday", &"old answer".repeat(100)),
        Msg::user("recent question"),
        Msg::assistant("Friday", "recent answer"),
    ]
}

fn summarizing(text: &str) -> (Summarizing, Rc<RefCell<usize>>) {
    let calls = Rc::new(RefCell::new(0));
    let counted = calls.clone();
    let text = text.to_owned();
    (
        Box::new(move |messages: &[Msg]| {
            assert!(!messages.is_empty());
            *counted.borrow_mut() += 1;
            Ok(text.clone())
        }),
        calls,
    )
}

fn summarized(text: &str, model: MockChatModel) -> (Rig, Rc<RefCell<usize>>) {
    let (summarizer, calls) = summarizing(text);
    let mut rig = Rig::new(friday().with_memory(), model)
        .with_memory(InMemoryMemory::from_messages(long_history()));
    rig.summarizer = Some(summarizer);
    (rig, calls)
}

#[test]
fn compaction_is_explicit_persisted_and_used_in_both_reply_paths() {
    for streaming in [false, true] {
        let store = Rc::new(RefCell::new(Store::default()));
        let key = StateKey::new("u", "summary").unwrap();
        let (rig, calls) = summarized("Prior goal and result.", MockChatModel::new("mock"));
        let mut rig = rig.with_store(key.clone(), store.clone());
        let original = rig.snapshot().unwrap();
        let summary = rig.compact(1).unwrap().unwrap();
        assert_eq!(summary.covered_messages(), 3);
        assert_eq!(*calls.borrow(), 1);
        assert!(rig.model.recorded_requests().is_empty());
        assert!(rig.compact(1).unwrap().is_none());
        assert_eq!(*calls.borrow(), 1);
        let snapshot = rig.snapshot().unwrap();
        assert_eq!(snapshot.messages(), original.messages());
        assert_eq!(snapshot.context_summary(), Some(&summary));
        assert_eq!(snapshot.format_version(), 4);
        // Applying a persisted summary needs no summarizer.
        let mut restored = Rig::new(
            friday().with_memory(),
            MockChatModel::new("mock")
                .with_response(says("done"))
                .with_stream(final_answer_stream()),
        )
        .with_memory(InMemoryMemory::new())
        .with_store(key, store);
        restored.policy = Some(Box::new(RecentTurns::new(1).unwrap()));
        if streaming {
            let events = restored.stream(Msg::user("next")).unwrap();
            assert!(matches!(events.last(), Some(AgentEvent::Finished { .. })));
        } else {
            restored.reply(Msg::user("next")).unwrap();
        }
        let request = &restored.model.recorded_requests()[0];
        assert!(request
            .messages
            .iter()
            .any(|m| m.name == "context_summary" && m.role == Role::Assistant));
        assert!(request.messages.iter().any(|m| m.role == Role::System));
        assert!(!request
            .messages
            .iter()
            .any(|m| m.text_content("").is_some_and(|s| s.contains("old answer"))));
        assert_eq!(restored.snapshot().unwrap().messages().len(), 7);
        restored.summary = None;
        assert!(restored.snapshot().unwrap().context_summary().is_none());
        assert_eq!(restored.snapshot().unwrap().messages().len(), 7);
    }
}

#[test]
fn invalid_summary_and_budget_failures_leave_original_state_unchanged() {
    let long = "long summary".repeat(1000);
    for text in ["", &long, "small summary"] {
        let (mut rig, _) = summarized(text, MockChatModel::new("mock"));
        if text == "small summary" {
            rig = rig.with_budget(2, 1, Rc::new(|_| 100));
        }
        let before = rig.snapshot().unwrap();
        let error = rig.compact(1).unwrap_err();
        match text {
            "" => assert_eq!(error, AgentError::Summary(SummaryError::InvalidResponse)),
            "small summary" => assert!(matches!(error, AgentError::TokenBudget(_))),
            _ => assert_eq!(error, AgentError::Summary(SummaryError::NotSmaller)),
        }
        assert_eq!(rig.snapshot().unwrap(), before);
    }
}

#[test]
fn validates_sources_before_calling_summary_model() {
    let (mut rig, calls) = summarized("summary", MockChatModel::new("mock"));
    assert_eq!(
        rig.compact(0),
        Err(AgentError::Summary(SummaryError::ZeroRecentTurns))
    );
    assert!(rig.compact(2).unwrap().is_none());
    let malformed = vec![Msg::user("unfinished"), Msg::user("current")];
    rig.restore(AgentState::new("Friday", malformed)).unwrap();
    assert_eq!(
        rig.compact(1),
        Err(AgentError::Summary(SummaryError::IncompleteHistory))
    );
    assert_eq!(*calls.borrow(), 0);
}

#[test]
fn changed_source_is_rejected_even_if_message_ids_are_unchanged() {
    let (mut rig, _) = summarized("summary", MockChatModel::new("mock"));
    rig.compact(1).unwrap();
    let before = rig.snapshot().unwrap();
    let (mut messages, pending, execution, summary) = before.clone().into_parts();
    let ContentBlock::Text(block) = &mut messages[1].content[0] else {
        panic!("expected text")
    };
    block.text = "changed".to_owned();
    let altered = AgentState::from_parts(
        before.format_version(),
        "Friday".to_owned(),
        messages,
        pending,
        execution,
        summary,
    );
    assert_eq!(
        rig.restore(altered),
        Err(AgentError::Summary(SummaryError::StaleSource))
    );
    assert_eq!(rig.snapshot().unwrap(), before);
}

#[test]
fn failed_persistence_does_not_install_runtime_or_durable_summary() {
    let store = Rc::new(RefCell::new(Store::default()));
    let key = StateKey::new("u", "failure").unwrap();
    let initial = AgentState::new("Friday", long_history());
    store
        .borrow_mut()
        .inner
        .save(key.clone(), None, initial.clone())
        .unwrap();
    store.borrow_mut().fail_from = Some(1);
    let (rig, _) = summarized("Summary", MockChatModel::new("main"));
    let mut rig = rig.with_store(key.clone(), store.clone());
    assert!(matches!(rig.compact(1), Err(AgentError::StateStore(_))));
    assert_eq!(store.borrow().inner.load(&key).unwrap().state(), &initial);
    assert_eq!(rig.snapshot().unwrap(), initial);
}

#[test]
fn pending_confirmations_and_uncertain_executions_block_compaction() {
    let (mut rig, pending, store, key) = recovery_fixture();
    let (summarizer, calls) = summarizing("summary");
    rig.summarizer = Some(summarizer);
    assert_eq!(
        rig.compact(1),
        Err(AgentError::Summary(SummaryError::PendingTools))
    );
    leave_execution_pending(&mut rig, &pending, &store, &key);
    assert_eq!(
        rig.compact(1),
        Err(AgentError::Summary(SummaryError::PendingTools))
    );
    assert_eq!(*calls.borrow(), 0);
}

#[test]
fn repeated_compaction_expands_from_original_history_and_supports_legacy_state() {
    let (mut rig, calls) = summarized("Summary", MockChatModel::new("main"));
    rig.compact(1).unwrap();
    rig.observe(Msg::user("new")).unwrap();
    let summary = rig.compact(1).unwrap().unwrap();
    assert_eq!(summary.covered_messages(), 5);
    assert_eq!(*calls.borrow(), 2);
    assert_eq!(rig.snapshot().unwrap().messages().len(), 6);
    let legacy =
        AgentState::from_parts(3, "Friday".to_owned(), long_history(), None, None, None);
    rig.restore(legacy).unwrap();
    assert!(rig.snapshot().unwrap().context_summary().is_none());
}

#[test]
fn summary_remains_protected_when_token_budget_drops_old_turns() {
    let (mut rig, _) = summarized("Summary", MockChatModel::new("main"));
    rig.compact(1).unwrap();
    let mut rig = rig.with_budget(
        100,
        20,
        Rc::new(|request: &ChatRequest| {
            let messages = request.messages.iter();
            messages
                .map(|m| if m.name == "context_summary" { 100 } else { 10 })
                .sum()
        }),
    );
    assert!(matches!(
        rig.reply(Msg::user("new")),
        Err(AgentError::TokenBudget(_))
    ));
    assert!(rig.model.recorded_requests().is_empty());
    assert!(rig.snapshot().unwrap().context_summary().is_some());
}

#[test]
fn completed_tool_exchanges_are_summarized_whole_and_orphans_rejected() {
    for balanced in [false, true] {
        let (mut rig, calls) = summarized("A tool completed.", MockChatModel::new("main"));
        let source = vec![
            Msg::user(&"old task".repeat(100)),
            Msg::new(
                "Friday",
                Role::Assistant,
                vec![ContentBlock::from(
                    ToolCallBlock::complete("c", "tool", "{}").unwrap(),
                )],
            ),
            Msg::new(
                "tool",
                Role::Assistant,
                vec![ContentBlock::from(
                    ToolResultBlock::success(
                        if balanced { "c" } else { "wrong" },
                        "tool",
                        ToolResultOutput::from("result"),
                    )
                    .unwrap(),
                )],
            ),
            Msg::assistant("Friday", "completed"),
            Msg::user("current"),
        ];
        rig.restore(AgentState::new("Friday", source.clone()))
            .unwrap();
        let result = rig.compact(1);
        if balanced {
            assert_eq!(result.unwrap().unwrap().covered_messages(), 4);
        } else {
            assert_eq!(
                result,
                Err(AgentError::Summary(SummaryError::IncompleteHistory))
            );
        }
        assert_eq!(*calls.borrow(), usize::from(balanced));
        assert_eq!(*rig.snapshot().unwrap().messages(), source);
    }
}

fn auto_history() -> Vec<Msg> {
    vec![
        Msg::system("instructions"),
        Msg::user(&"old question".repeat(100)),
        Msg::assistant("Friday", &"old answer".repeat(100)),
        Msg::user("recent"),
        Msg::assistant("Friday", "answer"),
    ]
}

fn has_result(message: &Msg) -> bool {
    message
        .content
        .iter()
        .any(|block| matches!(block, ContentBlock::ToolResult(_)))
}

fn auto_counting() -> Counting {
    Rc::new(|request: &ChatRequest| {
        let messages = request.messages.iter();
        messages
            .map(|m| {
                if m.name == "context_summary" {
                    200
                } else if is_old(m) {
                    1000
                } else if has_result(m) {
                    800
                } else {
                    10
                }
            })
            .sum::<u64>()
            + request.tools.len() as u64 * 20
    })
}

fn auto_model() -> MockChatModel {
    MockChatModel::new("main")
        .with_response(says("done"))
        .with_stream(final_answer_stream())
}

fn auto_rig(model: MockChatModel) -> (Rig, Rc<RefCell<usize>>, Rc<RefCell<Store>>, StateKey) {
    let (summarizer, calls) = summarizing("Old task completed.");
    let store = Rc::new(RefCell::new(Store::default()));
    let key = StateKey::new("user", "auto").unwrap();
    let mut rig = Rig::new(friday().with_memory(), model)
        .with_memory(InMemoryMemory::from_messages(auto_history()))
        .with_store(key.clone(), store.clone())
        .with_budget(400, 100, auto_counting());
    rig.summarizer = Some(summarizer);
    (rig, calls, store, key)
}

fn automatic() -> Rc<ReActAgent> {
    Rc::new(friday().with_memory().with_auto_compaction(1).unwrap())
}

#[test]
fn disabled_under_budget_and_context_policy_paths_do_not_summarize() {
    for mode in 0..3 {
        let (mut rig, calls, _, _) = auto_rig(auto_model());
        if mode != 0 {
            rig.agent = automatic();
        }
        if mode == 1 {
            rig.policy = Some(Box::new(RecentTurns::new(1).unwrap()));
        }
        if mode == 2 {
            rig.restore(AgentState::new("Friday", auto_history()[3..].to_vec()))
                .unwrap();
        }
        rig.reply(Msg::user("new")).unwrap();
        assert_eq!(*calls.borrow(), 0);
        assert_eq!(rig.model.recorded_requests().len(), 1);
    }
}

#[test]
fn ordinary_reply_compacts_once_including_incoming_message_in_budget() {
    let (mut rig, calls, store, key) = auto_rig(auto_model());
    rig.agent = automatic();
    let original = rig.snapshot().unwrap();
    rig.reply(Msg::user("new")).unwrap();
    assert_eq!(*calls.borrow(), 1);
    let request = &rig.model.recorded_requests()[0];
    assert!(request.messages.iter().any(|m| m.name == "context_summary"));
    assert!(!request.messages.iter().any(is_old));
    assert_eq!(request.options.max_tokens, Some(100));
    let saved = store.borrow().inner.load(&key).unwrap();
    assert_eq!(saved.revision(), 2); // summary commit, then completed reply
    assert_eq!(&saved.state().messages()[..5], &original.messages()[..]);
    assert_eq!(saved.state().messages().len(), 7);
}

#[test]
fn automatic_compactions_are_announced_before_the_reply() {
    let (mut rig, calls, store, key) = auto_rig(auto_model());
    rig.agent = automatic();
    let seen = Rc::new(RefCell::new(0));
    let (count, made, at, session) = (seen.clone(), calls.clone(), store.clone(), key.clone());
    rig.watch = Some(Box::new(move |event| {
        *count.borrow_mut() += 1;
        let saved = at.borrow().inner.load(&session);
        match event {
            AgentEvent::ContextCompactionStarted { .. } => {
                assert_eq!(*made.borrow(), 0);
                assert!(saved.is_none());
            }
            AgentEvent::ContextCompactionCompleted { .. } => {
                let saved = saved.unwrap();
                assert!(saved.state().context_summary().is_some());
                assert_eq!(saved.state().messages().len(), 5); // incoming message not appended yet
            }
            _ => panic!("unexpected event"),
        }
    }));
    let events = rig.stream(Msg::user("new")).unwrap();
    assert_eq!(*seen.borrow(), 2);
    assert_eq!(
        events[..2],
        [
            AgentEvent::ContextCompactionStarted {
                keep_recent_turns: 1
            },
            AgentEvent::ContextCompactionCompleted {
                covered_messages: 3
            }
        ]
    );
    assert!(matches!(events.last(), Some(AgentEvent::Finished { .. })));
    assert_eq!(*calls.borrow(), 1);
    assert_eq!(rig.model.recorded_requests().len(), 1);
    let saved = store.borrow().inner.load(&key).unwrap();
    assert!(saved.state().context_summary().is_some());
    assert_eq!(saved.state().messages().len(), 7);
}

#[test]
fn failures_preserve_original_state_and_emit_failure_then_terminal_error() {
    for streaming in [false, true] {
        for failure in 0..3 {
            let (mut rig, calls, store, key) = auto_rig(auto_model());
            rig.agent = automatic();
            if failure == 0 {
                let counted = calls.clone();
                rig.summarizer = Some(Box::new(move |_| {
                    *counted.borrow_mut() += 1;
                    Err(SummaryError::InvalidResponse)
                }));
            }
            if failure == 1 {
                rig = rig.with_budget(100, 50, auto_counting());
            }
            if failure == 2 {
                rig.restore(AgentState::new("Friday", auto_history()[..3].to_vec()))
                    .unwrap();
            }
            let before = rig.snapshot().unwrap();
            if streaming {
                let events = rig.stream(Msg::user("new")).unwrap();
                assert_eq!(events.len(), 3);
                assert!(matches!(
                    events[0],
                    AgentEvent::ContextCompactionStarted { .. }
                ));
                assert!(matches!(
                    events[1],
                    AgentEvent::ContextCompactionFailed { .. }
                ));
                assert!(matches!(events[2], AgentEvent::Error { step: None, .. }));
            } else {
                assert!(rig.reply(Msg::user("new")).is_err());
            }
            assert_eq!(rig.snapshot().unwrap(), before);
            assert!(rig.model.recorded_requests().is_empty());
            assert_eq!(*calls.borrow(), usize::from(failure != 2));
            if failure != 2 {
                assert!(store.borrow().inner.load(&key).is_none());
            }
        }
    }
}

#[test]
fn incoming_oversize_is_not_saved_and_previous_summary_survives() {
    let (mut rig, calls, _, _) = auto_rig(auto_model());
    rig.compact(1).unwrap();
    rig.observe(Msg::user("another completed turn")).unwrap();
    rig.observe(Msg::assistant("Friday", "complete")).unwrap();
    let before = rig.snapshot().unwrap();
    rig.agent = automatic();
    assert!(matches!(
        rig.reply(Msg::user("old HUGE NEW INPUT")),
        Err(AgentError::TokenBudget(_))
    ));
    assert_eq!(*calls.borrow(), 2); // explicit + one automatic attempt
    assert_eq!(rig.snapshot().unwrap(), before);
    assert!(rig.model.recorded_requests().is_empty());
}

#[test]
fn oversized_tool_result_does_not_trigger_a_second_attempt() {
    for streaming in [false, true] {
        let (summarizer, attempts) = summarizing("Old task completed.");
        let mut rig = Rig::new(
            friday_with_calculator()
                .with_memory()
                .with_auto_compaction(1)
                .unwrap(),
            MockChatModel::new("main")
                .with_response(calls("call-stream-1", r#"{"expression":"6*7"}"#))
                .with_stream(calculator_call_stream()),
        )
        .with_memory(InMemoryMemory::from_messages(auto_history()))
        .with_budget(400, 100, auto_counting());
        rig.summarizer = Some(summarizer);
        rig.output = "large result".to_owned();
        if streaming {
            let events = rig.stream(Msg::user("calculate")).unwrap();
            assert_eq!(
                events
                    .iter()
                    .filter(|e| matches!(e, AgentEvent::ContextCompactionStarted { .. }))
                    .count(),
                1
            );
            assert!(matches!(
                events.last(),
                Some(AgentEvent::Error {
                    error: AgentError::TokenBudget(_),
                    ..
                })
            ));
        } else {
            assert!(matches!(
                rig.reply(Msg::user("calculate")),
                Err(AgentError::TokenBudget(_))
            ));
        }
        assert_eq!(*attempts.borrow(), 1);
        assert_eq!(rig.model.recorded_requests().len(), 1);
        let state = rig.snapshot().unwrap();
        assert!(has_result(state.messages().last().unwrap()));
    }
}

#[test]
fn configuration_is_explicit_and_validated_without_main_model_calls() {
    assert!(matches!(
        friday().with_auto_compaction(0),
        Err(AgentError::Summary(SummaryError::ZeroRecentTurns))
    ));
    let mut missing = Rig::new(
        friday().with_memory().with_auto_compaction(1).unwrap(),
        auto_model(),
    )
    .with_memory(InMemoryMemory::from_messages(auto_history()));
    assert_eq!(
        missing.reply(Msg::user("new")),
        Err(AgentError::Summary(SummaryError::NotConfigured))
    );
    missing.summarizer = Some(summarizing("Old task completed.").0);
    assert_eq!(
        missing.reply(Msg::user("new")),
        Err(AgentError::Summary(SummaryError::AutoRequiresBudget))
    );
    assert!(missing.model.recorded_requests().is_empty());
    let (mut rig, calls, _, _) = auto_rig(auto_model());
    let agent = friday().with_memory().with_auto_compaction(1).unwrap();
    assert_eq!(agent.auto_compaction(), Some(1));
    rig.agent = Rc::new(agent.without_auto_compaction());
    rig.reply(Msg::user("new")).unwrap();
    assert_eq!(*calls.borrow(), 0);
}

#[test]
fn rejected_summary_write_leaves_both_runtime_and_store_unchanged() {
    let (mut rig, calls, store, key) = auto_rig(auto_model());
    let original = rig.snapshot().unwrap();
    store
        .borrow_mut()
        .inner
        .save(key.clone(), None, original.clone())
        .unwrap();
    store.borrow_mut().fail_from = Some(1);
    rig.agent = automatic();
    let events = rig.stream(Msg::user("new")).unwrap();
    assert!(matches!(
        events[1],
        AgentEvent::ContextCompactionFailed {
            error: AgentError::StateStore(_)
        }
    ));
    assert_eq!(
        store.borrow().inner.load(&key).unwrap().state(),
        &original
    );
    assert_eq!(rig.snapshot().unwrap(), original);
    assert_eq!(*calls.borrow(), 1);
    assert!(rig.model.recorded_requests().is_empty());
}

#[test]
fn paused_and_recovery_paths_never_automatically_compact() {
    for streaming in [false, true] {
        for mode in 0..3 {
            let (mut rig, attempts, _, _) = auto_rig(
                MockChatModel::new("main").with_response(calls("c", r#"{"expression":"6*7"}"#)),
            );
            let confirming = || {
                friday()
                    .with_memory()
                    .with_tool_confirmation_required("calculator")
            };
            rig.agent = Rc::new(confirming());
            let pending = checkpoint_of(rig.reply(Msg::user("calculate")).unwrap_err());
            rig.agent = Rc::new(confirming().with_auto_compaction(1).unwrap());
            assert!(matches!(
                rig.reply(Msg::user("new")),
                Err(AgentError::ToolConfirmationRequired { .. })
            ));
            let id = pending.reply_id();
            if mode != 0 {
                rig.stop_before_tools = true;
                assert!(rig.recover(id, approve("c")).is_err());
                rig.stop_before_tools = false;
                assert!(matches!(
                    rig.reply(Msg::user("new")),
                    Err(AgentError::ToolExecutionInDoubt { .. })
                ));
            }
            let kind = recovery_kind(mode, "c", "result");
            if streaming {
                let events = rig.recover(id, kind).unwrap();
                assert!(!events
                    .iter()
                    .any(|event| matches!(event, AgentEvent::ContextCompactionStarted { .. })));
            } else {
                let _ = rig.recover_reply(id, kind);
            }
            assert_eq!(*attempts.borrow(), 0);
        }
    }
}

fn recovery_kind(mode: usize, id: &str, output: &str) -> RecoveryKind {
    match mode {
        0 => approve(id),
        1 => RecoveryKind::Retry,
        _ => RecoveryKind::Resolve(vec![ToolResultBlock::success(
            id,
            "calculator",
            ToolResultOutput::from(output),
        )
        .unwrap()]),
    }
}

fn assert_summary_request(request: &ChatRequest) {
    assert_eq!(
        request
            .messages
            .iter()
            .filter(|m| m.name == "context_summary")
            .count(),
        1
    );
    assert!(!request
        .messages
        .iter()
        .any(|m| m.text_content("").is_some_and(|s| s.contains("old question"))));
}

#[test]
fn recovery_continuations_keep_summary_and_original_prefix() {
    for streaming in [false, true] {
        for mode in 0..3 {
            let (summarizer, attempts) = summarizing("Old facts");
            let mut rig = Rig::new(
                friday_with_calculator()
                    .with_memory()
                    .with_tool_confirmation_required("calculator"),
                MockChatModel::new("main")
                    .with_response(calls("c", r#"{"expression":"6*7"}"#))
                    .with_response(says("42"))
                    .with_stream(final_answer_stream()),
            )
            .with_memory(InMemoryMemory::from_messages(long_history()))
            .with_store(
                StateKey::new("u", "recover").unwrap(),
                Rc::new(RefCell::new(Store::default())),
            );
            rig.summarizer = Some(summarizer);
            let summary = rig.compact(1).unwrap().unwrap();
            let original = rig.snapshot().unwrap();
            let pending = checkpoint_of(rig.reply(Msg::user("calculate")).unwrap_err());
            let id = pending.reply_id();
            if mode != 0 {
                rig.stop_before_tools = true;
                assert!(rig.recover(id, approve("c")).is_err());
                rig.stop_before_tools = false;
            }
            let kind = recovery_kind(mode, "c", "42");
            if streaming {
                let events = rig.recover(id, kind).unwrap();
                assert!(matches!(events.last(), Some(AgentEvent::Finished { .. })));
            } else {
                rig.recover_reply(id, kind).unwrap();
            }
            assert_eq!(rig.model.recorded_requests().len(), 2);
            for request in rig.model.recorded_requests() {
                assert_summary_request(&request);
            }
            let state = rig.snapshot().unwrap();
            assert_eq!(state.context_summary(), Some(&summary));
            assert_eq!(&state.messages()[..5], &original.messages()[..]);
            assert_eq!(*attempts.borrow(), 1);
        }
    }
}

#[test]
fn recovery_budget_errors_keep_committed_results_and_clear_checkpoints() {
    for streaming in [false, true] {
        for mode in 0..3 {
            let store = Rc::new(RefCell::new(Store::default()));
            let key = StateKey::new("user", "budget-recovery-failure").unwrap();
            let mut rig = Rig::new(
                friday_with_calculator()
                    .with_system_prompt("Be precise")
                    .with_memory()
                    .with_tool_confirmation_required("calculator"),
                MockChatModel::new("mock")
                    .with_response(calls("call-stream-1", r#"{"expression":"6*7"}"#)),
            )
            .with_memory(InMemoryMemory::from_messages(old_history()))
            .with_store(key.clone(), store.clone());
            let pending = checkpoint_of(rig.reply(Msg::user("current")).unwrap_err());
            let id = pending.reply_id();
            if mode != 0 {
                rig.stop_before_tools = true;
                assert!(rig.recover(id, approve("call-stream-1")).is_err());
                rig.stop_before_tools = false;
            }
            let mut rig = rig.with_budget(60, 20, budget_counting());
            let kind = recovery_kind(mode, "call-stream-1", "42");
            let error = if streaming {
                let mut events = rig.recover(id, kind).unwrap();
                assert!(!events
                    .iter()
                    .any(|event| matches!(event, AgentEvent::Finished { .. })));
                let Some(AgentEvent::Error { error, .. }) = events.pop() else {
                    panic!("expected error")
                };
                error
            } else {
                rig.recover_reply(id, kind).unwrap_err()
            };
            assert!(matches!(
                error,
                AgentError::TokenBudget(TokenBudgetError::Exceeded { .. })
            ));
            assert_eq!(rig.model.recorded_requests().len(), 1);
            assert_eq!(rig.invocations.len(), usize::from(mode != 2));
            let saved = store.borrow().inner.load(&key).unwrap();
            assert_eq!(saved.state().messages().len(), 5);
            assert!(saved.state().pending_tool_calls().is_none());
            assert!(saved.state().pending_tool_execution().is_none());
            assert!(has_result(saved.state().messages().last().unwrap()));
        }
    }
}

#[test]
fn default_keeps_full_history_and_custom_policy_is_shared_by_clones() {
    struct CountingPolicy(Rc<RefCell<usize>>);
    impl ContextPolicy for CountingPolicy {
        fn select_messages(&self, history: &[Msg]) -> Vec<Msg> {
            *self.0.borrow_mut() += 1;
            FullContext.select_messages(history)
        }
    }
    let mut rig = Rig::new(
        friday().with_memory(),
        MockChatModel::new("mock")
            .with_response(says("42"))
            .with_response(says("42")),
    )
    .with_memory(InMemoryMemory::from_messages(old_history()));
    rig.reply(Msg::user("new")).unwrap();
    assert_eq!(rig.model.recorded_requests()[0].messages.len(), 3);
    let calls = Rc::new(RefCell::new(0));
    rig.policy = Some(Box::new(CountingPolicy(calls.clone())));
    rig.reply(Msg::user("next")).unwrap();
    assert_eq!(*calls.borrow(), 1);
    assert_eq!(rig.model.recorded_requests()[1].messages.len(), 5);
}
