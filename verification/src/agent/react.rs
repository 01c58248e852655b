//! The configuration of a reason-act-observe agent and what its loop is made of.
use vstd::prelude::*;

use super::confirmation::{
    check_confirmations, confirmation_fault, pending_fault, PendingToolCalls, PendingView,
};
use super::error::{AgentError, AgentErrorView, AgentResult};
use super::hook::{AgentHookEvent, HookEventView};
use super::state::{AgentState, StateView, AGENT_STATE_VERSION};
use crate::context::budget::{budgeted, budgeted_requests_fit, TokenBudget, TokenCounter};
use crate::context::copy_messages;
use crate::context::summary::{
    summary_introduction, ContextSummary, SummaryError, SummaryErrorView, SummaryView,
};
use crate::message::content::{BlockView, ContentBlock};
use crate::message::msg::{is_new_msg, is_new_text_msg, Msg, MsgView};
use crate::message::role::Role;
use crate::message::tool_call::{PermissionRule, ToolCallBlock, ToolCallState, ToolCallView};
use crate::message::tool_result::{
    finished_error, is_new_result, result_error_text, OutputView, ToolResultBlock,
    ToolResultOutput, ToolResultState, ToolResultView,
};
use crate::model::request::{
    no_options, ChatRequest, GenerateOptions, OptionsView, RequestView, ToolDefinition, ToolView,
};
use crate::model::response::calls_of;
use crate::text::{append, blank, concat3, decimal, decimal_text, is_blank, same_text, text_option};
use crate::view::{lemma_views_push, view_option, views};

verus! {

/// The configuration of a reason-act-observe agent.
///
/// The model is called until it returns no tool calls or `max_steps` is reached.
#[derive(Debug)]
pub struct ReActAgent {
    pub(crate) name: String,
    pub(crate) max_steps: usize,
    pub(crate) system_prompt: Option<String>,
    pub(crate) options: GenerateOptions,
    pub(crate) tools: Vec<ToolDefinition>,
    pub(crate) confirmation_tools: Vec<String>,
    pub(crate) has_memory: bool,
    pub(crate) auto_compaction: Option<usize>,
}

/// What an agent's configuration holds.
#[verifier::ext_equal]
pub struct AgentView {
    pub name: Seq<char>,
    pub max_steps: nat,
    pub system_prompt: Option<Seq<char>>,
    pub options: OptionsView,
    pub tools: Seq<ToolView>,
    pub confirmation_tools: Seq<Seq<char>>,
    pub has_memory: bool,
    pub auto_compaction: Option<usize>,
}

impl View for ReActAgent {
    type V = AgentView;

    open(crate) spec fn view(&self) -> AgentView {
        AgentView {
            name: self.name@,
            max_steps: self.max_steps as nat,
            system_prompt: text_option(self.system_prompt),
            options: self.options@,
            tools: views(self.tools@),
            confirmation_tools: views(self.confirmation_tools@),
            has_memory: self.has_memory,
            auto_compaction: self.auto_compaction,
        }
    }
}

impl AgentView {
    /// Whether the name is not blank and at least one model call is allowed.
    pub open spec fn well_formed(self) -> bool {
        !blank(self.name) && 0 < self.max_steps <= usize::MAX
    }
}

/// A new agent without tools, prompt or memory.
pub open spec fn default_agent(name: Seq<char>) -> AgentView {
    AgentView {
        name,
        max_steps: 8,
        system_prompt: None,
        options: no_options(),
        tools: Seq::empty(),
        confirmation_tools: Seq::empty(),
        has_memory: false,
        auto_compaction: None,
    }
}

impl ReActAgent {
    /// Creates an agent.
    pub fn new(name: &str) -> (result: AgentResult<ReActAgent>)
        ensures
            match result {
                Ok(agent) => agent@ == default_agent(name@) && agent@.well_formed(),
                Err(error) => blank(name@) && error@ == AgentErrorView::EmptyName,
            },
    {
        if is_blank(name) {
            return Err(AgentError::EmptyName);
        }
        let agent = ReActAgent {
            name: name.to_owned(),
            max_steps: 8,
            system_prompt: None,
            options: GenerateOptions::new(),
            tools: Vec::new(),
            confirmation_tools: Vec::new(),
            has_memory: false,
            auto_compaction: None,
        };
        assert(agent@ =~= default_agent(name@));
        Ok(agent)
    }

    /// Sets the maximum number of model calls in one reply.
    pub fn with_max_steps(self, max_steps: usize) -> (result: AgentResult<ReActAgent>)
        ensures
            match result {
                Ok(agent) => max_steps > 0 && agent@ == (AgentView {
                    max_steps: max_steps as nat,
                    ..self@
                }),
                Err(error) => max_steps == 0 && error@ == AgentErrorView::ZeroMaxSteps,
            },
    {
        if max_steps == 0 {
            return Err(AgentError::ZeroMaxSteps);
        }
        let mut agent = self;
        agent.max_steps = max_steps;
        Ok(agent)
    }

    /// Sets instructions prepended to every model request without persisting them.
    pub fn with_system_prompt(self, prompt: &str) -> (agent: ReActAgent)
        ensures
            agent@ == (AgentView { system_prompt: Some(prompt@), ..self@ }),
    {
        let mut agent = self;
        agent.system_prompt = Some(prompt.to_owned());
        agent
    }

    /// Sets generation options used for every model call.
    pub fn with_options(self, options: GenerateOptions) -> (agent: ReActAgent)
        ensures
            agent@ == (AgentView { options: options@, ..self@ }),
    {
        let mut agent = self;
        agent.options = options;
        agent
    }

    /// Sets the tools made available to every model call.
    pub fn with_tools(self, tools: Vec<ToolDefinition>) -> (agent: ReActAgent)
        ensures
            agent@ == (AgentView { tools: views(tools@), ..self@ }),
    {
        let mut agent = self;
        agent.tools = tools;
        agent
    }

    /// Declares that conversation memory is attached.
    pub fn with_memory(self) -> (agent: ReActAgent)
        ensures
            agent@ == (AgentView { has_memory: true, ..self@ }),
    {
        let mut agent = self;
        agent.has_memory = true;
        agent
    }

    /// Requires explicit confirmation before a named tool can execute.
    pub fn with_tool_confirmation_required(self, tool_name: &str) -> (agent: ReActAgent)
        ensures
            agent@ == (AgentView {
                confirmation_tools: self@.confirmation_tools.push(tool_name@),
                ..self@
            }),
    {
        let mut agent = self;
        let name = tool_name.to_owned();
        proof {
            lemma_views_push(agent.confirmation_tools@, name);
        }
        agent.confirmation_tools.push(name);
        agent
    }

    /// Enables one compaction before each new reply whose input exceeds the token
    /// budget, which keeps this many recent turns.
    pub fn with_auto_compaction(self, keep_recent_turns: usize) -> (result: AgentResult<ReActAgent>)
        ensures
            match result {
                Ok(agent) => keep_recent_turns > 0 && agent@ == (AgentView {
                    auto_compaction: Some(keep_recent_turns),
                    ..self@
                }),
                Err(error) => keep_recent_turns == 0 && error@ == AgentErrorView::Summary(
                    SummaryErrorView::ZeroRecentTurns,
                ),
            },
    {
        if keep_recent_turns == 0 {
            return Err(AgentError::Summary(SummaryError::ZeroRecentTurns));
        }
        let mut agent = self;
        agent.auto_compaction = Some(keep_recent_turns);
        Ok(agent)
    }

    /// Disables automatic compaction.
    pub fn without_auto_compaction(self) -> (agent: ReActAgent)
        ensures
            agent@ == (AgentView { auto_compaction: None, ..self@ }),
    {
        let mut agent = self;
        agent.auto_compaction = None;
        agent
    }

    /// How many recent turns automatic compaction keeps, where it is enabled.
    pub fn auto_compaction(&self) -> (keep_recent_turns: Option<usize>)
        ensures
            keep_recent_turns == self@.auto_compaction,
    {
        self.auto_compaction
    }

    /// The tools that the model may call.
    pub fn tools(&self) -> (tools: &Vec<ToolDefinition>)
        ensures
            views(tools@) == self@.tools,
    {
        &self.tools
    }

    /// The agent's display name.
    pub fn name(&self) -> (name: &str)
        ensures
            name@ == self@.name,
    {
        self.name.as_str()
    }

    /// The model/tool iteration limit.
    pub fn max_steps(&self) -> (max_steps: usize)
        ensures
            max_steps == self@.max_steps,
    {
        self.max_steps
    }

    /// Whether conversation memory is attached.
    pub fn has_memory(&self) -> (has_memory: bool)
        ensures
            has_memory == self@.has_memory,
    {
        self.has_memory
    }

    /// The system prompt as a message, if there is one.
    pub fn system_message(&self) -> (message: Option<Msg>)
        ensures
            instructs(self@, view_option(message)),
    {
        match &self.system_prompt {
            Some(prompt) => Some(Msg::system(prompt.as_str())),
            None => None,
        }
    }

    /// The request for a selection of the history: the system message, then the
    /// summary of what was left out, then the selection.
    pub fn chat_request(&self, system: Option<&Msg>, summary: Option<&Msg>, selected: &[Msg]) -> (request:
        ChatRequest)
        ensures
            request@ == request_for(
                self@,
                crate::view::view_option(system),
                crate::view::view_option(summary),
                views(selected@),
            ),
    {
        let mut messages: Vec<Msg> = Vec::new();
        let ghost mut lead: Seq<MsgView> = Seq::empty();
        assert(views(messages@) =~= lead);
        if let Some(system) = system {
            let copied = system.clone();
            proof {
                lemma_views_push(messages@, copied);
                lead = lead.push(copied@);
            }
            messages.push(copied);
        }
        if let Some(summary) = summary {
            let copied = summary.clone();
            proof {
                lemma_views_push(messages@, copied);
                lead = lead.push(copied@);
            }
            messages.push(copied);
        }
        let mut rest = copy_messages(selected);
        let ghost tail = views(rest@);
        messages.append(&mut rest);
        assert(views(messages@) =~= lead + tail);
        let tools = self.tools.clone();
        assert(views(tools@) =~= views(self.tools@));
        let request = ChatRequest::new(messages).with_options(self.options.clone()).with_tools(tools);
        proof {
            let expected = request_messages(
                crate::view::view_option(system),
                crate::view::view_option(summary),
                views(selected@),
            );
            assert(lead + tail =~= expected);
        }
        request
    }

    /// Whether one of some calls needs confirmation.
    pub fn requires_confirmation(&self, calls: &Vec<ToolCallBlock>) -> (result: bool)
        ensures
            result == needs_confirmation(self@, views(calls@)),
    {
        let ghost all = views(calls@);
        let ghost names = views(self.confirmation_tools@);
        let mut i: usize = 0;
        while i < calls.len()
            invariant
                i <= calls@.len(),
                all == views(calls@),
                names == self@.confirmation_tools,
                names == views(self.confirmation_tools@),
                forall|j: int| 0 <= j < i ==> !names.contains((#[trigger] all[j]).name),
            decreases calls@.len() - i,
        {
            let name = calls[i].name();
            assert(all[i as int] == calls@[i as int]@);
            let mut k: usize = 0;
            while k < self.confirmation_tools.len()
                invariant
                    i < calls@.len(),
                    k <= self.confirmation_tools@.len(),
                    all == views(calls@),
                    all[i as int].name == name@,
                    names == self@.confirmation_tools,
                    names == views(self.confirmation_tools@),
                    forall|j: int| 0 <= j < k ==> (#[trigger] names[j]) != name@,
                decreases self.confirmation_tools@.len() - k,
            {
                assert(names[k as int] == self.confirmation_tools@[k as int]@);
                if same_text(self.confirmation_tools[k].as_str(), name) {
                    assert(names.contains(all[i as int].name));
                    return true;
                }
                k += 1;
            }
            assert(!names.contains(name@));
            i += 1;
        }
        false
    }

    /// Accepts a snapshot that this agent can restore, as far as its version, its
    /// agent and its checkpoints are concerned.
    pub fn validate_state(&self, state: &AgentState) -> (result: AgentResult<()>)
        ensures
            match result {
                Ok(()) => state_fault(self@, state@) is None,
                Err(error) => state_fault(self@, state@) == Some(error@),
            },
    {
        if state.format_version() < 1 || state.format_version() > AGENT_STATE_VERSION {
            return Err(
                AgentError::UnsupportedStateVersion {
                    found: state.format_version(),
                    supported: AGENT_STATE_VERSION,
                },
            );
        }
        if !same_text(state.agent_name(), self.name.as_str()) {
            return Err(
                AgentError::StateAgentMismatch {
                    expected: self.name.clone(),
                    found: state.agent_name().to_owned(),
                },
            );
        }
        if let Some(pending) = state.pending_tool_calls() {
            if let Err(error) = self.validate_checkpoint(state.messages(), pending) {
                return Err(error);
            }
        }
        if let Some(execution) = state.pending_tool_execution() {
            if let Err(error) = self.validate_checkpoint(
                state.messages(),
                execution.confirmation(),
            ) {
                return Err(error);
            }
            if let Err(fault) = check_confirmations(
                execution.confirmation().calls(),
                execution.decisions(),
            ) {
                return Err(AgentError::InvalidToolConfirmation(fault));
            }
        }
        Ok(())
    }

    /// Accepts a checkpoint that can be resumed within the step limit and matches
    /// a stored message.
    fn validate_checkpoint(&self, messages: &Vec<Msg>, pending: &PendingToolCalls) -> (result: AgentResult<
        (),
    >)
        ensures
            match result {
                Ok(()) => checkpoint_fault(self@, views(messages@), pending@) is None,
                Err(error) => checkpoint_fault(self@, views(messages@), pending@) == Some(error@),
            },
    {
        if let Err(fault) = pending.validate() {
            return Err(AgentError::InvalidToolConfirmation(fault));
        }
        if pending.step() >= self.max_steps {
            return Err(
                AgentError::InvalidToolConfirmation(
                    concat3(
                        "pending tool step ",
                        decimal(pending.step() as u64).as_str(),
                        " leaves no model step to resume",
                    ),
                ),
            );
        }
        validate_checkpoint_message(messages, pending)
    }
}

/// The messages of a request: the system message, a summary, and the selection.
pub open spec fn request_messages(
    system: Option<MsgView>,
    summary: Option<MsgView>,
    selected: Seq<MsgView>,
) -> Seq<MsgView> {
    let system_part = match system {
        Some(msg) => seq![msg],
        None => Seq::empty(),
    };
    let summary_part = match summary {
        Some(msg) => seq![msg],
        None => Seq::empty(),
    };
    system_part + summary_part + selected
}

/// The request for a selection of the history.
pub open spec fn request_for(
    agent: AgentView,
    system: Option<MsgView>,
    summary: Option<MsgView>,
    selected: Seq<MsgView>,
) -> RequestView {
    RequestView {
        messages: request_messages(system, summary, selected),
        options: agent.options,
        tools: agent.tools,
        structured_output_schema: None,
    }
}

/// A request within the token budget, where there is one. Its first messages are
/// never cut.
pub fn fit_request<C: TokenCounter>(
    request: ChatRequest,
    fixed: usize,
    budget: Option<&TokenBudget<C>>,
) -> (result: AgentResult<ChatRequest>)
    requires
        fixed <= request@.messages.len(),
    ensures
        match budget {
            None => result matches Ok(fitting) && fitting@ == request@,
            Some(limit) => match (
                result,
                budgeted(
                    limit.spec_counter(),
                    limit.spec_input_limit(),
                    limit.spec_reserved_output(),
                    request@,
                    fixed as nat,
                ),
            ) {
                (Ok(fitting), Ok(expected)) => fitting@ == expected,
                (Err(error), Err(expected)) => error@ == AgentErrorView::TokenBudget(expected),
                _ => false,
            },
        },
{
    match budget {
        None => Ok(request),
        Some(limit) => match limit.apply_keeping(request, fixed) {
            Ok(fitting) => Ok(fitting),
            Err(error) => Err(AgentError::TokenBudget(error)),
        },
    }
}

/// How many messages of a request stand before the selected history.
pub open spec fn fixed_messages(system: Option<MsgView>, summary: Option<MsgView>) -> nat {
    (if system is Some {
        1nat
    } else {
        0nat
    }) + (if summary is Some {
        1nat
    } else {
        0nat
    })
}

/// The request for a selection of the history, within a budget where there is one.
pub open spec fn prepared<C: TokenCounter>(
    agent: AgentView,
    system: Option<MsgView>,
    summary: Option<MsgView>,
    selected: Seq<MsgView>,
    budget: Option<&TokenBudget<C>>,
) -> Result<RequestView, AgentErrorView> {
    let request = request_for(agent, system, summary, selected);
    match budget {
        None => Ok(request),
        Some(limit) => match budgeted(
            limit.spec_counter(),
            limit.spec_input_limit(),
            limit.spec_reserved_output(),
            request,
            fixed_messages(system, summary),
        ) {
            Ok(fitting) => Ok(fitting),
            Err(error) => Err(AgentErrorView::TokenBudget(error)),
        },
    }
}

impl ReActAgent {
    /// The request for a selection of the history, within a budget where there is
    /// one. Neither the system message nor the summary is cut.
    pub fn prepare_request<C: TokenCounter>(
        &self,
        system: Option<&Msg>,
        summary: Option<&Msg>,
        selected: &[Msg],
        budget: Option<&TokenBudget<C>>,
    ) -> (result: AgentResult<ChatRequest>)
        ensures
            match (result, prepared(
                self@,
                view_option(system),
                view_option(summary),
                views(selected@),
                budget,
            )) {
                (Ok(request), Ok(expected)) => request@ == expected,
                (Err(error), Err(fault)) => error@ == fault,
                _ => false,
            },
    {
        let mut fixed: usize = 0;
        if system.is_some() {
            fixed += 1;
        }
        if summary.is_some() {
            fixed += 1;
        }
        fit_request(self.chat_request(system, summary, selected), fixed, budget)
    }

    /// The request for a selection of the history beside a summary of the rest,
    /// within a budget where there is one. It leads with the system message.
    pub fn request_with_summary<C: TokenCounter>(
        &self,
        system: Option<&Msg>,
        summary: Option<&ContextSummary>,
        selected: &[Msg],
        budget: Option<&TokenBudget<C>>,
    ) -> (result: AgentResult<ChatRequest>)
        ensures
            requested(
                self@,
                budget,
                view_option(system),
                view_option(summary),
                views(selected@),
                request_outcome(result),
            ),
    {
        let told = match summary {
            Some(summary) => Some(summary.message()),
            None => None,
        };
        assert(tells(view_option(summary), view_option(told)));
        self.prepare_request(system, told.as_ref(), selected, budget)
    }
}

/// Whether a message is the system prompt of an agent, where it has one.
pub open spec fn instructs(agent: AgentView, system: Option<MsgView>) -> bool {
    match (system, agent.system_prompt) {
        (Some(msg), Some(prompt)) => is_new_text_msg(msg, "system"@, Role::System, prompt),
        (None, None) => true,
        _ => false,
    }
}

/// Whether a message tells the model of a summary, where there is one.
pub open spec fn tells(summary: Option<SummaryView>, told: Option<MsgView>) -> bool {
    match (told, summary) {
        (Some(msg), Some(known)) => is_new_text_msg(
            msg,
            "context_summary"@,
            Role::Assistant,
            summary_introduction() + known.text,
        ),
        (None, None) => true,
        _ => false,
    }
}

/// Whether a request, or a failure, is what comes of a selection of the history
/// behind a system message and beside a summary of the rest.
pub open spec fn requested<C: TokenCounter>(
    agent: AgentView,
    budget: Option<&TokenBudget<C>>,
    system: Option<MsgView>,
    summary: Option<SummaryView>,
    selected: Seq<MsgView>,
    outcome: Result<RequestView, AgentErrorView>,
) -> bool {
    exists|told: Option<MsgView>| #[trigger]
        tells(summary, told) && outcome == prepared(agent, system, told, selected, budget)
}

/// A request, or a failure, by their views.
pub open spec fn request_outcome(result: AgentResult<ChatRequest>) -> Result<
    RequestView,
    AgentErrorView,
> {
    match result {
        Ok(request) => Ok(request@),
        Err(error) => Err(error@),
    }
}

/// A request within the budget still holds the system message and the summary, in
/// front of what is left of the history.
pub proof fn instructions_and_summary_are_never_cut<C: TokenCounter>(
    agent: AgentView,
    system: Option<MsgView>,
    summary: Option<MsgView>,
    selected: Seq<MsgView>,
    budget: &TokenBudget<C>,
)
    requires
        prepared(agent, system, summary, selected, Some(budget)) is Ok,
    ensures
        ({
            let request = prepared(agent, system, summary, selected, Some(budget))->Ok_0;
            let fixed = fixed_messages(system, summary);
            &&& request.messages.len() >= fixed
            &&& request.messages.take(fixed as int) == request_messages(
                system,
                summary,
                Seq::empty(),
            )
        }),
{
    let request = request_for(agent, system, summary, selected);
    let fixed = fixed_messages(system, summary);
    let kept = budgeted_requests_fit(
        budget.spec_counter(),
        budget.spec_input_limit(),
        budget.spec_reserved_output(),
        request,
        fixed,
    );
    let result = prepared(agent, system, summary, selected, Some(budget))->Ok_0;
    let head = request.messages.take(fixed as int);
    assert(head =~= request_messages(system, summary, Seq::empty()));
    assert(result.messages.take(fixed as int) =~= head);
}

/// Whether one of some calls needs confirmation.
pub open spec fn needs_confirmation(agent: AgentView, calls: Seq<ToolCallView>) -> bool {
    exists|i: int|
        0 <= i < calls.len() && agent.confirmation_tools.contains((#[trigger] calls[i]).name)
}

/// The first message with an identifier.
pub open spec fn message_index(msgs: Seq<MsgView>, id: Seq<char>) -> Option<int>
    decreases msgs.len(),
{
    if msgs.len() == 0 {
        None
    } else {
        match message_index(msgs.drop_last(), id) {
            Some(index) => Some(index),
            None => if msgs.last().id == id {
                Some(msgs.len() - 1)
            } else {
                None
            },
        }
    }
}

proof fn lemma_message_index_prefix(msgs: Seq<MsgView>, id: Seq<char>, count: int)
    requires
        0 <= count <= msgs.len(),
        message_index(msgs.take(count), id) is Some,
    ensures
        message_index(msgs, id) == message_index(msgs.take(count), id),
    decreases msgs.len() - count,
{
    if count < msgs.len() {
        assert(msgs.take(count + 1).drop_last() =~= msgs.take(count));
        lemma_message_index_prefix(msgs, id, count + 1);
    } else {
        assert(msgs.take(count) =~= msgs);
    }
}

/// The first message with an identifier.
pub(crate) fn find_message(messages: &Vec<Msg>, id: &str) -> (index: Option<usize>)
    ensures
        match index {
            Some(i) => message_index(views(messages@), id@) == Some(i as int) && i < messages@.len(),
            None => message_index(views(messages@), id@) is None,
        },
{
    let ghost msgs = views(messages@);
    let mut i: usize = 0;
    while i < messages.len()
        invariant
            i <= messages@.len(),
            msgs == views(messages@),
            message_index(msgs.take(i as int), id@) is None,
        decreases messages@.len() - i,
    {
        assert(msgs.take(i + 1).drop_last() =~= msgs.take(i as int));
        assert(msgs.take(i + 1).last() == messages@[i as int]@);
        if same_text(messages[i].id.as_str(), id) {
            proof {
                lemma_message_index_prefix(msgs, id@, i + 1);
            }
            return Some(i);
        }
        i += 1;
    }
    assert(msgs.take(msgs.len() as int) =~= msgs);
    None
}

/// What is wrong with a checkpoint in a history, if anything.
pub open spec fn message_fault(msgs: Seq<MsgView>, pending: PendingView) -> Option<AgentErrorView> {
    match message_index(msgs, pending.reply_id) {
        None => Some(
            AgentErrorView::InvalidToolConfirmation(
                "pending reply `"@ + pending.reply_id + "` is missing from memory"@,
            ),
        ),
        Some(index) => if calls_of(msgs[index].content) != pending.calls {
            Some(
                AgentErrorView::InvalidToolConfirmation(
                    "pending calls do not match the stored assistant reply"@,
                ),
            )
        } else {
            None
        },
    }
}

/// What stops a checkpoint from being resumed, if anything.
pub open spec fn checkpoint_fault(
    agent: AgentView,
    msgs: Seq<MsgView>,
    pending: PendingView,
) -> Option<AgentErrorView> {
    match pending_fault(pending) {
        Some(fault) => Some(AgentErrorView::InvalidToolConfirmation(fault)),
        None => if pending.step >= agent.max_steps {
            Some(
                AgentErrorView::InvalidToolConfirmation(
                    "pending tool step "@ + decimal_text(pending.step)
                        + " leaves no model step to resume"@,
                ),
            )
        } else {
            message_fault(msgs, pending)
        },
    }
}

/// What stops a snapshot from being restored, if anything.
pub open spec fn state_fault(agent: AgentView, state: StateView) -> Option<AgentErrorView> {
    if !(1 <= state.format_version <= AGENT_STATE_VERSION) {
        Some(
            AgentErrorView::UnsupportedStateVersion {
                found: state.format_version,
                supported: AGENT_STATE_VERSION,
            },
        )
    } else if state.agent_name != agent.name {
        Some(
            AgentErrorView::StateAgentMismatch {
                expected: agent.name,
                found: state.agent_name,
            },
        )
    } else {
        let pending_part = match state.pending_tool_calls {
            Some(pending) => checkpoint_fault(agent, state.messages, pending),
            None => None,
        };
        match pending_part {
            Some(fault) => Some(fault),
            None => match state.pending_tool_execution {
                None => None,
                Some(execution) => match checkpoint_fault(
                    agent,
                    state.messages,
                    execution.confirmation,
                ) {
                    Some(fault) => Some(fault),
                    None => match confirmation_fault(
                        execution.confirmation.calls,
                        execution.decisions,
                    ) {
                        Some(fault) => Some(AgentErrorView::InvalidToolConfirmation(fault)),
                        None => None,
                    },
                },
            },
        }
    }
}

fn same_option(left: &Option<String>, right: &Option<String>) -> (same: bool)
    ensures
        same == (text_option(*left) == text_option(*right)),
{
    match (left, right) {
        (Some(left), Some(right)) => same_text(left.as_str(), right.as_str()),
        (None, None) => true,
        _ => false,
    }
}

fn same_rule(left: &PermissionRule, right: &PermissionRule) -> (same: bool)
    ensures
        same == (left@ == right@),
{
    same_text(left.tool_name.as_str(), right.tool_name.as_str()) && same_option(
        &left.rule_content,
        &right.rule_content,
    ) && left.behavior == right.behavior && same_text(left.source.as_str(), right.source.as_str())
}

fn same_rules(left: &Vec<PermissionRule>, right: &Vec<PermissionRule>) -> (same: bool)
    ensures
        same == (views(left@) == views(right@)),
{
    let ghost l = views(left@);
    let ghost r = views(right@);
    if left.len() != right.len() {
        assert(l.len() != r.len());
        return false;
    }
    let mut i: usize = 0;
    while i < left.len()
        invariant
            i <= left@.len(),
            left@.len() == right@.len(),
            l == views(left@),
            r == views(right@),
            forall|j: int| 0 <= j < i ==> l[j] == #[trigger] r[j],
        decreases left@.len() - i,
    {
        assert(l[i as int] == left@[i as int]@ && r[i as int] == right@[i as int]@);
        if !same_rule(&left[i], &right[i]) {
            return false;
        }
        i += 1;
    }
    assert(l =~= r);
    true
}

/// Whether two tool calls are the same in every part.
pub fn same_call(left: &ToolCallBlock, right: &ToolCallBlock) -> (same: bool)
    ensures
        same == (left@ == right@),
{
    same_text(left.id(), right.id()) && same_text(left.name(), right.name()) && same_text(
        left.input(),
        right.input(),
    ) && left.state == right.state && same_rules(&left.suggested_rules, &right.suggested_rules)
        && same_text(left.created_at.as_str(), right.created_at.as_str()) && same_option(
        &left.finished_at,
        &right.finished_at,
    )
}

/// Accepts a checkpoint whose calls are those of the message it names.
pub fn validate_checkpoint_message(history: &Vec<Msg>, checkpoint: &PendingToolCalls) -> (result: AgentResult<
    (),
>)
    ensures
        match result {
            Ok(()) => message_fault(views(history@), checkpoint@) is None,
            Err(error) => message_fault(views(history@), checkpoint@) == Some(error@),
        },
{
    let index = match find_message(history, checkpoint.reply_id()) {
        None => {
            return Err(
                AgentError::InvalidToolConfirmation(
                    concat3(
                        "pending reply `",
                        checkpoint.reply_id(),
                        "` is missing from memory",
                    ),
                ),
            );
        },
        Some(index) => index,
    };
    let ghost msg = views(history@)[index as int];
    assert(msg == history@[index as int]@);
    let stored = crate::model::response::tool_calls_in(&history[index].content);
    let pending = checkpoint.calls();
    let ghost s = views(stored@);
    let ghost p = views(pending@);
    let mut same = stored.len() == pending.len();
    if same {
        let mut i: usize = 0;
        while i < stored.len()
            invariant
                i <= stored@.len(),
                stored@.len() == pending@.len(),
                s == views(stored@),
                p == views(pending@),
                same == (forall|j: int| 0 <= j < i ==> s[j] == #[trigger] p[j]),
            decreases stored@.len() - i,
        {
            assert(s[i as int] == stored@[i as int]@ && p[i as int] == pending@[i as int]@);
            if !same_call(stored[i], &pending[i]) {
                same = false;
            }
            i += 1;
        }
        if same {
            assert(s =~= p);
        }
    } else {
        assert(s.len() != p.len());
    }
    if !same {
        return Err(
            AgentError::InvalidToolConfirmation(
                "pending calls do not match the stored assistant reply".to_owned(),
            ),
        );
    }
    Ok(())
}

/// A block with its tool call in a state.
pub open spec fn with_call_state(block: BlockView, state: ToolCallState) -> BlockView {
    match block {
        BlockView::ToolCall(call) => BlockView::ToolCall(ToolCallView { state, ..call }),
        _ => block,
    }
}

/// A message with its tool calls in a state.
pub open spec fn with_calls_in(msg: MsgView, state: ToolCallState) -> MsgView {
    MsgView {
        content: msg.content.map_values(|block: BlockView| with_call_state(block, state)),
        ..msg
    }
}

/// Puts the tool calls of a message into a state.
pub(crate) fn set_call_states(message: &mut Msg, state: ToolCallState)
    ensures
        final(message)@ == with_calls_in(old(message)@, state),
{
    let ghost before = message@;
    let mut i: usize = 0;
    while i < message.content.len()
        invariant
            i <= message.content@.len(),
            message.content@.len() == before.content.len(),
            message@ == (MsgView { content: views(message.content@), ..before }),
            forall|j: int|
                0 <= j < i ==> (#[trigger] message.content@[j])@ == with_call_state(
                    before.content[j],
                    state,
                ),
            forall|j: int|
                i <= j < before.content.len() ==> (#[trigger] message.content@[j])@
                    == before.content[j],
        decreases message.content@.len() - i,
    {
        assert(message.content@[i as int]@ == before.content[i as int]);
        match &mut message.content[i] {
            ContentBlock::ToolCall(call) => {
                call.state = state;
            },
            _ => {},
        }
        i += 1;
    }
    assert(message@.content =~= with_calls_in(before, state).content);
}

/// A history with the calls of a checkpoint's message finished.
pub open spec fn with_finished_calls(msgs: Seq<MsgView>, pending: PendingView) -> Seq<MsgView> {
    match message_index(msgs, pending.reply_id) {
        Some(index) => msgs.update(index, with_calls_in(msgs[index], ToolCallState::Finished)),
        None => msgs,
    }
}

/// Marks the calls of a checkpoint's message as finished.
pub fn finish_checkpoint_calls(history: &mut Vec<Msg>, checkpoint: &PendingToolCalls)
    ensures
        views(final(history)@) == with_finished_calls(views(old(history)@), checkpoint@),
{
    let ghost before = views(history@);
    if let Some(index) = find_message(history, checkpoint.reply_id()) {
        assert(before[index as int] == history@[index as int]@);
        set_call_states(&mut history[index], ToolCallState::Finished);
        assert(views(history@) =~= before.update(
            index as int,
            with_calls_in(before[index as int], ToolCallState::Finished),
        ));
    }
}

/// The blocks of tool results.
pub open spec fn result_blocks(results: Seq<ToolResultView>) -> Seq<BlockView> {
    results.map_values(|result: ToolResultView| BlockView::ToolResult(result))
}

/// Whether a message observes tool results.
pub open spec fn observes(msg: MsgView, results: Seq<ToolResultView>) -> bool {
    is_new_msg(msg, "tool"@, Role::Assistant, result_blocks(results))
}

/// A message that observes tool results.
pub fn observation(results: &Vec<ToolResultBlock>) -> (msg: Msg)
    ensures
        observes(msg@, views(results@)),
{
    let mut content: Vec<ContentBlock> = Vec::new();
    let mut i: usize = 0;
    while i < results.len()
        invariant
            i <= results@.len(),
            content@.len() == i,
            forall|j: int|
                0 <= j < i ==> (#[trigger] content@[j])@ == BlockView::ToolResult(results@[j]@),
        decreases results@.len() - i,
    {
        content.push(ContentBlock::ToolResult(results[i].clone()));
        i += 1;
    }
    assert(views(content@) =~= result_blocks(views(results@)));
    Msg::new("tool", Role::Assistant, content)
}

/// What is said of a tool that was interrupted.
pub open spec fn interrupted_output() -> OutputView {
    OutputView::Text("agent operation was interrupted"@)
}

/// Why a call cannot have a result, if it cannot.
pub open spec fn result_fault(call: ToolCallView, state: ToolResultState) -> Option<AgentErrorView> {
    match finished_error(call.id, call.name, state) {
        Some(error) => Some(AgentErrorView::InvalidModelResponse(result_error_text(error))),
        None => None,
    }
}

/// Why one of some calls cannot have a result: the reason of the first.
pub open spec fn results_fault(calls: Seq<ToolCallView>, state: ToolResultState) -> Option<
    AgentErrorView,
>
    decreases calls.len(),
{
    if calls.len() == 0 {
        None
    } else {
        match results_fault(calls.drop_last(), state) {
            Some(fault) => Some(fault),
            None => result_fault(calls.last(), state),
        }
    }
}

/// Whether results close calls as interrupted, one for one.
pub open spec fn close_interrupted(calls: Seq<ToolCallView>, results: Seq<ToolResultView>) -> bool {
    results.len() == calls.len() && forall|i: int|
        0 <= i < calls.len() ==> is_new_result(
            #[trigger] results[i],
            calls[i].id,
            calls[i].name,
            interrupted_output(),
            ToolResultState::Interrupted,
        )
}

proof fn lemma_results_fault(calls: Seq<ToolCallView>, state: ToolResultState, count: int)
    requires
        0 <= count <= calls.len(),
        results_fault(calls.take(count), state) is Some,
    ensures
        results_fault(calls, state) == results_fault(calls.take(count), state),
    decreases calls.len() - count,
{
    if count < calls.len() {
        assert(calls.take(count + 1).drop_last() =~= calls.take(count));
        lemma_results_fault(calls, state, count + 1);
    } else {
        assert(calls.take(count) =~= calls);
    }
}

/// Results that close calls as interrupted.
pub fn interrupted_tool_results(calls: &Vec<ToolCallBlock>) -> (result: AgentResult<
    Vec<ToolResultBlock>,
>)
    ensures
        match result {
            Ok(results) => results_fault(views(calls@), ToolResultState::Interrupted) is None
                && close_interrupted(views(calls@), views(results@)),
            Err(error) => results_fault(views(calls@), ToolResultState::Interrupted) == Some(
                error@,
            ),
        },
{
    let ghost all = views(calls@);
    let mut results: Vec<ToolResultBlock> = Vec::new();
    let mut i: usize = 0;
    while i < calls.len()
        invariant
            i <= calls@.len(),
            all == views(calls@),
            results@.len() == i,
            results_fault(all.take(i as int), ToolResultState::Interrupted) is None,
            forall|j: int|
                0 <= j < i ==> is_new_result(
                    (#[trigger] results@[j])@,
                    all[j].id,
                    all[j].name,
                    interrupted_output(),
                    ToolResultState::Interrupted,
                ),
        decreases calls@.len() - i,
    {
        assert(all.take(i + 1).drop_last() =~= all.take(i as int));
        assert(all.take(i + 1).last() == calls@[i as int]@);
        match ToolResultBlock::finished(
            calls[i].id(),
            calls[i].name(),
            ToolResultOutput::from("agent operation was interrupted"),
            ToolResultState::Interrupted,
        ) {
            Err(error) => {
                proof {
                    lemma_results_fault(all, ToolResultState::Interrupted, i + 1);
                }
                return Err(AgentError::InvalidModelResponse(error.to_string()));
            },
            Ok(block) => {
                results.push(block);
            },
        }
        i += 1;
    }
    assert(all.take(all.len() as int) =~= all);
    assert forall|j: int| 0 <= j < all.len() implies is_new_result(
        #[trigger] views(results@)[j],
        all[j].id,
        all[j].name,
        interrupted_output(),
        ToolResultState::Interrupted,
    ) by {
        assert(views(results@)[j] == results@[j]@);
    }
    Ok(results)
}

/// Fails where the operation was interrupted.
pub fn ensure_not_interrupted(interrupted: bool) -> (result: AgentResult<()>)
    ensures
        match result {
            Ok(()) => !interrupted,
            Err(error) => interrupted && error@ == AgentErrorView::Interrupted,
        },
{
    if interrupted {
        Err(AgentError::Interrupted)
    } else {
        Ok(())
    }
}

/// The notifications before tool calls.
pub open spec fn before_calls(step: nat, calls: Seq<ToolCallView>) -> Seq<HookEventView> {
    calls.map_values(|call: ToolCallView| HookEventView::BeforeToolCall(step, call))
}

/// The notifications after tool calls.
pub open spec fn after_calls(step: nat, results: Seq<ToolResultView>) -> Seq<HookEventView> {
    results.map_values(|result: ToolResultView| HookEventView::AfterToolCall(step, result))
}

/// The notifications before tool calls.
pub(crate) fn notify_before_calls(step: usize, calls: &Vec<ToolCallBlock>) -> (events: Vec<
    AgentHookEvent,
>)
    ensures
        views(events@) == before_calls(step as nat, views(calls@)),
{
    let mut events: Vec<AgentHookEvent> = Vec::new();
    let mut i: usize = 0;
    while i < calls.len()
        invariant
            i <= calls@.len(),
            events@.len() == i,
            forall|j: int|
                0 <= j < i ==> (#[trigger] events@[j])@ == HookEventView::BeforeToolCall(
                    step as nat,
                    calls@[j]@,
                ),
        decreases calls@.len() - i,
    {
        events.push(AgentHookEvent::BeforeToolCall { step, call: calls[i].clone() });
        i += 1;
    }
    assert(views(events@) =~= before_calls(step as nat, views(calls@)));
    events
}

/// The notifications after tool calls.
pub(crate) fn notify_after_calls(step: usize, results: &Vec<ToolResultBlock>) -> (events: Vec<
    AgentHookEvent,
>)
    ensures
        views(events@) == after_calls(step as nat, views(results@)),
{
    let mut events: Vec<AgentHookEvent> = Vec::new();
    let mut i: usize = 0;
    while i < results.len()
        invariant
            i <= results@.len(),
            events@.len() == i,
            forall|j: int|
                0 <= j < i ==> (#[trigger] events@[j])@ == HookEventView::AfterToolCall(
                    step as nat,
                    results@[j]@,
                ),
        decreases results@.len() - i,
    {
        events.push(AgentHookEvent::AfterToolCall { step, result: results[i].clone() });
        i += 1;
    }
    assert(views(events@) =~= after_calls(step as nat, views(results@)));
    events
}

} // verus!
