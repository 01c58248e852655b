//! Deterministic mock chat model for tests and examples.
use std::collections::VecDeque;
use vstd::prelude::*;

use super::capabilities::ModelCapabilities;
use super::event::{ChatEvent, ModelError, ModelErrorView, ModelResult};
use super::request::{ChatRequest, RequestView};
use super::response::ChatResponse;
use crate::view::{lemma_views_push, views};

verus! {

/// A deterministic model backed by queues of scripted outputs.
#[derive(Debug)]
pub struct MockChatModel {
    pub(crate) name: String,
    pub(crate) capabilities: ModelCapabilities,
    pub(crate) responses: VecDeque<ModelResult<ChatResponse>>,
    pub(crate) streams: VecDeque<ModelResult<Vec<ModelResult<ChatEvent>>>>,
    pub(crate) requests: Vec<ChatRequest>,
}

/// What a mock still has to say, and what it was asked.
#[verifier::ext_equal]
pub struct MockView {
    pub name: Seq<char>,
    pub capabilities: ModelCapabilities,
    pub responses: Seq<ModelResult<ChatResponse>>,
    pub streams: Seq<ModelResult<Vec<ModelResult<ChatEvent>>>>,
    pub requests: Seq<RequestView>,
}

impl View for MockChatModel {
    type V = MockView;

    open(crate) spec fn view(&self) -> MockView {
        MockView {
            name: self.name@,
            capabilities: self.capabilities,
            responses: self.responses@,
            streams: self.streams@,
            requests: views(self.requests@),
        }
    }
}

/// The first item of a queue, or the failure of an empty queue.
pub open spec fn next_scripted<T>(queue: Seq<ModelResult<T>>, result: ModelResult<T>, message: Seq<char>) -> bool {
    if queue.len() > 0 {
        result == queue[0]
    } else {
        result matches Err(error) && error@ == (ModelErrorView {
            message,
            code: None,
            retryable: false,
        })
    }
}

/// A queue without its first item.
pub open spec fn rest<T>(queue: Seq<T>) -> Seq<T> {
    if queue.len() > 0 {
        queue.drop_first()
    } else {
        queue
    }
}

impl MockChatModel {
    /// Creates a mock with all current capabilities enabled.
    pub fn new(name: &str) -> (mock: MockChatModel)
        ensures
            mock@.name == name@,
            forall|capability: super::capabilities::ModelCapability| #[trigger]
                (mock@.capabilities@)(capability),
            mock@.responses.len() == 0,
            mock@.streams.len() == 0,
            mock@.requests.len() == 0,
    {
        MockChatModel {
            name: name.to_owned(),
            capabilities: ModelCapabilities::all(),
            responses: VecDeque::new(),
            streams: VecDeque::new(),
            requests: Vec::new(),
        }
    }

    /// Replaces the capabilities advertised by this mock.
    pub fn with_capabilities(self, capabilities: ModelCapabilities) -> (mock: MockChatModel)
        ensures
            mock@ == (MockView { capabilities, ..self@ }),
    {
        let mut mock = self;
        mock.capabilities = capabilities;
        mock
    }

    /// Adds a successful complete response to the script.
    pub fn with_response(self, response: ChatResponse) -> (mock: MockChatModel)
        ensures
            mock@ == (MockView { responses: self@.responses.push(Ok(response)), ..self@ }),
    {
        let mut mock = self;
        mock.push_response(Ok(response));
        mock
    }

    /// Adds a complete-call failure to the script.
    pub fn with_error(self, error: ModelError) -> (mock: MockChatModel)
        ensures
            mock@ == (MockView { responses: self@.responses.push(Err(error)), ..self@ }),
    {
        let mut mock = self;
        mock.push_response(Err(error));
        mock
    }

    /// Adds a successful event stream to the script.
    pub fn with_stream(self, events: Vec<ModelResult<ChatEvent>>) -> (mock: MockChatModel)
        ensures
            mock@ == (MockView { streams: self@.streams.push(Ok(events)), ..self@ }),
    {
        let mut mock = self;
        mock.push_stream(Ok(events));
        mock
    }

    /// Adds a failure that occurs while starting a stream.
    pub fn with_stream_error(self, error: ModelError) -> (mock: MockChatModel)
        ensures
            mock@ == (MockView { streams: self@.streams.push(Err(error)), ..self@ }),
    {
        let mut mock = self;
        mock.push_stream(Err(error));
        mock
    }

    /// Queues a complete-call result.
    pub fn push_response(&mut self, response: ModelResult<ChatResponse>)
        ensures
            final(self)@ == (MockView {
                responses: old(self)@.responses.push(response),
                ..old(self)@
            }),
    {
        self.responses.push_back(response);
    }

    /// Queues a stream-start result.
    pub fn push_stream(&mut self, stream: ModelResult<Vec<ModelResult<ChatEvent>>>)
        ensures
            final(self)@ == (MockView { streams: old(self)@.streams.push(stream), ..old(self)@ }),
    {
        self.streams.push_back(stream);
    }

    /// All requests in invocation order.
    pub fn recorded_requests(&self) -> (requests: Vec<ChatRequest>)
        ensures
            views(requests@) == self@.requests,
    {
        let requests = self.requests.clone();
        assert(views(requests@) =~= views(self.requests@));
        requests
    }

    /// The configured model name.
    pub fn name(&self) -> (name: &str)
        ensures
            name@ == self@.name,
    {
        self.name.as_str()
    }

    /// The advertised capabilities.
    pub fn capabilities(&self) -> (capabilities: ModelCapabilities)
        ensures
            capabilities == self@.capabilities,
    {
        self.capabilities
    }

    /// Records a request and takes the next scripted complete response.
    pub fn generate(&mut self, request: ChatRequest) -> (result: ModelResult<ChatResponse>)
        ensures
            next_scripted(
                old(self)@.responses,
                result,
                "mock has no scripted complete response remaining"@,
            ),
            final(self)@ == (MockView {
                responses: rest(old(self)@.responses),
                requests: old(self)@.requests.push(request@),
                ..old(self)@
            }),
    {
        self.record(request);
        match self.responses.pop_front() {
            Some(result) => result,
            None => Err(ModelError::new("mock has no scripted complete response remaining")),
        }
    }

    /// Records a request and takes the next scripted event stream.
    pub fn stream(&mut self, request: ChatRequest) -> (result: ModelResult<
        Vec<ModelResult<ChatEvent>>,
    >)
        ensures
            next_scripted(
                old(self)@.streams,
                result,
                "mock has no scripted event stream remaining"@,
            ),
            final(self)@ == (MockView {
                streams: rest(old(self)@.streams),
                requests: old(self)@.requests.push(request@),
                ..old(self)@
            }),
    {
        self.record(request);
        match self.streams.pop_front() {
            Some(result) => result,
            None => Err(ModelError::new("mock has no scripted event stream remaining")),
        }
    }

    fn record(&mut self, request: ChatRequest)
        ensures
            final(self)@ == (MockView {
                requests: old(self)@.requests.push(request@),
                ..old(self)@
            }),
    {
        proof {
            lemma_views_push(self.requests@, request);
        }
        self.requests.push(request);
    }
}

/// Scripted results are given in the order in which they were scripted, each once;
/// behind the last one there is a failure that no retry helps.
pub proof fn scripted_results_come_in_order<T>(
    first: ModelResult<T>,
    later: Seq<ModelResult<T>>,
    result: ModelResult<T>,
    message: Seq<char>,
)
    ensures
        next_scripted(seq![first] + later, result, message) ==> result == first,
        rest(seq![first] + later) == later,
        next_scripted(Seq::empty(), result, message) ==> result is Err && result->Err_0@.message
            == message && !result->Err_0@.retryable,
{
    assert(rest(seq![first] + later) =~= later);
}

} // verus!
