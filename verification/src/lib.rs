//! AgentScope: messages, model exchanges, agent state and context management.
pub mod agent;
pub mod assoc;
pub mod context;
pub mod json;
pub mod memory;
pub mod message;
pub mod model;
pub mod pipeline;
pub mod text;
pub mod time;
pub mod tool;
pub mod view;
pub mod wording;

use vstd::prelude::*;

pub use agent::{AgentError, AgentEvent, AgentResult, ReActAgent};
pub use memory::{InMemoryMemory, MemoryError, MemoryResult};
pub use message::{
    Base64Source, ContentBlock, DataBlock, DataBlockError, DataSource, Metadata, Msg,
    PermissionBehavior, PermissionRule, Role, StructuredOutputBlock, StructuredOutputError,
    StructuredOutputState, TextBlock, ThinkingBlock, ThinkingBlockError, ToolCallBlock,
    ToolCallError, ToolCallState, ToolResultBlock, ToolResultContent, ToolResultError,
    ToolResultOutput, ToolResultState, UrlSource, Usage,
};
pub use model::{
    ChatEvent, ChatRequest, ChatRequestError, ChatResponse, ChatResponseAccumulator,
    ChatStreamError, FinishReason, GenerateOptions, MockChatModel, ModelCapabilities,
    ModelCapability, ModelError, ModelResult, OpenAIChatModel, OpenAIChatModelBuilder,
    OpenAIConfigError, RetryPolicy, ToolDefinition,
};
pub use tool::ToolError;

verus! {

/// The current crate version.
pub const VERSION: &'static str = "0.1.0";

} // verus!
