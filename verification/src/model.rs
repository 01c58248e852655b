//! Provider-neutral chat model requests, responses and streams.

pub mod accumulator;
pub mod capabilities;
pub mod event;
pub mod gathering;
pub mod mock;
pub mod openai;
pub mod request;
pub mod response;


pub use accumulator::{ChatResponseAccumulator, ChatStreamError};
pub use capabilities::{ModelCapabilities, ModelCapability};
pub use event::{ChatEvent, ModelError, ModelResult};
pub use mock::MockChatModel;
pub use request::{ChatRequest, ChatRequestError, GenerateOptions, ToolDefinition};
pub use response::{ChatResponse, FinishReason};
pub use openai::retry::RetryPolicy;
pub use openai::{OpenAIChatModel, OpenAIChatModelBuilder, OpenAIConfigError};
