//! Agent state, events and decisions.
pub mod asking;
pub mod compact;
pub mod compaction;
pub mod condensing;
pub mod conduct;
pub mod confirmation;
pub mod decided;
pub mod error;
pub mod event;
pub mod forms;
pub mod hook;
pub mod interrupt;
pub mod keeping;
pub mod mending;
pub mod progress;
pub mod react;
pub mod recovery;
pub mod reply;
pub mod resume;
pub mod session;
pub mod state;
pub mod store;
pub mod stream;
pub mod telling;
pub mod wire;

pub use confirmation::{
    PendingToolCalls, PendingToolExecution, ToolConfirmation, ToolConfirmationDecision,
};
pub use error::{AgentError, AgentResult};
pub use event::AgentEvent;
pub use hook::{AgentHookError, AgentHookEvent};
pub use interrupt::{AgentInterruptToken, InterruptSignal};
pub use react::ReActAgent;
pub use state::{AgentState, AGENT_STATE_VERSION};
pub use store::{InMemoryStateStore, StateKey, StateRecord, StateStoreError, StateStoreResult};
