//! The agents that process prompts and responses, and their coordinator.

pub mod coordinator;
pub mod prompt_agent;
pub mod response_agent;
pub mod shared;

pub use coordinator::AgentCoordinator;
pub use prompt_agent::PromptAgent;
pub use response_agent::ResponseAgent;
