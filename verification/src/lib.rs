//! A minimal multi-agent conversation engine.
//!
//! Named participants exchange turns of structured content (free text or a
//! structured function invocation) against a shared, append-only conversation
//! history, with a pluggable termination predicate and a registry of callable
//! functions that an agent may invoke mid-conversation.

pub mod json;
pub mod message;
pub mod conversation;
pub mod errors;
pub mod function;
pub mod registry;
pub mod multicall;
pub mod instruction;
pub mod agent;
pub mod models;
pub mod executor;

pub use json::{JsonValue, ValueView};
pub use message::{Content, ContentView, FunctionCall, CallView, Message, MessageView};
pub use conversation::{Conversation, ConversationView};
pub use errors::EngineError;
pub use function::{AgentFunction, FunctionBehavior, FunctionParameter, ParameterType};
pub use registry::FunctionsRegistry;
pub use multicall::MultiCall;
pub use instruction::Instruction;
pub use agent::{Agent, AutoAgent, LengthLimit, MarkerLimit, ModelClient, Notification};
pub use executor::FunctionExecutorAgent;
