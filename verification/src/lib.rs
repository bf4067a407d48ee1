//! Talk: the decision core of a conversational agent.
//!
//! The library selects a behavioural guideline for each user message, keeps
//! the registry of tools and validates their parameters, drives multi-step
//! journeys, and decides each step of the message-processing pipeline. The
//! work that must wait on the outside world (model calls, tool bodies,
//! timers, storage back ends) is performed by the embedding application,
//! which feeds the outcomes back into the state machines defined here.

pub mod types;
pub mod text;
pub mod lookup;
pub mod textmap;
pub mod json;
pub mod pattern;
pub mod error;
pub mod grouping;
pub mod variable;
pub mod context;
pub mod session;
pub mod storage;
pub mod guideline;
pub mod matcher;
pub mod journey;
pub mod validation;
pub mod journey_manager;
pub mod tool;
pub mod registry;
pub mod agent;
pub mod turn;
pub mod laws;

pub use agent::{
    default_enable_explainability, default_max_context_messages, default_tool_timeout, Agent,
    AgentBuilder, AgentConfig, AgentResponse, LogLevel, ResponseExplanation, ToolExecution,
};
pub use context::{default_max_messages, messages_to_provider_format, Context, Message, MessageRole};
pub use error::{AgentError, GuidelineError, JourneyError, StorageError, ToolError};
pub use guideline::{
    extract_parameters, Guideline, GuidelineAction, GuidelineCondition, GuidelineMatch,
    ParameterDef, Score,
};
pub use journey::{
    evaluate_condition, find_next_step, Journey, JourneyState, JourneyStep, Transition,
    TransitionCondition,
};
pub use journey_manager::DefaultJourneyManager;
pub use json::{JsonKind, JsonValue};
pub use matcher::{DefaultGuidelineMatcher, PatternIndex};
pub use registry::{backoff, execute_with_retry, RetryDecision, ToolRegistry};
pub use session::{Session, SessionStatus};
pub use storage::InMemorySessionStore;
pub use textmap::TextMap;
pub use tool::{validate_type, ParameterSchema, Tool, ToolResult};
pub use turn::{GuidelinePlan, Turn, TurnAction, TurnEvent, TurnPhase};
pub use types::{
    AgentId, Duration, GuidelineId, JourneyId, MessageId, SessionId, StepId, Timestamp, ToolId,
};
pub use validation::validate_journey;
pub use variable::{ContextVariable, Validator};
