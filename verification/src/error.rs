//! Error types.

use vstd::prelude::*;
use crate::text::{decimal, decimal_text, join};
use crate::types::{uuid_text, Duration, GuidelineId, JourneyId, SessionId, StepId, ToolId};

verus! {

/// Errors of a session store.
#[derive(Clone, Debug)]
#[non_exhaustive]
pub enum StorageError {
    Connection(String),
    Query(String),
    Serialization(String),
    Deserialization(String),
    NotFound(String),
    AlreadyExists(String),
    BackendUnavailable(String),
    Internal(String),
}

/// Errors about guidelines.
#[derive(Clone, Debug)]
#[non_exhaustive]
pub enum GuidelineError {
    InvalidCondition(String),
    InvalidAction(String),
    CompilationFailed(String),
    NotFound(GuidelineId),
    AlreadyExists(GuidelineId),
    AmbiguousMatch(Vec<GuidelineId>),
    NoMatch(String),
    Internal(String),
}

/// Errors about tools.
#[derive(Clone, Debug)]
#[non_exhaustive]
pub enum ToolError {
    NotFound(ToolId),
    AlreadyExists(ToolId),
    Timeout { tool_id: ToolId, timeout_ms: u64 },
    ExecutionFailed { tool_id: ToolId, message: String },
    InvalidParameters { tool_id: ToolId, message: String },
    OutputDeserialization(String),
    Internal(String),
}

/// Errors about journeys.
#[derive(Clone, Debug)]
#[non_exhaustive]
pub enum JourneyError {
    NotFound(JourneyId),
    AlreadyExists(JourneyId),
    StepNotFound { journey_id: JourneyId, step_id: StepId },
    InvalidTransition { journey_id: JourneyId, from_step: StepId, to_step: StepId },
    AlreadyStarted(JourneyId),
    NotStarted(JourneyId),
    AlreadyCompleted(JourneyId),
    NoInitialStep(JourneyId),
    CircularJourney(JourneyId),
    Internal(String),
}

/// The error of every operation of the library.
#[derive(Clone, Debug)]
#[non_exhaustive]
pub enum AgentError {
    /// The language-model provider failed.
    LLMProvider(String),
    SessionNotFound(SessionId),
    SessionAlreadyExists(SessionId),
    GuidelineMatch(String),
    GuidelineNotFound(GuidelineId),
    ToolExecution(ToolError),
    JourneyExecution(JourneyError),
    Storage(StorageError),
    Serialization(String),
    Configuration(String),
    InvalidInput(String),
    ToolNotFound(ToolId),
    /// A tool of the same name is registered already.
    ToolAlreadyRegistered(String),
    ToolExecutionFailed { tool_name: String, reason: String },
    InvalidToolParameters { tool_name: String, reason: String },
    ToolTimeout { tool_name: String, timeout: Duration },
    /// A journey is malformed, unknown, or cannot go on.
    Journey(String),
    Internal(String),
}

impl StorageError {
    /// The message of the error.
    pub open spec fn message(self) -> Seq<char> {
        match self {
            StorageError::Connection(detail) => "Storage connection failed: "@ + detail@,
            StorageError::Query(detail) => "Storage query failed: "@ + detail@,
            StorageError::Serialization(detail) => "Storage serialization failed: "@ + detail@,
            StorageError::Deserialization(detail) => "Storage deserialization failed: "@ + detail@,
            StorageError::NotFound(detail) => "Resource not found: "@ + detail@,
            StorageError::AlreadyExists(detail) => "Resource already exists: "@ + detail@,
            StorageError::BackendUnavailable(detail) => "Storage backend not available: "@
                + detail@,
            StorageError::Internal(detail) => "Internal storage error: "@ + detail@,
        }
    }

    /// The message of the error.
    pub fn to_string(&self) -> (text: String)
        ensures
            text@ == self.message(),
    {
        match self {
            StorageError::Connection(detail) =>
                join("Storage connection failed: ", detail.as_str()),
            StorageError::Query(detail) => join("Storage query failed: ", detail.as_str()),
            StorageError::Serialization(detail) =>
                join("Storage serialization failed: ", detail.as_str()),
            StorageError::Deserialization(detail) =>
                join("Storage deserialization failed: ", detail.as_str()),
            StorageError::NotFound(detail) => join("Resource not found: ", detail.as_str()),
            StorageError::AlreadyExists(detail) =>
                join("Resource already exists: ", detail.as_str()),
            StorageError::BackendUnavailable(detail) =>
                join("Storage backend not available: ", detail.as_str()),
            StorageError::Internal(detail) => join("Internal storage error: ", detail.as_str()),
        }
    }
}

impl ToolError {
    /// The message of the error.
    pub open spec fn message(self) -> Seq<char> {
        match self {
            ToolError::NotFound(id) => "Tool not found: "@ + uuid_text(id.value),
            ToolError::AlreadyExists(id) => "Tool already exists: "@ + uuid_text(id.value),
            ToolError::Timeout { tool_id, timeout_ms } => "Tool execution timeout after "@
                + decimal_text(timeout_ms as int) + "ms: "@ + uuid_text(tool_id.value),
            ToolError::ExecutionFailed { tool_id, message } => "Tool execution failed for "@
                + uuid_text(tool_id.value) + ": "@ + message@,
            ToolError::InvalidParameters { tool_id, message } => "Invalid tool parameters for "@
                + uuid_text(tool_id.value) + ": "@ + message@,
            ToolError::OutputDeserialization(detail) => "Tool output deserialization failed: "@
                + detail@,
            ToolError::Internal(detail) => "Internal tool error: "@ + detail@,
        }
    }

    /// The message of the error.
    pub fn to_string(&self) -> (text: String)
        ensures
            text@ == self.message(),
    {
        match self {
            ToolError::NotFound(id) => join("Tool not found: ", id.to_string().as_str()),
            ToolError::AlreadyExists(id) => join("Tool already exists: ", id.to_string().as_str()),
            ToolError::Timeout { tool_id, timeout_ms } => {
                let mut text = join("Tool execution timeout after ", decimal(*timeout_ms as i128).as_str());
                text.append("ms: ");
                text.append(tool_id.to_string().as_str());
                text
            },
            ToolError::ExecutionFailed { tool_id, message } => {
                let mut text = join("Tool execution failed for ", tool_id.to_string().as_str());
                text.append(": ");
                text.append(message.as_str());
                text
            },
            ToolError::InvalidParameters { tool_id, message } => {
                let mut text = join("Invalid tool parameters for ", tool_id.to_string().as_str());
                text.append(": ");
                text.append(message.as_str());
                text
            },
            ToolError::OutputDeserialization(detail) =>
                join("Tool output deserialization failed: ", detail.as_str()),
            ToolError::Internal(detail) => join("Internal tool error: ", detail.as_str()),
        }
    }
}

impl JourneyError {
    /// The message of the error.
    pub open spec fn message(self) -> Seq<char> {
        match self {
            JourneyError::NotFound(id) => "Journey not found: "@ + uuid_text(id.value),
            JourneyError::AlreadyExists(id) => "Journey already exists: "@ + uuid_text(id.value),
            JourneyError::StepNotFound { journey_id, step_id } => "Journey step not found: "@
                + uuid_text(step_id.value) + " in journey "@ + uuid_text(journey_id.value),
            JourneyError::InvalidTransition { journey_id, from_step, to_step } =>
                "Invalid journey transition from step "@ + uuid_text(from_step.value) + " to "@
                + uuid_text(to_step.value) + " in journey "@ + uuid_text(journey_id.value),
            JourneyError::AlreadyStarted(id) => "Journey already started: "@ + uuid_text(id.value),
            JourneyError::NotStarted(id) => "Journey not started: "@ + uuid_text(id.value),
            JourneyError::AlreadyCompleted(id) => "Journey already completed: "@
                + uuid_text(id.value),
            JourneyError::NoInitialStep(id) => "Journey has no initial step: "@
                + uuid_text(id.value),
            JourneyError::CircularJourney(id) => "Circular journey detected: "@
                + uuid_text(id.value),
            JourneyError::Internal(detail) => "Internal journey error: "@ + detail@,
        }
    }

    /// The message of the error.
    pub fn to_string(&self) -> (text: String)
        ensures
            text@ == self.message(),
    {
        match self {
            JourneyError::NotFound(id) => join("Journey not found: ", id.to_string().as_str()),
            JourneyError::AlreadyExists(id) =>
                join("Journey already exists: ", id.to_string().as_str()),
            JourneyError::StepNotFound { journey_id, step_id } => {
                let mut text = join("Journey step not found: ", step_id.to_string().as_str());
                text.append(" in journey ");
                text.append(journey_id.to_string().as_str());
                text
            },
            JourneyError::InvalidTransition { journey_id, from_step, to_step } => {
                let mut text = join("Invalid journey transition from step ", from_step.to_string().as_str());
                text.append(" to ");
                text.append(to_step.to_string().as_str());
                text.append(" in journey ");
                text.append(journey_id.to_string().as_str());
                text
            },
            JourneyError::AlreadyStarted(id) =>
                join("Journey already started: ", id.to_string().as_str()),
            JourneyError::NotStarted(id) => join("Journey not started: ", id.to_string().as_str()),
            JourneyError::AlreadyCompleted(id) =>
                join("Journey already completed: ", id.to_string().as_str()),
            JourneyError::NoInitialStep(id) =>
                join("Journey has no initial step: ", id.to_string().as_str()),
            JourneyError::CircularJourney(id) =>
                join("Circular journey detected: ", id.to_string().as_str()),
            JourneyError::Internal(detail) => join("Internal journey error: ", detail.as_str()),
        }
    }
}

/// The texts of a list of identifiers, each followed by a comma and a
/// space but the last.
pub open spec fn id_list_text(ids: Seq<GuidelineId>) -> Seq<char>
    decreases ids.len(),
{
    if ids.len() == 0 {
        Seq::empty()
    } else if ids.len() == 1 {
        uuid_text(ids[0].value)
    } else {
        id_list_text(ids.drop_last()) + ", "@ + uuid_text(ids.last().value)
    }
}

fn format_id_list(ids: &Vec<GuidelineId>) -> (text: String)
    ensures
        text@ == id_list_text(ids@),
{
    let mut text = String::new();
    let mut i: usize = 0;
    assert(ids@.take(0) =~= Seq::empty());
    while i < ids.len()
        invariant
            i <= ids@.len(),
            text@ == id_list_text(ids@.take(i as int)),
        decreases ids.len() - i,
    {
        proof {
            assert(ids@.take(i + 1).drop_last() =~= ids@.take(i as int));
            assert(ids@.take(i + 1).last() == ids@[i as int]);
            reveal_strlit(", ");
        }
        if i > 0 {
            text.append(", ");
        }
        text.append(ids[i].to_string().as_str());
        proof {
            if i == 0 {
                assert(text@ =~= uuid_text(ids@[0].value));
            }
        }
        i += 1;
    }
    assert(ids@.take(i as int) =~= ids@);
    text
}

impl GuidelineError {
    /// The message of the error.
    pub open spec fn message(self) -> Seq<char> {
        match self {
            GuidelineError::InvalidCondition(detail) => "Invalid guideline condition: "@ + detail@,
            GuidelineError::InvalidAction(detail) => "Invalid guideline action: "@ + detail@,
            GuidelineError::CompilationFailed(detail) => "Guideline compilation failed: "@
                + detail@,
            GuidelineError::NotFound(id) => "Guideline not found: "@ + uuid_text(id.value),
            GuidelineError::AlreadyExists(id) => "Guideline already exists: "@
                + uuid_text(id.value),
            GuidelineError::AmbiguousMatch(ids) =>
                "Multiple guidelines matched with same priority: "@ + id_list_text(ids@),
            GuidelineError::NoMatch(detail) => "No guideline matched for input: "@ + detail@,
            GuidelineError::Internal(detail) => "Internal guideline error: "@ + detail@,
        }
    }

    /// The message of the error.
    pub fn to_string(&self) -> (text: String)
        ensures
            text@ == self.message(),
    {
        match self {
            GuidelineError::InvalidCondition(detail) =>
                join("Invalid guideline condition: ", detail.as_str()),
            GuidelineError::InvalidAction(detail) =>
                join("Invalid guideline action: ", detail.as_str()),
            GuidelineError::CompilationFailed(detail) =>
                join("Guideline compilation failed: ", detail.as_str()),
            GuidelineError::NotFound(id) => join("Guideline not found: ", id.to_string().as_str()),
            GuidelineError::AlreadyExists(id) =>
                join("Guideline already exists: ", id.to_string().as_str()),
            GuidelineError::AmbiguousMatch(ids) =>
                join("Multiple guidelines matched with same priority: ", format_id_list(ids).as_str()),
            GuidelineError::NoMatch(detail) =>
                join("No guideline matched for input: ", detail.as_str()),
            GuidelineError::Internal(detail) => join("Internal guideline error: ", detail.as_str()),
        }
    }
}

impl AgentError {
    /// The message of the error.
    pub open spec fn message(self) -> Seq<char> {
        match self {
            AgentError::LLMProvider(detail) => "LLM provider error: "@ + detail@,
            AgentError::SessionNotFound(id) => "Session not found: "@ + uuid_text(id.value),
            AgentError::SessionAlreadyExists(id) => "Session already exists: "@
                + uuid_text(id.value),
            AgentError::GuidelineMatch(detail) => "Guideline matching failed: "@ + detail@,
            AgentError::GuidelineNotFound(id) => "Guideline not found: "@ + uuid_text(id.value),
            AgentError::ToolExecution(inner) => "Tool execution error: "@ + inner.message(),
            AgentError::JourneyExecution(inner) => "Journey execution error: "@ + inner.message(),
            AgentError::Storage(inner) => "Storage error: "@ + inner.message(),
            AgentError::Serialization(detail) => "Serialization error: "@ + detail@,
            AgentError::Configuration(detail) => "Configuration error: "@ + detail@,
            AgentError::InvalidInput(detail) => "Invalid input: "@ + detail@,
            AgentError::ToolNotFound(id) => "Tool not found: "@ + uuid_text(id.value),
            AgentError::ToolAlreadyRegistered(detail) => "Tool already registered: "@ + detail@,
            AgentError::ToolExecutionFailed { tool_name, reason } => "Tool execution failed for "@
                + tool_name@ + ": "@ + reason@,
            AgentError::InvalidToolParameters { tool_name, reason } =>
                "Invalid tool parameters for "@ + tool_name@ + ": "@ + reason@,
            AgentError::ToolTimeout { tool_name, timeout } => "Tool execution timeout for "@
                + tool_name@ + " after "@ + decimal_text(timeout.millis()) + "ms"@,
            AgentError::Journey(detail) => "Journey execution error: "@ + detail@,
            AgentError::Internal(detail) => "Internal error: "@ + detail@,
        }
    }

    /// The message of the error.
    pub fn to_string(&self) -> (text: String)
        ensures
            text@ == self.message(),
    {
        match self {
            AgentError::LLMProvider(detail) => join("LLM provider error: ", detail.as_str()),
            AgentError::SessionNotFound(id) => join("Session not found: ", id.to_string().as_str()),
            AgentError::SessionAlreadyExists(id) =>
                join("Session already exists: ", id.to_string().as_str()),
            AgentError::GuidelineMatch(detail) =>
                join("Guideline matching failed: ", detail.as_str()),
            AgentError::GuidelineNotFound(id) =>
                join("Guideline not found: ", id.to_string().as_str()),
            AgentError::ToolExecution(inner) =>
                join("Tool execution error: ", inner.to_string().as_str()),
            AgentError::JourneyExecution(inner) =>
                join("Journey execution error: ", inner.to_string().as_str()),
            AgentError::Storage(inner) => join("Storage error: ", inner.to_string().as_str()),
            AgentError::Serialization(detail) => join("Serialization error: ", detail.as_str()),
            AgentError::Configuration(detail) => join("Configuration error: ", detail.as_str()),
            AgentError::InvalidInput(detail) => join("Invalid input: ", detail.as_str()),
            AgentError::ToolNotFound(id) => join("Tool not found: ", id.to_string().as_str()),
            AgentError::ToolAlreadyRegistered(detail) =>
                join("Tool already registered: ", detail.as_str()),
            AgentError::ToolExecutionFailed { tool_name, reason } => {
                let mut text = join("Tool execution failed for ", tool_name.as_str());
                text.append(": ");
                text.append(reason.as_str());
                text
            },
            AgentError::InvalidToolParameters { tool_name, reason } => {
                let mut text = join("Invalid tool parameters for ", tool_name.as_str());
                text.append(": ");
                text.append(reason.as_str());
                text
            },
            AgentError::ToolTimeout { tool_name, timeout } => {
                let mut text = join("Tool execution timeout for ", tool_name.as_str());
                text.append(" after ");
                text.append(decimal(timeout.as_millis() as i128).as_str());
                text.append("ms");
                text
            },
            AgentError::Journey(detail) => join("Journey execution error: ", detail.as_str()),
            AgentError::Internal(detail) => join("Internal error: ", detail.as_str()),
        }
    }
}

} // verus!
