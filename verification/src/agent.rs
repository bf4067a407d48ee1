//! The agent: the guideline matcher, the tool registry, the journey manager
//! and the journeys in progress under one roof.

use vstd::prelude::*;
use std::collections::HashMap;
use crate::error::AgentError;
use crate::guideline::{Guideline, GuidelineAction, GuidelineCondition, GuidelineMatch, Score};
use crate::journey::{with_step, Journey, JourneyState, JourneyStep};
use crate::journey_manager::{step_outcome, DefaultJourneyManager, StepOutcome};
use crate::json::JsonValue;
use crate::matcher::DefaultGuidelineMatcher;
use crate::registry::ToolRegistry;
use crate::textmap::TextMap;
use crate::tool::Tool;
use crate::types::{AgentId, Duration, GuidelineId, JourneyId, SessionId, StepId, Timestamp, ToolId};
use crate::validation::valid_journey;

verus! {

/// How much the agent logs.
#[derive(Clone, Copy, Debug, PartialEq, Eq, Structural)]
pub enum LogLevel {
    Trace,
    Debug,
    Info,
    Warn,
    Error,
}

impl Default for LogLevel {
    fn default() -> (level: Self)
        ensures
            level == LogLevel::Info,
    {
        LogLevel::Info
    }
}

/// The settings of an agent.
#[derive(Clone, Copy, Debug, PartialEq, Eq, Structural)]
pub struct AgentConfig {
    pub max_context_messages: usize,
    pub default_tool_timeout: Duration,
    pub enable_explainability: bool,
    pub log_level: LogLevel,
}

/// The number of messages an agent keeps in a context by default.
pub fn default_max_context_messages() -> (limit: usize)
    ensures
        limit == 100,
{
    100
}

/// The time a tool is given by default: 30 seconds.
pub fn default_tool_timeout() -> (timeout: Duration)
    ensures
        timeout == (Duration { secs: 30, nanos: 0 }),
{
    Duration::from_secs(30)
}

/// Whether responses carry an explanation by default.
pub fn default_enable_explainability() -> (enabled: bool)
    ensures
        enabled,
{
    true
}

impl Default for AgentConfig {
    fn default() -> (config: Self)
        ensures
            config == (AgentConfig {
                max_context_messages: 100,
                default_tool_timeout: Duration { secs: 30, nanos: 0 },
                enable_explainability: true,
                log_level: LogLevel::Info,
            }),
    {
        AgentConfig {
            max_context_messages: default_max_context_messages(),
            default_tool_timeout: default_tool_timeout(),
            enable_explainability: default_enable_explainability(),
            log_level: LogLevel::Info,
        }
    }
}

/// The record of one tool that was executed for a response.
#[derive(Clone, Debug)]
pub struct ToolExecution {
    pub tool_id: ToolId,
    pub duration: Duration,
}

/// Why the agent answered as it did.
#[derive(Clone, Debug)]
pub struct ResponseExplanation {
    pub guideline_matches: Vec<GuidelineMatch>,
    pub reasoning: String,
    pub confidence: Score,
}

/// The answer to one message.
#[derive(Clone, Debug)]
pub struct AgentResponse {
    pub message: String,
    pub matched_guideline: Option<GuidelineMatch>,
    pub tools_used: Vec<ToolExecution>,
    pub journey_step: Option<StepId>,
    pub context_updates: TextMap<JsonValue>,
    pub explanation: Option<ResponseExplanation>,
}

/// The priority of the fallback guideline.
pub const FALLBACK_PRIORITY: i32 = -1;

/// The relevance reported for the fallback guideline: 0.5.
pub const FALLBACK_RELEVANCE: i32 = 500_000;

/// An agent.
pub struct Agent {
    pub id: AgentId,
    pub name: String,
    pub description: Option<String>,
    pub guideline_matcher: DefaultGuidelineMatcher,
    pub tool_registry: ToolRegistry,
    pub journey_manager: DefaultJourneyManager,
    pub journey_states: HashMap<u128, JourneyState>,
    pub fallback_guideline: Guideline,
    pub config: AgentConfig,
    pub created_at: Timestamp,
    pub updated_at: Timestamp,
}

/// The effect of processing one step on the state of a journey: the step
/// that was current is recorded as completed; where the step handed back is
/// the current one the journey is complete, otherwise that step becomes the
/// current one.
pub open spec fn progressed(before: JourneyState, next: StepId, after: JourneyState) -> bool {
    &&& after.journey_id == before.journey_id
    &&& after.completed_steps@ == with_step(before.completed_steps@, before.current_step)
    &&& after.started_at == before.started_at
    &&& after.metadata == before.metadata
    &&& if next == before.current_step {
        after.is_complete && after.completed_at is Some && after.current_step
            == before.current_step
    } else {
        after.is_complete == before.is_complete && after.completed_at == before.completed_at
            && after.current_step == next
    }
}

/// What processing a step yields for the session: an error where the
/// session is in no journey or the journey is not registered, and else the
/// outcome of the step in an empty context.
pub open spec fn journey_step_outcome(agent: Agent, session_id: SessionId, message: Seq<char>) -> StepOutcome {
    if !agent.journey_states@.contains_key(session_id.value) {
        StepOutcome::Fails("No active journey for session"@)
    } else {
        let state = agent.journey_states@[session_id.value];
        if !agent.journey_manager.catalog().contains_key(state.journey_id.value) {
            StepOutcome::Fails("Journey not found"@)
        } else {
            step_outcome(
                agent.journey_manager.catalog()[state.journey_id.value],
                state.current_step,
                message,
                Map::empty(),
            )
        }
    }
}

impl Agent {
    /// The parts of the agent are well formed.
    pub open spec fn wf(&self) -> bool {
        &&& self.guideline_matcher.wf()
        &&& self.tool_registry.wf()
        &&& self.journey_manager.wf()
    }

    /// A builder for an agent.
    pub fn builder() -> (builder: AgentBuilder)
        ensures
            builder.name is None,
            builder.description is None,
            builder.config == (AgentConfig {
                max_context_messages: 100,
                default_tool_timeout: Duration { secs: 30, nanos: 0 },
                enable_explainability: true,
                log_level: LogLevel::Info,
            }),
    {
        AgentBuilder::new()
    }

    /// Adds a guideline to the matcher.
    pub fn add_guideline(&mut self, guideline: Guideline) -> (added: Result<GuidelineId, AgentError>)
        requires
            old(self).wf(),
        ensures
            final(self).wf(),
            added is Ok <==> crate::guideline::indexable(
                old(self).guideline_matcher.rules().push(guideline),
            ),
            added matches Ok(id) ==> id == guideline.id && final(self).guideline_matcher.rules()
                == old(self).guideline_matcher.rules().push(guideline),
            added is Err ==> final(self).guideline_matcher.rules()
                == old(self).guideline_matcher.rules(),
            added matches Err(error) ==> (error matches AgentError::GuidelineMatch(text) && text@
                == crate::matcher::unindexable_message()),
            final(self).tool_registry == old(self).tool_registry,
            final(self).journey_manager == old(self).journey_manager,
            final(self).journey_states == old(self).journey_states,
    {
        self.guideline_matcher.add_guideline(guideline)
    }

    /// Registers a tool.
    pub fn add_tool(&mut self, tool: Tool) -> (added: Result<ToolId, AgentError>)
        requires
            old(self).wf(),
        ensures
            final(self).wf(),
            added is Err <==> old(self).tool_registry.names().contains_key(tool.name@),
            added matches Ok(id) ==> id == tool.id && final(self).tool_registry.tools()
                == crate::registry::with_tool(old(self).tool_registry.tools(), tool)
                    && final(self).tool_registry.names() == old(self).tool_registry.names().insert(
                tool.name@,
                tool.id,
            ),
            added matches Err(error) ==> (error matches AgentError::ToolAlreadyRegistered(name)
                && name@ == tool.name@),
            added is Err ==> final(self).tool_registry.tools() == old(self).tool_registry.tools()
                && final(self).tool_registry.names() == old(self).tool_registry.names(),
            final(self).guideline_matcher == old(self).guideline_matcher,
            final(self).journey_manager == old(self).journey_manager,
            final(self).journey_states == old(self).journey_states,
    {
        self.tool_registry.register(tool)
    }

    /// Registers a journey, if it is well formed.
    pub fn add_journey(&mut self, journey: Journey) -> (added: Result<JourneyId, AgentError>)
        requires
            old(self).wf(),
        ensures
            final(self).wf(),
            added is Ok <==> valid_journey(journey),
            added matches Ok(id) ==> id == journey.id && final(self).journey_manager.catalog()
                == old(self).journey_manager.catalog().insert(journey.id.value, journey),
            added is Err ==> final(self).journey_manager.catalog()
                == old(self).journey_manager.catalog(),
            added matches Err(error) ==> (error matches AgentError::Journey(text)
                && crate::validation::rejection(journey, text@)),
            final(self).guideline_matcher == old(self).guideline_matcher,
            final(self).tool_registry == old(self).tool_registry,
            final(self).journey_states == old(self).journey_states,
    {
        self.journey_manager.add_journey(journey)
    }

    /// Begins the journey `journey_id` for the session, in place of any
    /// journey the session was in, and hands out the fresh state.
    pub fn start_journey(&mut self, session_id: &SessionId, journey_id: &JourneyId) -> (started:
        Result<&JourneyState, AgentError>)
        requires
            old(self).wf(),
        ensures
            final(self).wf(),
            started is Ok <==> old(self).journey_manager.catalog().contains_key(journey_id.value),
            started matches Ok(state) ==> state.journey_id == *journey_id && state.current_step
                == old(self).journey_manager.catalog()[journey_id.value].initial_step
                && state.completed_steps@.len() == 0 && !state.is_complete
                    && final(self).journey_states@
                    == old(self).journey_states@.insert(
                session_id.value,
                *state,
            ),
            started is Err ==> final(self).journey_states == old(self).journey_states,
            started matches Err(error) ==> (error matches AgentError::Journey(text) && text@
                == crate::journey_manager::unknown_journey_message(*journey_id)),
            final(self).guideline_matcher == old(self).guideline_matcher,
            final(self).tool_registry == old(self).tool_registry,
            final(self).journey_manager == old(self).journey_manager,
    {
        match self.journey_manager.start_journey(session_id, journey_id) {
            Err(error) => Err(error),
            Ok(state) => {
                self.journey_states.insert(session_id.value, state);
                assert(self.journey_states@.contains_key(session_id.value));
                match self.journey_states.get(&session_id.value) {
                    Some(stored) => Ok(stored),
                    None => {
                        assert(false);
                        Err(AgentError::Internal("journey state was not stored".to_owned()))
                    },
                }
            },
        }
    }

    /// The state of the journey the session is in.
    pub fn get_journey_state(&self, session_id: &SessionId) -> (found: Result<
        Option<&JourneyState>,
        AgentError,
    >)
        ensures
            found matches Ok(state) && (state is Some <==> self.journey_states@.contains_key(session_id.value)) && (state matches Some(held) ==> *held == self.journey_states@[session_id.value]),
    {
        Ok(self.journey_states.get(&session_id.value))
    }

    /// Processes one step of the journey the session is in. The manager
    /// names the step to go on with; the state of the journey records the
    /// step that was current as completed and either moves on to the step
    /// named or, where that is the current step, becomes complete.
    pub fn process_journey_step(&mut self, session_id: &SessionId, message: &str) -> (processed:
        Result<&JourneyStep, AgentError>)
        requires
            old(self).wf(),
        ensures
            final(self).wf(),
            final(self).guideline_matcher == old(self).guideline_matcher,
            final(self).tool_registry == old(self).tool_registry,
            final(self).journey_manager == old(self).journey_manager,
            processed is Err ==> final(self).journey_states == old(self).journey_states,
            match journey_step_outcome(*old(self), *session_id, message@) {
                StepOutcome::Fails(reason) => processed matches Err(AgentError::Journey(text))
                    && text@ == reason,
                StepOutcome::Goes(step) => {
                    &&& processed matches Ok(next)
                    &&& *next == step
                    &&& final(self).journey_states@.contains_key(session_id.value)
                    &&& progressed(
                        old(self).journey_states@[session_id.value],
                        step.id,
                        final(self).journey_states@[session_id.value],
                    )
                    &&& final(self).journey_states@.remove(session_id.value)
                        == old(self).journey_states@.remove(session_id.value)
                },
            },
    {
        let (journey_id, current) = match self.journey_states.get(&session_id.value) {
            Some(state) => (state.journey_id, state.current_step),
            None => {
                return Err(AgentError::Journey("No active journey for session".to_owned()));
            },
        };
        let next = match self.journey_manager.process_step(&journey_id, current, message) {
            Ok(next) => next,
            Err(error) => {
                return Err(error);
            },
        };
        let next_id = next.id;
        let ghost before = self.journey_states@[session_id.value];
        let ghost others = self.journey_states@.remove(session_id.value);
        let taken = self.journey_states.remove(&session_id.value);
        assert(taken is Some);
        let mut state = taken.unwrap();
        state.complete_step(current);
        if next_id == current {
            state.mark_complete();
        } else {
            state.current_step = next_id;
        }
        self.journey_states.insert(session_id.value, state);
        proof {
            assert(self.journey_states@.remove(session_id.value) =~= others);
        }
        Ok(next)
    }

    /// Ends the journey the session is in; a session without a journey
    /// stays as it is.
    pub fn end_journey(&mut self, session_id: &SessionId) -> (ended: Result<(), AgentError>)
        requires
            old(self).wf(),
        ensures
            final(self).wf(),
            ended is Ok,
            final(self).journey_states@ == old(self).journey_states@.remove(
                session_id.value,
            ),
            final(self).guideline_matcher == old(self).guideline_matcher,
            final(self).tool_registry == old(self).tool_registry,
            final(self).journey_manager == old(self).journey_manager,
    {
        self.journey_states.remove(&session_id.value);
        Ok(())
    }
}

/// Collects the parts of an agent.
pub struct AgentBuilder {
    pub name: Option<String>,
    pub description: Option<String>,
    pub config: AgentConfig,
}

/// The text of the fallback response.
pub open spec fn fallback_text() -> Seq<char> {
    "I'm not sure how to help with that. Could you please rephrase your question?"@
}

impl AgentBuilder {
    /// A builder with the default settings and no name.
    pub fn new() -> (builder: Self)
        ensures
            builder.name is None,
            builder.description is None,
            builder.config == (AgentConfig {
                max_context_messages: 100,
                default_tool_timeout: Duration { secs: 30, nanos: 0 },
                enable_explainability: true,
                log_level: LogLevel::Info,
            }),
    {
        AgentBuilder { name: None, description: None, config: AgentConfig::default() }
    }

    /// Sets the name.
    pub fn name(self, name: &str) -> (builder: Self)
        ensures
            builder.name matches Some(text) && text@ == name@,
            builder.description == self.description,
            builder.config == self.config,
    {
        AgentBuilder { name: Some(name.to_owned()), description: self.description, config: self.config }
    }

    /// Sets the description.
    pub fn description(self, description: &str) -> (builder: Self)
        ensures
            builder.description matches Some(text) && text@ == description@,
            builder.name == self.name,
            builder.config == self.config,
    {
        AgentBuilder {
            name: self.name,
            description: Some(description.to_owned()),
            config: self.config,
        }
    }

    /// Sets the settings.
    pub fn config(self, config: AgentConfig) -> (builder: Self)
        ensures
            builder.config == config,
            builder.name == self.name,
            builder.description == self.description,
    {
        AgentBuilder { name: self.name, description: self.description, config }
    }

    /// Builds the agent: without guidelines, tools or journeys, and with the
    /// fallback guideline, which has priority -1 and always asks the
    /// language model. A builder without a name is refused.
    pub fn build(self) -> (built: Result<Agent, AgentError>)
        ensures
            built is Ok <==> self.name is Some,
            built matches Err(error) ==> (error matches AgentError::Configuration(text) && text@
                == "Agent name is required"@),
            built matches Ok(agent) ==> {
                &&& agent.wf()
                &&& agent.name == self.name->0
                &&& agent.description == self.description
                &&& agent.config == self.config
                &&& agent.guideline_matcher.rules().len() == 0
                &&& agent.tool_registry.tools().len() == 0
                &&& agent.journey_manager.catalog() == Map::<u128, Journey>::empty()
                &&& agent.journey_states@ == Map::<u128, JourneyState>::empty()
                &&& agent.fallback_guideline.priority == FALLBACK_PRIORITY
                &&& agent.fallback_guideline.action.requires_llm
                &&& agent.fallback_guideline.action.response_template@ == fallback_text()
                &&& agent.fallback_guideline.action.parameters@.len() == 0
                &&& agent.fallback_guideline.tools@.len() == 0
                &&& agent.fallback_guideline.condition matches GuidelineCondition::Literal(text)
                    && text@.len() == 0
            },
    {
        let name = match self.name {
            Some(name) => name,
            None => {
                return Err(AgentError::Configuration("Agent name is required".to_owned()));
            },
        };
        let now = Timestamp::now();
        let fallback_guideline = Guideline {
            id: GuidelineId::new(),
            condition: GuidelineCondition::Literal(String::new()),
            action: GuidelineAction {
                response_template:
                    "I'm not sure how to help with that. Could you please rephrase your question?".to_owned(),
                requires_llm: true,
                parameters: Vec::new(),
            },
            priority: FALLBACK_PRIORITY,
            tools: Vec::new(),
            parameters: TextMap::new(),
            created_at: now,
        };
        Ok(
            Agent {
                id: AgentId::new(),
                name,
                description: self.description,
                guideline_matcher: DefaultGuidelineMatcher::new(),
                tool_registry: ToolRegistry::new(),
                journey_manager: DefaultJourneyManager::new(),
                journey_states: HashMap::new(),
                fallback_guideline,
                config: self.config,
                created_at: now,
                updated_at: now,
            },
        )
    }
}

impl Default for AgentBuilder {
    fn default() -> (made: Self)
        ensures
            made.name is None,
            made.description is None,
            made.config == (AgentConfig {
                max_context_messages: 100,
                default_tool_timeout: Duration { secs: 30, nanos: 0 },
                enable_explainability: true,
                log_level: LogLevel::Info,
            }),
    {
        Self::new()
    }
}

} // verus!
