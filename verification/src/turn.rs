//! The processing of one message, step by step.
//!
//! Answering a message takes work that the library cannot do itself: the
//! session is loaded from a store, tools run, the language model is asked,
//! the session is saved. The library decides what is to be done next; the
//! application does it and reports the outcome. A [`Turn`] holds the state
//! between two such steps.

use vstd::prelude::*;
use crate::agent::{Agent, AgentResponse, ResponseExplanation, ToolExecution, FALLBACK_RELEVANCE};
use crate::context::{newest, same_message, Message, MessageRole};
use crate::error::{AgentError, StorageError};
use crate::guideline::{all_matches, match_models, Guideline, GuidelineMatch, MatchModel, Score};
use crate::json::{clone_values, json_map, JsonData, JsonValue};
use crate::matcher::{is_best, known, position_of};
use crate::session::Session;
use crate::text::{decimal, decimal_text, join};
use crate::textmap::TextMap;
use crate::types::{Duration, GuidelineId, SessionId, ToolId};

verus! {

/// The retries allowed to each tool of a guideline.
pub const TOOL_RETRIES: u32 = 3;

/// The delay before the first retry of a tool, in milliseconds.
pub const TOOL_BACKOFF_MS: u64 = 100;

/// The duration recorded for a tool that was executed, in milliseconds.
pub const RECORDED_TOOL_MS: u64 = 100;

/// What a turn waits for.
#[derive(Clone, Copy, Debug, PartialEq, Eq, Structural)]
pub enum TurnPhase {
    LoadingSession,
    RunningTools,
    Generating,
    SavingSession,
    Finished,
}

/// What the turn needs of the guideline it follows.
#[derive(Clone, Debug)]
pub struct GuidelinePlan {
    pub guideline_id: GuidelineId,
    pub priority: i32,
    pub tools: Vec<ToolId>,
    pub requires_llm: bool,
    pub response_template: String,
}

/// The state of the processing of one message.
#[derive(Debug)]
pub struct Turn {
    pub phase: TurnPhase,
    pub session_id: SessionId,
    pub user_message: String,
    pub similarities: Vec<Option<Score>>,
    pub session: Option<Session>,
    pub matches: Vec<GuidelineMatch>,
    pub guideline_match: Option<GuidelineMatch>,
    pub plan: Option<GuidelinePlan>,
    pub next_tool: usize,
    pub tools_used: Vec<ToolExecution>,
    pub tool_context: String,
    pub response_text: String,
}

/// What the application reports.
#[derive(Debug)]
pub enum TurnEvent {
    /// The store answered the request for the session.
    SessionLoaded(Result<Option<Session>, StorageError>),
    /// The tool finished, retries included: its output as text, or the
    /// error of its last attempt.
    ToolFinished(Result<String, AgentError>),
    /// The language model answered.
    Generated(Result<String, AgentError>),
    /// The store answered the request to save the session.
    SessionSaved(Result<(), StorageError>),
}

/// What the application is to do next.
#[derive(Debug)]
pub enum TurnAction {
    LoadSession { session_id: SessionId },
    RunTool {
        tool_id: ToolId,
        parameters: TextMap<JsonValue>,
        timeout: Duration,
        max_retries: u32,
        base_backoff_ms: u64,
    },
    Generate { messages: Vec<Message> },
    SaveSession { session_id: SessionId, session: Session },
    /// The turn is over: this is the answer.
    Respond(AgentResponse),
    /// The turn is over: it failed.
    Fail(AgentError),
}

/// The match reported where no guideline matches.
pub open spec fn fallback_match(id: GuidelineId) -> MatchModel {
    MatchModel {
        guideline_id: id,
        relevance_score: Score { millionths: FALLBACK_RELEVANCE },
        semantic_score: Score { millionths: 0 },
        matched_condition: "fallback"@,
        extracted_parameters: Map::empty(),
        explanation: Some("No matching guideline found, using fallback"@),
    }
}

/// Whether `plan` is drawn from `guideline`.
pub open spec fn plan_of(guideline: Guideline, plan: GuidelinePlan) -> bool {
    &&& plan.guideline_id == guideline.id
    &&& plan.priority == guideline.priority
    &&& plan.tools@ == guideline.tools@
    &&& plan.requires_llm == guideline.action.requires_llm
    &&& plan.response_template@ == guideline.action.response_template@
}

/// The guideline that a match is followed by: the first guideline of its id
/// that the matcher holds, or the fallback guideline.
pub open spec fn guideline_for(agent: Agent, id: GuidelineId) -> Guideline {
    if known(agent.guideline_matcher.rules(), id) {
        agent.guideline_matcher.rules()[position_of(agent.guideline_matcher.rules(), id)]
    } else {
        agent.fallback_guideline
    }
}

/// The first instruction to the language model.
pub open spec fn system_prompt(agent: Agent) -> Seq<char> {
    "You are "@ + agent.name@ + ". "@ + (match agent.description {
        Some(text) => text@,
        None => "A helpful AI assistant"@,
    })
}

/// The instruction that states the guideline.
pub open spec fn guideline_prompt(template: Seq<char>) -> Seq<char> {
    "Guideline: "@ + template
}

/// The instruction that reports what the tools returned.
pub open spec fn tool_results_prompt(tool_context: Seq<char>) -> Seq<char> {
    "Tool execution results:"@ + tool_context
}

/// Whether `messages` are the ones for the language model: the system
/// prompt, the guideline, the conversation so far, and, where tools ran,
/// their results.
pub open spec fn llm_messages(
    agent: Agent,
    template: Seq<char>,
    conversation: Seq<Message>,
    tool_context: Seq<char>,
    messages: Seq<Message>,
) -> bool {
    &&& messages.len() == 2 + conversation.len() + (if tool_context.len() > 0 {
        1int
    } else {
        0int
    })
    &&& messages[0].role == MessageRole::System
    &&& messages[0].content@ == system_prompt(agent)
    &&& messages[1].role == MessageRole::System
    &&& messages[1].content@ == guideline_prompt(template)
    &&& forall|i: int|
        0 <= i < conversation.len() ==> same_message(#[trigger] messages[2 + i], conversation[i])
    &&& tool_context.len() > 0 ==> messages.last().role == MessageRole::System
        && messages.last().content@ == tool_results_prompt(tool_context)
}

/// What a finished tool adds to the report for the language model.
pub open spec fn tool_report(outcome: Result<String, AgentError>) -> Seq<char> {
    match outcome {
        Ok(rendered) => "\n\nTool result: "@ + rendered@,
        Err(error) => "\n\nTool execution failed: "@ + error.message(),
    }
}

/// The reasoning given in an explanation.
pub open spec fn reasoning_text(priority: i32) -> Seq<char> {
    "Selected guideline with priority "@ + decimal_text(priority as int)
}

/// Whether `session` is `before` with one more message, spoken by `role`
/// with the text `text`, and a new time of the last update.
pub open spec fn with_message(before: Session, role: MessageRole, text: Seq<char>, session: Session) -> bool {
    &&& session.id == before.id
    &&& session.agent_id == before.agent_id
    &&& session.status == before.status
    &&& session.journey_state == before.journey_state
    &&& session.metadata == before.metadata
    &&& session.created_at == before.created_at
    &&& session.expires_at == before.expires_at
    &&& session.context.variables == before.context.variables
    &&& session.context.max_messages == before.context.max_messages
    &&& exists|message: Message|
        message.role == role && message.content@ == text && #[trigger] newest(
            before.context.messages@.push(message),
            before.context.max_messages as int,
        ) == session.context.messages@
}

/// Whether `after` is `before` in another phase.
pub open spec fn only_phase(before: Turn, phase: TurnPhase, after: Turn) -> bool {
    after == (Turn { phase, ..before })
}

/// Whether `out` is what follows once the tools up to `turn.next_tool` are
/// done: the next tool of the guideline, or the request to the language
/// model where the guideline asks for it, or else the saving of the session
/// with the template of the guideline as the answer.
pub open spec fn proceeds(agent: Agent, turn: Turn, out: (Turn, TurnAction)) -> bool {
    let plan = turn.plan->0;
    if turn.next_tool < plan.tools@.len() {
        &&& only_phase(turn, TurnPhase::RunningTools, out.0)
        &&& out.1 matches TurnAction::RunTool {
            tool_id,
            parameters,
            timeout,
            max_retries,
            base_backoff_ms,
        }
        &&& tool_id == plan.tools@[turn.next_tool as int]
        &&& json_map(parameters) == (match turn.guideline_match {
            Some(found) => json_map(found.extracted_parameters),
            None => Map::empty(),
        })
        &&& timeout == agent.config.default_tool_timeout
        &&& max_retries == TOOL_RETRIES
        &&& base_backoff_ms == TOOL_BACKOFF_MS
    } else if plan.requires_llm {
        &&& only_phase(turn, TurnPhase::Generating, out.0)
        &&& out.1 matches TurnAction::Generate { messages }
        &&& llm_messages(
            agent,
            plan.response_template@,
            turn.session->0.context.messages@,
            turn.tool_context@,
            messages@,
        )
    } else {
        concludes(turn, plan.response_template@, out)
    }
}

/// Whether `out` is the saving of the session with `text` as the answer.
pub open spec fn concludes(turn: Turn, text: Seq<char>, out: (Turn, TurnAction)) -> bool {
    &&& out.0.phase == TurnPhase::SavingSession
    &&& out.0.response_text@ == text
    &&& out.0.session is None
    &&& out.0.session_id == turn.session_id
    &&& out.0.user_message == turn.user_message
    &&& out.0.similarities == turn.similarities
    &&& out.0.matches == turn.matches
    &&& out.0.guideline_match == turn.guideline_match
    &&& out.0.plan == turn.plan
    &&& out.0.next_tool == turn.next_tool
    &&& out.0.tools_used == turn.tools_used
    &&& out.0.tool_context == turn.tool_context
    &&& out.1 matches TurnAction::SaveSession { session_id, session }
    &&& session_id == turn.session_id
    &&& with_message(turn.session->0, MessageRole::Assistant, text, session)
}

/// Whether `after` is the turn once the session has been loaded: the user
/// message stands in the context, every guideline has been matched, and the
/// best match, or the fallback, has been chosen together with its
/// guideline.
pub open spec fn loaded(agent: Agent, turn: Turn, session: Session, after: Turn) -> bool {
    let rules = agent.guideline_matcher.rules();
    &&& after.phase == turn.phase
    &&& after.session_id == turn.session_id
    &&& after.user_message == turn.user_message
    &&& after.similarities == turn.similarities
    &&& after.next_tool == 0
    &&& after.tools_used@.len() == 0
    &&& after.tool_context@.len() == 0
    &&& after.response_text@.len() == 0
    &&& after.session matches Some(held)
    &&& with_message(session, MessageRole::User, turn.user_message@, held)
    &&& match_models(after.matches@) == all_matches(rules, turn.user_message@, turn.similarities@)
    &&& after.guideline_match matches Some(chosen)
    &&& if after.matches@.len() > 0 {
        exists|i: int| is_best(rules, after.matches@, i) && chosen@
            == (#[trigger] after.matches@[i])@
    } else {
        chosen@ == fallback_match(agent.fallback_guideline.id)
    }
    &&& after.plan matches Some(plan)
    &&& plan_of(guideline_for(agent, chosen.guideline_id), plan)
}

/// Whether `after` is `turn` with the outcome of its current tool taken in.
pub open spec fn tool_taken(turn: Turn, outcome: Result<String, AgentError>, after: Turn) -> bool {
    &&& after.phase == turn.phase
    &&& after.session_id == turn.session_id
    &&& after.user_message == turn.user_message
    &&& after.similarities == turn.similarities
    &&& after.session == turn.session
    &&& after.matches == turn.matches
    &&& after.guideline_match == turn.guideline_match
    &&& after.plan == turn.plan
    &&& after.response_text == turn.response_text
    &&& after.next_tool == turn.next_tool + 1
    &&& after.tool_context@ == turn.tool_context@ + tool_report(outcome)
    &&& after.tools_used@ == (if outcome is Ok {
        turn.tools_used@.push(
            ToolExecution {
                tool_id: turn.plan->0.tools@[turn.next_tool as int],
                duration: Duration { secs: 0, nanos: 100_000_000 },
            },
        )
    } else {
        turn.tools_used@
    })
}

/// Whether `response` is the answer of a turn that has saved its session.
pub open spec fn responds(agent: Agent, turn: Turn, response: AgentResponse) -> bool {
    &&& response.message == turn.response_text
    &&& response.matched_guideline == turn.guideline_match
    &&& response.tools_used == turn.tools_used
    &&& response.journey_step is None
    &&& response.context_updates.entries@.len() == 0
    &&& if agent.config.enable_explainability {
        &&& response.explanation matches Some(explanation)
        &&& explanation.guideline_matches == turn.matches
        &&& explanation.reasoning@ == reasoning_text(turn.plan->0.priority)
        &&& explanation.confidence == (match turn.guideline_match {
            Some(found) => found.relevance_score,
            None => Score { millionths: FALLBACK_RELEVANCE },
        })
    } else {
        response.explanation is None
    }
}

/// Whether a turn in this phase has what the phase needs.
pub open spec fn ready(turn: Turn) -> bool {
    match turn.phase {
        TurnPhase::LoadingSession => true,
        TurnPhase::RunningTools => turn.session is Some && turn.plan is Some && turn.next_tool
            < turn.plan->0.tools@.len(),
        TurnPhase::Generating => turn.session is Some && turn.plan is Some,
        TurnPhase::SavingSession => turn.plan is Some,
        TurnPhase::Finished => true,
    }
}

/// Whether `out` ends the turn with the error `error`.
pub open spec fn fails(turn: Turn, error: AgentError, out: (Turn, TurnAction)) -> bool {
    out.0.phase == TurnPhase::Finished && out.1 == TurnAction::Fail(error)
}

/// Whether `out` ends the turn with an internal error: the event does not
/// belong to the phase, or the turn does not hold what the phase needs.
pub open spec fn aborts(out: (Turn, TurnAction)) -> bool {
    out.0.phase == TurnPhase::Finished && (out.1 matches TurnAction::Fail(error)
        && error is Internal)
}

/// Whether `out` is the step that follows `event` in `turn`.
pub open spec fn steps(agent: Agent, turn: Turn, event: TurnEvent, out: (Turn, TurnAction)) -> bool {
    match (turn.phase, event) {
        (TurnPhase::LoadingSession, TurnEvent::SessionLoaded(Err(error))) => fails(
            turn,
            AgentError::Storage(error),
            out,
        ),
        (TurnPhase::LoadingSession, TurnEvent::SessionLoaded(Ok(None))) => fails(
            turn,
            AgentError::SessionNotFound(turn.session_id),
            out,
        ),
        (TurnPhase::LoadingSession, TurnEvent::SessionLoaded(Ok(Some(session)))) => exists|
            middle: Turn,
        |
            loaded(agent, turn, session, middle) && #[trigger] proceeds(agent, middle, out),
        (TurnPhase::RunningTools, TurnEvent::ToolFinished(outcome)) => if ready(turn) {
            exists|middle: Turn|
                tool_taken(turn, outcome, middle) && #[trigger] proceeds(agent, middle, out)
        } else {
            aborts(out)
        },
        (TurnPhase::Generating, TurnEvent::Generated(Err(error))) => fails(turn, error, out),
        (TurnPhase::Generating, TurnEvent::Generated(Ok(text))) => if ready(turn) {
            concludes(turn, text@, out)
        } else {
            aborts(out)
        },
        (TurnPhase::SavingSession, TurnEvent::SessionSaved(Err(error))) => fails(
            turn,
            AgentError::Storage(error),
            out,
        ),
        (TurnPhase::SavingSession, TurnEvent::SessionSaved(Ok(_))) => if ready(turn) {
            out.0.phase == TurnPhase::Finished && (out.1 matches TurnAction::Respond(response)
                && responds(agent, turn, response))
        } else {
            aborts(out)
        },
        _ => aborts(out),
    }
}

/// What the turn needs of `guideline`.
fn plan_from(guideline: &Guideline) -> (plan: GuidelinePlan)
    ensures
        plan_of(*guideline, plan),
{
    let mut tools: Vec<ToolId> = Vec::new();
    let mut i: usize = 0;
    while i < guideline.tools.len()
        invariant
            i <= guideline.tools@.len(),
            tools@ == guideline.tools@.take(i as int),
        decreases guideline.tools.len() - i,
    {
        tools.push(guideline.tools[i]);
        assert(tools@ =~= guideline.tools@.take(i + 1));
        i += 1;
    }
    assert(guideline.tools@.take(i as int) =~= guideline.tools@);
    GuidelinePlan {
        guideline_id: guideline.id,
        priority: guideline.priority,
        tools,
        requires_llm: guideline.action.requires_llm,
        response_template: guideline.action.response_template.clone(),
    }
}

/// Adds a message to the session and notes the time.
fn say(session: &mut Session, role: MessageRole, text: &str)
    ensures
        with_message(*old(session), role, text@, *final(session)),
{
    let message = Message::with_role(role, text);
    session.context.add_message(message);
    session.touch();
    assert(newest(
        old(session).context.messages@.push(message),
        old(session).context.max_messages as int,
    ) == session.context.messages@);
}

/// Puts an ended turn in place of `turn`.
fn abort(turn: Turn, reason: &str) -> (out: (Turn, TurnAction))
    ensures
        aborts(out),
{
    let mut turn = turn;
    turn.phase = TurnPhase::Finished;
    (turn, TurnAction::Fail(AgentError::Internal(reason.to_owned())))
}

/// Ends the turn with `error`.
fn fail(turn: Turn, error: AgentError) -> (out: (Turn, TurnAction))
    ensures
        fails(turn, error, out),
{
    let mut turn = turn;
    turn.phase = TurnPhase::Finished;
    (turn, TurnAction::Fail(error))
}

/// Takes `text` as the answer and asks for the session to be saved.
fn conclude(turn: Turn, text: String) -> (out: (Turn, TurnAction))
    requires
        turn.session is Some,
    ensures
        concludes(turn, text@, out),
{
    let mut turn = turn;
    let mut session = match turn.session.take() {
        Some(session) => session,
        None => {
            assert(false);
            return abort(turn, "no session");
        },
    };
    say(&mut session, MessageRole::Assistant, text.as_str());
    turn.response_text = text;
    turn.phase = TurnPhase::SavingSession;
    let session_id = turn.session_id;
    (turn, TurnAction::SaveSession { session_id, session })
}

impl Agent {
    /// The messages for the language model: who the agent is, the
    /// guideline, the conversation so far, and what the tools returned.
    pub fn build_llm_messages(&self, conversation: &Vec<Message>, template: &str, tool_context: &str) -> (messages:
        Vec<Message>)
        ensures
            llm_messages(*self, template@, conversation@, tool_context@, messages@),
    {
        let mut prompt = join("You are ", self.name.as_str());
        prompt.append(". ");
        match &self.description {
            Some(text) => prompt.append(text.as_str()),
            None => prompt.append("A helpful AI assistant"),
        }
        let mut messages: Vec<Message> = Vec::new();
        messages.push(Message::system(prompt.as_str()));
        messages.push(Message::system(join("Guideline: ", template).as_str()));
        let mut i: usize = 0;
        while i < conversation.len()
            invariant
                i <= conversation@.len(),
                messages@.len() == 2 + i,
                messages@[0].role == MessageRole::System,
                messages@[0].content@ == system_prompt(*self),
                messages@[1].role == MessageRole::System,
                messages@[1].content@ == guideline_prompt(template@),
                forall|k: int| 0 <= k < i ==> same_message(#[trigger] messages@[2
                    + k], conversation@[k]),
            decreases conversation.len() - i,
        {
            messages.push(conversation[i].clone());
            i += 1;
        }
        if tool_context.unicode_len() > 0 {
            messages.push(Message::system(join("Tool execution results:", tool_context).as_str()));
        }
        messages
    }

    /// What follows once the tools up to `turn.next_tool` are done.
    fn proceed(&self, turn: Turn) -> (out: (Turn, TurnAction))
        requires
            turn.session is Some,
            turn.plan is Some,
        ensures
            proceeds(*self, turn, out),
    {
        let mut turn = turn;
        let ghost given = turn;
        let (pending, requires_llm) = match &turn.plan {
            Some(plan) => (
                if turn.next_tool < plan.tools.len() {
                    Some(plan.tools[turn.next_tool])
                } else {
                    None
                },
                plan.requires_llm,
            ),
            None => (None, false),
        };
        if let Some(tool_id) = pending {
            let parameters = match &turn.guideline_match {
                Some(found) => clone_values(&found.extracted_parameters),
                None => {
                    let empty: TextMap<JsonValue> = TextMap::new();
                    assert(json_map(empty) =~= Map::<Seq<char>, JsonData>::empty());
                    empty
                },
            };
            turn.phase = TurnPhase::RunningTools;
            let action = TurnAction::RunTool {
                tool_id,
                parameters,
                timeout: self.config.default_tool_timeout,
                max_retries: TOOL_RETRIES,
                base_backoff_ms: TOOL_BACKOFF_MS,
            };
            (turn, action)
        } else if requires_llm {
            let messages = match (&turn.session, &turn.plan) {
                (Some(session), Some(plan)) => self.build_llm_messages(
                    &session.context.messages,
                    plan.response_template.as_str(),
                    turn.tool_context.as_str(),
                ),
                _ => Vec::new(),
            };
            turn.phase = TurnPhase::Generating;
            (turn, TurnAction::Generate { messages })
        } else {
            let text = match &turn.plan {
                Some(plan) => plan.response_template.clone(),
                None => String::new(),
            };
            conclude(turn, text)
        }
    }

    /// Begins the processing of `user_message` in the session
    /// `session_id`. `similarities` gives, by the position of each semantic
    /// guideline, the similarity of the message to its description.
    pub fn begin_message(&self, session_id: SessionId, user_message: String, similarities: Vec<Option<Score>>) -> (out:
        (Turn, TurnAction))
        ensures
            out.0.phase == TurnPhase::LoadingSession,
            out.0.session_id == session_id,
            out.0.user_message == user_message,
            out.0.similarities == similarities,
            out.1 == (TurnAction::LoadSession { session_id }),
    {
        let turn = Turn {
            phase: TurnPhase::LoadingSession,
            session_id,
            user_message,
            similarities,
            session: None,
            matches: Vec::new(),
            guideline_match: None,
            plan: None,
            next_tool: 0,
            tools_used: Vec::new(),
            tool_context: String::new(),
            response_text: String::new(),
        };
        (turn, TurnAction::LoadSession { session_id })
    }

    /// Takes the loaded session into the turn: adds the user message,
    /// matches the guidelines and chooses the one to follow.
    fn take_session(&self, turn: Turn, session: Session) -> (after: Turn)
        requires
            self.wf(),
        ensures
            loaded(*self, turn, session, after),
    {
        let mut turn = turn;
        let mut session = session;
        say(&mut session, MessageRole::User, turn.user_message.as_str());
        let matches = match self.guideline_matcher.match_with_similarities(
            turn.user_message.as_str(),
            &session.context,
            &turn.similarities,
        ) {
            Ok(matches) => matches,
            Err(_) => {
                assert(false);
                Vec::new()
            },
        };
        let chosen = match self.guideline_matcher.select_best_index(&matches) {
            Some(at) => matches[at].clone(),
            None => {
                let parameters: TextMap<JsonValue> = TextMap::new();
                assert(json_map(parameters) =~= Map::<Seq<char>, JsonData>::empty());
                GuidelineMatch {
                    guideline_id: self.fallback_guideline.id,
                    relevance_score: Score { millionths: FALLBACK_RELEVANCE },
                    semantic_score: Score { millionths: 0 },
                    matched_condition: "fallback".to_owned(),
                    extracted_parameters: parameters,
                    explanation: Some("No matching guideline found, using fallback".to_owned()),
                }
            },
        };
        let plan = match self.guideline_matcher.find_guideline(&chosen.guideline_id) {
            Some(at) => plan_from(&self.guideline_matcher.get_guidelines()[at]),
            None => plan_from(&self.fallback_guideline),
        };
        turn.session = Some(session);
        turn.matches = matches;
        turn.guideline_match = Some(chosen);
        turn.plan = Some(plan);
        turn.next_tool = 0;
        turn.tools_used = Vec::new();
        turn.tool_context = String::new();
        turn.response_text = String::new();
        turn
    }

    /// Takes the outcome of the current tool into the turn.
    fn take_tool(&self, turn: Turn, outcome: Result<String, AgentError>) -> (after: Turn)
        requires
            ready(turn),
            turn.phase == TurnPhase::RunningTools,
        ensures
            tool_taken(turn, outcome, after),
    {
        let ghost given = turn;
        let mut turn = turn;
        let (tool_id, count) = match &turn.plan {
            Some(plan) => (plan.tools[turn.next_tool], plan.tools.len()),
            None => (ToolId::from_u128(0), 0),
        };
        assert(turn.next_tool < count);
        match &outcome {
            Ok(rendered) => {
                turn.tools_used.push(
                    ToolExecution { tool_id, duration: Duration::from_millis(RECORDED_TOOL_MS) },
                );
                turn.tool_context.append("\n\nTool result: ");
                turn.tool_context.append(rendered.as_str());
            },
            Err(error) => {
                turn.tool_context.append("\n\nTool execution failed: ");
                turn.tool_context.append(error.to_string().as_str());
            },
        }
        turn.next_tool = turn.next_tool + 1;
        assert(turn.tool_context@ =~= given.tool_context@ + tool_report(outcome));
        turn
    }

    /// The answer of a turn that has saved its session.
    fn respond(&self, turn: Turn) -> (out: (Turn, TurnAction))
        requires
            turn.plan is Some,
        ensures
            out.0.phase == TurnPhase::Finished,
            out.1 matches TurnAction::Respond(response) && responds(*self, turn, response),
    {
        let Turn {
            phase: _,
            session_id,
            user_message,
            similarities,
            session,
            matches,
            guideline_match,
            plan,
            next_tool,
            tools_used,
            tool_context,
            response_text,
        } = turn;
        let priority = match &plan {
            Some(plan) => plan.priority,
            None => 0,
        };
        let confidence = match &guideline_match {
            Some(found) => found.relevance_score,
            None => Score { millionths: FALLBACK_RELEVANCE },
        };
        let explanation = if self.config.enable_explainability {
            Some(
                ResponseExplanation {
                    guideline_matches: matches,
                    reasoning: join(
                        "Selected guideline with priority ",
                        decimal(priority as i128).as_str(),
                    ),
                    confidence,
                },
            )
        } else {
            None
        };
        let response = AgentResponse {
            message: response_text,
            matched_guideline: guideline_match,
            tools_used,
            journey_step: None,
            context_updates: TextMap::new(),
            explanation,
        };
        let done = Turn {
            phase: TurnPhase::Finished,
            session_id,
            user_message,
            similarities,
            session,
            matches: Vec::new(),
            guideline_match: None,
            plan,
            next_tool,
            tools_used: Vec::new(),
            tool_context,
            response_text: String::new(),
        };
        (done, TurnAction::Respond(response))
    }

    /// Decides the step that follows `event`.
    pub fn advance_message(&self, turn: Turn, event: TurnEvent) -> (out: (Turn, TurnAction))
        requires
            self.wf(),
        ensures
            steps(*self, turn, event, out),
    {
        match turn.phase {
            TurnPhase::LoadingSession => match event {
                TurnEvent::SessionLoaded(Err(error)) => fail(turn, AgentError::Storage(error)),
                TurnEvent::SessionLoaded(Ok(None)) => {
                    let id = turn.session_id;
                    fail(turn, AgentError::SessionNotFound(id))
                },
                TurnEvent::SessionLoaded(Ok(Some(session))) => {
                    let middle = self.take_session(turn, session);
                    let out = self.proceed(middle);
                    assert(loaded(*self, turn, session, middle) && proceeds(*self, middle, out));
                    out
                },
                _ => abort(turn, "unexpected event"),
            },
            TurnPhase::RunningTools => match event {
                TurnEvent::ToolFinished(outcome) => {
                    let fit = match (&turn.session, &turn.plan) {
                        (Some(_), Some(plan)) => turn.next_tool < plan.tools.len(),
                        _ => false,
                    };
                    if fit {
                        let middle = self.take_tool(turn, outcome);
                        let out = self.proceed(middle);
                        assert(tool_taken(turn, outcome, middle) && proceeds(*self, middle, out));
                        out
                    } else {
                        abort(turn, "turn is not running a tool")
                    }
                },
                _ => abort(turn, "unexpected event"),
            },
            TurnPhase::Generating => match event {
                TurnEvent::Generated(Err(error)) => fail(turn, error),
                TurnEvent::Generated(Ok(text)) => {
                    if turn.session.is_some() && turn.plan.is_some() {
                        conclude(turn, text)
                    } else {
                        abort(turn, "turn is not generating")
                    }
                },
                _ => abort(turn, "unexpected event"),
            },
            TurnPhase::SavingSession => match event {
                TurnEvent::SessionSaved(Err(error)) => fail(turn, AgentError::Storage(error)),
                TurnEvent::SessionSaved(Ok(_)) => {
                    if turn.plan.is_some() {
                        self.respond(turn)
                    } else {
                        abort(turn, "turn is not saving")
                    }
                },
                _ => abort(turn, "unexpected event"),
            },
            TurnPhase::Finished => abort(turn, "turn is finished"),
        }
    }
}

} // verus!
