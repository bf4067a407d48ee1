//! Sessions: the state of one conversation.

use vstd::prelude::*;
use crate::context::Context;
use crate::json::JsonValue;
use crate::textmap::TextMap;
use crate::types::{AgentId, JourneyId, SessionId, StepId, Timestamp};

verus! {

/// The status of a session.
#[derive(Clone, Copy, Debug, PartialEq, Eq, Structural)]
pub enum SessionStatus {
    Active,
    Paused,
    Completed,
    Terminated,
}

/// The journey a session is in, with every step it has visited.
#[derive(Clone, Debug, PartialEq)]
pub struct JourneyState {
    pub journey_id: JourneyId,
    pub current_step: StepId,
    pub started_at: Timestamp,
    pub completed_at: Option<Timestamp>,
    /// The steps visited, in order, the initial step first.
    pub step_history: Vec<StepId>,
}

impl JourneyState {
    /// The state of a journey that has just begun at `initial_step`.
    pub fn new(journey_id: JourneyId, initial_step: StepId) -> (state: Self)
        ensures
            state.journey_id == journey_id,
            state.current_step == initial_step,
            state.completed_at is None,
            state.step_history@ == seq![initial_step],
    {
        let mut step_history: Vec<StepId> = Vec::new();
        step_history.push(initial_step);
        JourneyState {
            journey_id,
            current_step: initial_step,
            started_at: Timestamp::now(),
            completed_at: None,
            step_history,
        }
    }

    /// Moves to `step_id` and records the visit.
    pub fn move_to_step(&mut self, step_id: StepId)
        ensures
            final(self).current_step == step_id,
            final(self).step_history@ == old(self).step_history@.push(step_id),
            final(self).journey_id == old(self).journey_id,
            final(self).started_at == old(self).started_at,
            final(self).completed_at == old(self).completed_at,
    {
        self.current_step = step_id;
        self.step_history.push(step_id);
    }

    /// Marks the journey completed, at the current time.
    pub fn complete(&mut self)
        ensures
            final(self).completed_at is Some,
            final(self).current_step == old(self).current_step,
            final(self).step_history == old(self).step_history,
            final(self).journey_id == old(self).journey_id,
            final(self).started_at == old(self).started_at,
    {
        self.completed_at = Some(Timestamp::now());
    }

    /// Whether the journey is completed.
    pub fn is_completed(&self) -> (done: bool)
        ensures
            done == self.completed_at is Some,
    {
        self.completed_at.is_some()
    }
}

/// One conversation of an agent.
#[derive(Clone, Debug, PartialEq)]
pub struct Session {
    pub id: SessionId,
    pub agent_id: AgentId,
    pub status: SessionStatus,
    pub context: Context,
    pub journey_state: Option<JourneyState>,
    pub metadata: TextMap<JsonValue>,
    pub created_at: Timestamp,
    pub updated_at: Timestamp,
    pub expires_at: Option<Timestamp>,
}

impl Session {
    /// Whether `self` differs from `before` in nothing but the time of the
    /// last update and what `status`, `journey_state` hold.
    pub open spec fn same_conversation(self, before: Session) -> bool {
        &&& self.id == before.id
        &&& self.agent_id == before.agent_id
        &&& self.context == before.context
        &&& self.metadata == before.metadata
        &&& self.created_at == before.created_at
        &&& self.expires_at == before.expires_at
    }

    /// A fresh active session of the agent, with an empty context.
    pub fn new(agent_id: AgentId) -> (session: Self)
        ensures
            session.agent_id == agent_id,
            session.status == SessionStatus::Active,
            session.context.messages@.len() == 0,
            session.context.variables.entries@.len() == 0,
            session.context.max_messages == 100,
            session.journey_state is None,
            session.metadata.entries@.len() == 0,
            session.expires_at is None,
            session.created_at == session.updated_at,
    {
        Session::with_context(agent_id, Context::new())
    }

    /// A fresh active session of the agent, with the given context.
    pub fn with_context(agent_id: AgentId, context: Context) -> (session: Self)
        ensures
            session.agent_id == agent_id,
            session.status == SessionStatus::Active,
            session.context == context,
            session.journey_state is None,
            session.metadata.entries@.len() == 0,
            session.expires_at is None,
            session.created_at == session.updated_at,
    {
        let now = Timestamp::now();
        Session {
            id: SessionId::new(),
            agent_id,
            status: SessionStatus::Active,
            context,
            journey_state: None,
            metadata: TextMap::new(),
            created_at: now,
            updated_at: now,
            expires_at: None,
        }
    }

    /// The session with the given time of expiry.
    pub fn with_expiration(self, expires_at: Timestamp) -> (session: Self)
        ensures
            session == (Session { expires_at: Some(expires_at), ..self }),
    {
        let mut session = self;
        session.expires_at = Some(expires_at);
        session
    }

    /// The session with `value` added to its metadata under `key`.
    pub fn with_metadata(self, key: &str, value: JsonValue) -> (session: Self)
        ensures
            session.metadata.model() == self.metadata.model().insert(key@, value),
            session.id == self.id,
            session.agent_id == self.agent_id,
            session.status == self.status,
            session.context == self.context,
            session.journey_state == self.journey_state,
            session.created_at == self.created_at,
            session.updated_at == self.updated_at,
            session.expires_at == self.expires_at,
    {
        let mut session = self;
        session.metadata.insert(key.to_owned(), value);
        session
    }

    /// Sets the time of the last update to the current time.
    pub fn touch(&mut self)
        ensures
            final(self).same_conversation(*old(self)),
            final(self).status == old(self).status,
            final(self).journey_state == old(self).journey_state,
    {
        self.updated_at = Timestamp::now();
    }

    /// Whether the session is active.
    pub fn is_active(&self) -> (active: bool)
        ensures
            active == (self.status == SessionStatus::Active),
    {
        self.status == SessionStatus::Active
    }

    /// Whether the session has a time of expiry that lies before `now`.
    pub fn is_expired_at(&self, now: &Timestamp) -> (expired: bool)
        ensures
            expired == (self.expires_at matches Some(limit) && now.later_than(limit)),
    {
        match &self.expires_at {
            Some(limit) => now.is_after(limit),
            None => false,
        }
    }

    /// Whether the session has expired by the current time. A session
    /// without a time of expiry never has.
    pub fn is_expired(&self) -> (expired: bool)
        ensures
            self.expires_at is None ==> !expired,
    {
        let now = Timestamp::now();
        self.is_expired_at(&now)
    }

    /// Pauses the session.
    pub fn pause(&mut self)
        ensures
            final(self).status == SessionStatus::Paused,
            final(self).same_conversation(*old(self)),
            final(self).journey_state == old(self).journey_state,
    {
        self.status = SessionStatus::Paused;
        self.touch();
    }

    /// Makes a paused session active again; any other session stays as it
    /// is.
    pub fn resume(&mut self)
        ensures
            final(self).status == (if old(self).status == SessionStatus::Paused {
                SessionStatus::Active
            } else {
                old(self).status
            }),
            old(self).status != SessionStatus::Paused ==> *final(self) == *old(self),
            final(self).same_conversation(*old(self)),
            final(self).journey_state == old(self).journey_state,
    {
        if self.status == SessionStatus::Paused {
            self.status = SessionStatus::Active;
            self.touch();
        }
    }

    /// Completes the session.
    pub fn complete(&mut self)
        ensures
            final(self).status == SessionStatus::Completed,
            final(self).same_conversation(*old(self)),
            final(self).journey_state == old(self).journey_state,
    {
        self.status = SessionStatus::Completed;
        self.touch();
    }

    /// Terminates the session.
    pub fn terminate(&mut self)
        ensures
            final(self).status == SessionStatus::Terminated,
            final(self).same_conversation(*old(self)),
            final(self).journey_state == old(self).journey_state,
    {
        self.status = SessionStatus::Terminated;
        self.touch();
    }

    /// Begins a journey at `initial_step`, in place of any journey the
    /// session was in.
    pub fn start_journey(&mut self, journey_id: JourneyId, initial_step: StepId)
        ensures
            final(self).journey_state matches Some(state) && state.journey_id == journey_id
                && state.current_step == initial_step && state.completed_at is None
                && state.step_history@ == seq![initial_step],
            final(self).same_conversation(*old(self)),
            final(self).status == old(self).status,
    {
        self.journey_state = Some(JourneyState::new(journey_id, initial_step));
        self.touch();
    }

    /// The journey the session is in.
    pub fn get_journey_state(&self) -> (state: Option<&JourneyState>)
        ensures
            state is Some == self.journey_state is Some,
            state matches Some(found) ==> *found == self.journey_state->0,
    {
        self.journey_state.as_ref()
    }

    /// The journey the session is in, for changing it in place. What the
    /// caller leaves in it is the journey of the session afterwards; nothing
    /// else of the session changes.
    pub fn get_journey_state_mut(&mut self) -> (state: Option<&mut JourneyState>)
        ensures
            match old(self).journey_state {
                None => state is None && final(self).journey_state is None,
                Some(before) => state is Some && *state.unwrap() == before && final(self).journey_state == Some(*final(state.unwrap())),
            },
            final(self).same_conversation(*old(self)),
            final(self).status == old(self).status,
            final(self).updated_at == old(self).updated_at,
    {
        self.journey_state.as_mut()
    }

    /// Marks the journey of the session completed; a session without a
    /// journey stays as it is.
    pub fn complete_journey(&mut self)
        ensures
            old(self).journey_state is None ==> *final(self) == *old(self),
            old(self).journey_state matches Some(before)
                ==> (final(self).journey_state matches Some(
                after,
            ) && after.completed_at is Some && after.current_step == before.current_step
                && after.step_history == before.step_history && after.journey_id
                == before.journey_id),
            final(self).same_conversation(*old(self)),
            final(self).status == old(self).status,
    {
        let state = self.journey_state.take();
        match state {
            Some(journey) => {
                let mut journey = journey;
                journey.complete();
                self.journey_state = Some(journey);
                self.touch();
            },
            None => {},
        }
    }

    /// Leaves the journey the session is in.
    pub fn clear_journey(&mut self)
        ensures
            final(self).journey_state is None,
            final(self).same_conversation(*old(self)),
            final(self).status == old(self).status,
    {
        self.journey_state = None;
        self.touch();
    }
}

} // verus!
