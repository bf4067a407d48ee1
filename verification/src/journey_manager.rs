//! The default journey manager: the registry of journey definitions.

use vstd::prelude::*;
use std::collections::HashMap;
use crate::context::Context;
use crate::error::AgentError;
use crate::journey::{
    context_texts, find_next_step, find_step_index, has_step, invalid_pattern_message, next_from,
    step_index, Journey, JourneyState, JourneyStep, Next,
};
use crate::text::join;
use crate::types::{uuid_text, JourneyId, SessionId, StepId};
use crate::validation::{rejection, valid_journey, validate_journey};

verus! {

/// The message of the error for a journey that is not registered.
pub open spec fn unknown_journey_message(id: JourneyId) -> Seq<char> {
    "Journey not found: "@ + uuid_text(id.value)
}

/// What processing a step of `journey` yields: the step to go on with, or
/// the message of the error.
pub ghost enum StepOutcome {
    Goes(JourneyStep),
    Fails(Seq<char>),
}

/// The outcome of processing the step `current` of `journey` with `message`.
/// An unknown step is an error; a step none of whose transitions holds is
/// handed back unchanged.
pub open spec fn step_outcome(
    journey: Journey,
    current: StepId,
    message: Seq<char>,
    texts: Map<Seq<char>, Seq<char>>,
) -> StepOutcome {
    if !has_step(journey.steps@, current) {
        StepOutcome::Fails("Current step not found"@)
    } else {
        let step = journey.steps@[step_index(journey.steps@, current)];
        match next_from(step.transitions@, message, texts, 0) {
            Next::Invalid(pattern) => StepOutcome::Fails(invalid_pattern_message(pattern)),
            Next::Stay => StepOutcome::Goes(step),
            Next::Step(id) => if has_step(journey.steps@, id) {
                StepOutcome::Goes(journey.steps@[step_index(journey.steps@, id)])
            } else {
                StepOutcome::Fails("Next step not found"@)
            },
        }
    }
}

/// Processes the step `current` of `journey` with `message`.
pub fn advance<'a>(journey: &'a Journey, current: StepId, message: &str, context: &Context) -> (next:
    Result<&'a JourneyStep, AgentError>)
    ensures
        match step_outcome(*journey, current, message@, context_texts(*context)) {
            StepOutcome::Goes(step) => next matches Ok(found) && *found == step,
            StepOutcome::Fails(reason) => next matches Err(AgentError::Journey(text)) && text@
                == reason,
        },
{
    let position = match find_step_index(&journey.steps, current) {
        Some(position) => position,
        None => {
            return Err(AgentError::Journey("Current step not found".to_owned()));
        },
    };
    let step = &journey.steps[position];
    match find_next_step(step, message, context) {
        Err(error) => Err(error),
        Ok(None) => Ok(step),
        Ok(Some(id)) => match find_step_index(&journey.steps, id) {
            Some(target) => Ok(&journey.steps[target]),
            None => Err(AgentError::Journey("Next step not found".to_owned())),
        },
    }
}

/// The registry of journey definitions, by journey id. Every registered
/// journey is well formed.
pub struct DefaultJourneyManager {
    journeys: HashMap<u128, Journey>,
}

impl DefaultJourneyManager {
    /// The registered journeys, by the 128 bits of their id.
    pub closed spec fn catalog(&self) -> Map<u128, Journey> {
        self.journeys@
    }

    /// Every registered journey is well formed and stands under its own id.
    pub open spec fn wf(&self) -> bool {
        forall|key: u128| #[trigger]
            self.catalog().contains_key(key) ==> valid_journey(self.catalog()[key])
                && self.catalog()[key].id.value == key
    }

    /// A manager without journeys.
    pub fn new() -> (manager: Self)
        ensures
            manager.wf(),
            manager.catalog() == Map::<u128, Journey>::empty(),
    {
        DefaultJourneyManager { journeys: HashMap::new() }
    }

    /// Registers `journey` if it is well formed, in place of an earlier
    /// journey of the same id.
    pub fn add_journey(&mut self, journey: Journey) -> (added: Result<JourneyId, AgentError>)
        requires
            old(self).wf(),
        ensures
            final(self).wf(),
            added is Ok <==> valid_journey(journey),
            added matches Ok(id) ==> id == journey.id && final(self).catalog()
                == old(self).catalog().insert(journey.id.value, journey),
            added is Err ==> final(self).catalog() == old(self).catalog(),
            added matches Err(error) ==> (error matches AgentError::Journey(text) && rejection(
                journey,
                text@,
            )),
    {
        match validate_journey(&journey) {
            Err(error) => Err(error),
            Ok(()) => {
                let id = journey.id;
                self.journeys.insert(id.value, journey);
                Ok(id)
            },
        }
    }

    /// The journey registered under `journey_id`.
    pub fn get_journey(&self, journey_id: &JourneyId) -> (found: Option<&Journey>)
        ensures
            found is Some <==> self.catalog().contains_key(journey_id.value),
            found matches Some(journey) ==> *journey == self.catalog()[journey_id.value],
    {
        self.journeys.get(&journey_id.value)
    }

    /// Begins the journey `journey_id`: a fresh state at its initial step.
    pub fn start_journey(&self, session_id: &SessionId, journey_id: &JourneyId) -> (started: Result<
        JourneyState,
        AgentError,
    >)
        ensures
            started is Ok <==> self.catalog().contains_key(journey_id.value),
            started matches Ok(state) ==> state.journey_id == *journey_id && state.current_step
                == self.catalog()[journey_id.value].initial_step && state.completed_steps@.len()
                == 0 && !state.is_complete && state.completed_at is None,
            started matches Err(error) ==> error matches AgentError::Journey(text) && text@
                == unknown_journey_message(*journey_id),
    {
        let _ = session_id;
        match self.journeys.get(&journey_id.value) {
            Some(journey) => Ok(JourneyState::new(*journey_id, journey.initial_step)),
            None => {
                let id_text = journey_id.to_string();
                Err(AgentError::Journey(join("Journey not found: ", id_text.as_str())))
            },
        }
    }

    /// Processes the step `current_step_id` of the journey `journey_id` with
    /// `message`, in an empty context: the target of the first transition
    /// that holds, or the current step where none does.
    pub fn process_step(&self, journey_id: &JourneyId, current_step_id: StepId, message: &str) -> (next:
        Result<&JourneyStep, AgentError>)
        ensures
            !self.catalog().contains_key(journey_id.value) ==> (next matches Err(
                AgentError::Journey(text),
            ) && text@ == "Journey not found"@),
            self.catalog().contains_key(journey_id.value) ==> match step_outcome(
                self.catalog()[journey_id.value],
                current_step_id,
                message@,
                Map::empty(),
            ) {
                StepOutcome::Goes(step) => next matches Ok(found) && *found == step,
                StepOutcome::Fails(reason) => next matches Err(AgentError::Journey(text)) && text@
                    == reason,
            },
    {
        let context = Context::new();
        assert(context_texts(context) =~= Map::empty());
        self.process_step_in_context(journey_id, current_step_id, message, &context)
    }

    /// Processes the step `current_step_id` of the journey `journey_id` with
    /// `message`, reading context variables from `context`.
    pub fn process_step_in_context(
        &self,
        journey_id: &JourneyId,
        current_step_id: StepId,
        message: &str,
        context: &Context,
    ) -> (next: Result<&JourneyStep, AgentError>)
        ensures
            !self.catalog().contains_key(journey_id.value) ==> (next matches Err(
                AgentError::Journey(text),
            ) && text@ == "Journey not found"@),
            self.catalog().contains_key(journey_id.value) ==> match step_outcome(
                self.catalog()[journey_id.value],
                current_step_id,
                message@,
                context_texts(*context),
            ) {
                StepOutcome::Goes(step) => next matches Ok(found) && *found == step,
                StepOutcome::Fails(reason) => next matches Err(AgentError::Journey(text)) && text@
                    == reason,
            },
    {
        match self.journeys.get(&journey_id.value) {
            None => Err(AgentError::Journey("Journey not found".to_owned())),
            Some(journey) => advance(journey, current_step_id, message, context),
        }
    }
}

impl Default for DefaultJourneyManager {
    fn default() -> (made: Self)
        ensures
            made.wf(),
            made.catalog() == Map::<u128, Journey>::empty(),
    {
        Self::new()
    }
}

} // verus!
