//! Journeys: conversations with several steps and conditional transitions.

use vstd::prelude::*;
use crate::context::Context;
use crate::error::AgentError;
use crate::json::JsonValue;
use crate::pattern::{compile_regex, regex_error, regex_is_match, regex_matches, regex_valid};
use crate::text::{join, str_eq};
use crate::textmap::TextMap;
use crate::types::{JourneyId, StepId, Timestamp};

verus! {

/// When a transition is taken.
#[derive(Clone, Debug)]
pub enum TransitionCondition {
    /// Always.
    Always,
    /// When the regular expression matches the message.
    Match(String),
    /// When the context variable `key` holds the text `value`. A variable
    /// that is missing, or holds no text, counts as the empty text.
    ContextVariable { key: String, value: String },
}

/// A way from one step to another.
#[derive(Clone, Debug)]
pub struct Transition {
    pub condition: TransitionCondition,
    pub next_step: StepId,
}

/// One step of a journey. A step without transitions is terminal.
#[derive(Clone, Debug)]
pub struct JourneyStep {
    pub id: StepId,
    pub name: String,
    pub prompt: String,
    pub expected_response: Option<String>,
    pub transitions: Vec<Transition>,
    pub actions: Vec<String>,
}

/// A journey: its steps and the step it begins with.
#[derive(Clone, Debug)]
pub struct Journey {
    pub id: JourneyId,
    pub name: String,
    pub description: String,
    pub steps: Vec<JourneyStep>,
    pub initial_step: StepId,
    pub current_step: Option<StepId>,
    pub created_at: Timestamp,
}

/// Where a session stands in a journey.
#[derive(Clone, Debug)]
pub struct JourneyState {
    pub journey_id: JourneyId,
    pub current_step: StepId,
    /// The steps already processed, each once, in the order of processing.
    pub completed_steps: Vec<StepId>,
    pub is_complete: bool,
    pub metadata: TextMap<JsonValue>,
    pub started_at: Timestamp,
    pub completed_at: Option<Timestamp>,
}

/// `list` with `id` at the end, unless it holds `id` already.
pub open spec fn with_step(list: Seq<StepId>, id: StepId) -> Seq<StepId> {
    if list.contains(id) {
        list
    } else {
        list.push(id)
    }
}

/// No step stands twice in `list`.
pub open spec fn no_repeat(list: Seq<StepId>) -> bool {
    forall|i: int, j: int| 0 <= i < j < list.len() ==> list[i] != list[j]
}

impl JourneyState {
    /// The state of a journey that has just begun at `initial_step`.
    pub fn new(journey_id: JourneyId, initial_step: StepId) -> (state: Self)
        ensures
            state.journey_id == journey_id,
            state.current_step == initial_step,
            state.completed_steps@.len() == 0,
            !state.is_complete,
            state.completed_at is None,
            state.metadata.entries@.len() == 0,
    {
        JourneyState {
            journey_id,
            current_step: initial_step,
            completed_steps: Vec::new(),
            is_complete: false,
            metadata: TextMap::new(),
            started_at: Timestamp::now(),
            completed_at: None,
        }
    }

    /// Records `step_id` as completed, once.
    pub fn complete_step(&mut self, step_id: StepId)
        ensures
            final(self).completed_steps@ == with_step(old(self).completed_steps@, step_id),
            no_repeat(old(self).completed_steps@) ==> no_repeat(final(self).completed_steps@),
            final(self).journey_id == old(self).journey_id,
            final(self).current_step == old(self).current_step,
            final(self).is_complete == old(self).is_complete,
            final(self).completed_at == old(self).completed_at,
            final(self).started_at == old(self).started_at,
            final(self).metadata == old(self).metadata,
    {
        let mut i: usize = 0;
        while i < self.completed_steps.len()
            invariant
                i <= self.completed_steps@.len(),
                *self == *old(self),
                forall|j: int| 0 <= j < i ==> self.completed_steps@[j] != step_id,
            decreases self.completed_steps.len() - i,
        {
            if self.completed_steps[i] == step_id {
                return ;
            }
            i += 1;
        }
        self.completed_steps.push(step_id);
    }

    /// Marks the journey complete, at the current time.
    pub fn mark_complete(&mut self)
        ensures
            final(self).is_complete,
            final(self).completed_at is Some,
            final(self).journey_id == old(self).journey_id,
            final(self).current_step == old(self).current_step,
            final(self).completed_steps == old(self).completed_steps,
            final(self).started_at == old(self).started_at,
            final(self).metadata == old(self).metadata,
    {
        self.is_complete = true;
        self.completed_at = Some(Timestamp::now());
    }
}

/// Whether `position` is the first step of the given id.
pub open spec fn first_step_at(steps: Seq<JourneyStep>, id: StepId, position: int) -> bool {
    &&& 0 <= position < steps.len()
    &&& steps[position].id == id
    &&& forall|j: int| 0 <= j < position ==> steps[j].id != id
}

/// Whether some step has the given id.
pub open spec fn has_step(steps: Seq<JourneyStep>, id: StepId) -> bool {
    exists|i: int| 0 <= i < steps.len() && steps[i].id == id
}

/// The position of the first step of the given id.
pub open spec fn step_index(steps: Seq<JourneyStep>, id: StepId) -> int {
    choose|i: int| first_step_at(steps, id, i)
}

/// The first position of an id is the only first position.
pub proof fn lemma_first_step(steps: Seq<JourneyStep>, id: StepId, position: int)
    requires
        first_step_at(steps, id, position),
    ensures
        has_step(steps, id),
        step_index(steps, id) == position,
{
    let chosen = step_index(steps, id);
    assert(first_step_at(steps, id, chosen));
    if chosen < position {
        assert(steps[chosen].id != id);
    } else if position < chosen {
        assert(steps[position].id != id);
    }
}

/// An id that occurs has a first position.
pub proof fn lemma_step_index(steps: Seq<JourneyStep>, id: StepId)
    requires
        has_step(steps, id),
    ensures
        first_step_at(steps, id, step_index(steps, id)),
{
    let some = choose|i: int| 0 <= i < steps.len() && steps[i].id == id;
    lemma_first_below(steps, id, some);
}

proof fn lemma_first_below(steps: Seq<JourneyStep>, id: StepId, bound: int)
    requires
        0 <= bound < steps.len(),
        steps[bound].id == id,
    ensures
        exists|i: int| first_step_at(steps, id, i),
    decreases bound,
{
    if exists|j: int| 0 <= j < bound && steps[j].id == id {
        let j = choose|j: int| 0 <= j < bound && steps[j].id == id;
        lemma_first_below(steps, id, j);
    } else {
        assert(first_step_at(steps, id, bound));
    }
}

/// The position of the first step of the given id.
pub fn find_step_index(steps: &Vec<JourneyStep>, id: StepId) -> (found: Option<usize>)
    ensures
        found.is_some() == has_step(steps@, id),
        found matches Some(i) ==> first_step_at(steps@, id, i as int) && i as int == step_index(
            steps@,
            id,
        ),
{
    let mut i: usize = 0;
    while i < steps.len()
        invariant
            i <= steps@.len(),
            forall|j: int| 0 <= j < i ==> steps@[j].id != id,
        decreases steps.len() - i,
    {
        if steps[i].id == id {
            proof {
                lemma_first_step(steps@, id, i as int);
            }
            return Some(i);
        }
        i += 1;
    }
    None
}

/// The texts that the variables of a context hold, by name. A variable that
/// holds no text has no entry.
pub open spec fn context_texts(context: Context) -> Map<Seq<char>, Seq<char>> {
    Map::new(
        |key: Seq<char>|
            context.variables.contains(key) && context.variables.value(key).value@.text() is Some,
        |key: Seq<char>| context.variables.value(key).value@.text()->0,
    )
}

/// The text under `key`: empty where there is none.
pub open spec fn text_under(texts: Map<Seq<char>, Seq<char>>, key: Seq<char>) -> Seq<char> {
    if texts.contains_key(key) {
        texts[key]
    } else {
        Seq::empty()
    }
}

/// Whether a condition holds of a message, given the texts of the context
/// variables; `None` where its regular expression does not compile.
pub open spec fn condition_holds(
    condition: TransitionCondition,
    message: Seq<char>,
    texts: Map<Seq<char>, Seq<char>>,
) -> Option<bool> {
    match condition {
        TransitionCondition::Always => Some(true),
        TransitionCondition::Match(pattern) => if regex_valid(pattern@) {
            Some(regex_is_match(pattern@, message))
        } else {
            None
        },
        TransitionCondition::ContextVariable { key, value } => Some(
            text_under(texts, key@) == value@,
        ),
    }
}

/// The outcome of looking for the next step.
pub ghost enum Next {
    /// The first transition that holds leads to this step.
    Step(StepId),
    /// No transition holds.
    Stay,
    /// A transition that had to be evaluated has a pattern that does not
    /// compile.
    Invalid(Seq<char>),
}

/// The outcome of evaluating `transitions` in order, beginning at `from`.
pub open spec fn next_from(
    transitions: Seq<Transition>,
    message: Seq<char>,
    texts: Map<Seq<char>, Seq<char>>,
    from: int,
) -> Next
    decreases transitions.len() - from,
{
    if from < 0 || from >= transitions.len() {
        Next::Stay
    } else {
        match condition_holds(transitions[from].condition, message, texts) {
            None => Next::Invalid(transitions[from].condition->Match_0@),
            Some(true) => Next::Step(transitions[from].next_step),
            Some(false) => next_from(transitions, message, texts, from + 1),
        }
    }
}

/// The message of the error for a pattern that does not compile: it ends
/// with what the regular-expression engine objects to.
pub open spec fn invalid_pattern_message(pattern: Seq<char>) -> Seq<char> {
    "Invalid regex pattern: "@ + regex_error(pattern)->0
}

/// Evaluates a transition condition.
pub fn evaluate_condition(condition: &TransitionCondition, message: &str, context: &Context) -> (held:
    Result<bool, AgentError>)
    ensures
        match condition_holds(*condition, message@, context_texts(*context)) {
            Some(value) => held == Ok::<bool, AgentError>(value),
            None => held matches Err(AgentError::Journey(text)) && text@ == invalid_pattern_message(
                condition->Match_0@,
            ),
        },
{
    match condition {
        TransitionCondition::Always => Ok(true),
        TransitionCondition::Match(pattern) => {
            match compile_regex(pattern.as_str()) {
                Ok(regex) => Ok(regex_matches(&regex, message)),
                Err(reason) => Err(
                    AgentError::Journey(join("Invalid regex pattern: ", reason.as_str())),
                ),
            }
        },
        TransitionCondition::ContextVariable { key, value } => {
            let held = match context.variables.get(key.as_str()) {
                Some(variable) => match variable.value.as_str() {
                    Some(text) => str_eq(text, value.as_str()),
                    None => str_eq("", value.as_str()),
                },
                None => str_eq("", value.as_str()),
            };
            proof {
                reveal_strlit("");
                assert(""@ =~= Seq::<char>::empty());
            }
            Ok(held)
        },
    }
}

/// The target of the first transition of `step` whose condition holds.
pub fn find_next_step(step: &JourneyStep, message: &str, context: &Context) -> (next: Result<
    Option<StepId>,
    AgentError,
>)
    ensures
        match next_from(step.transitions@, message@, context_texts(*context), 0) {
            Next::Step(id) => next == Ok::<Option<StepId>, AgentError>(Some(id)),
            Next::Stay => next == Ok::<Option<StepId>, AgentError>(None),
            Next::Invalid(pattern) => next matches Err(AgentError::Journey(text)) && text@
                == invalid_pattern_message(pattern),
        },
{
    let mut i: usize = 0;
    while i < step.transitions.len()
        invariant
            i <= step.transitions@.len(),
            next_from(step.transitions@, message@, context_texts(*context), 0) == next_from(
                step.transitions@,
                message@,
                context_texts(*context),
                i as int,
            ),
        decreases step.transitions.len() - i,
    {
        match evaluate_condition(&step.transitions[i].condition, message, context) {
            Ok(true) => {
                return Ok(Some(step.transitions[i].next_step));
            },
            Ok(false) => {},
            Err(error) => {
                return Err(error);
            },
        }
        i += 1;
    }
    Ok(None)
}

} // verus!
