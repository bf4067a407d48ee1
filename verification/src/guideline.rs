//! Guidelines and the engine that matches them against a message.
//!
//! A guideline pairs a condition with an action and a priority. The matcher
//! keeps the guidelines in the order in which they were added, together with
//! an index of their patterns that is rebuilt on every change. Matching
//! reports every guideline whose condition holds of a message; selection
//! picks the one of highest priority, the newest among equals.

use vstd::prelude::*;
use crate::grouping::{holds, unique_keys};
use crate::json::{clone_values, json_map, JsonData, JsonValue};
use crate::pattern::{
    automaton_builds, captured, occurs_in, regex_captures, regex_is_match, regex_valid, texts,
};
use crate::text::{join, lowercase};
use crate::textmap::TextMap;
use crate::types::{GuidelineId, Timestamp, ToolId};

verus! {

/// A score between 0 and 1, in millionths.
#[derive(Clone, Copy, Debug, PartialEq, Eq, Hash, Structural)]
pub struct Score {
    pub millionths: i32,
}

/// The relevance of a literal match: 1.0.
pub const LITERAL_RELEVANCE: i32 = 1_000_000;

/// The relevance of a regular-expression match: 0.9.
pub const REGEX_RELEVANCE: i32 = 900_000;

impl Score {
    /// The score of `millionths` millionths.
    pub fn from_millionths(millionths: i32) -> (score: Self)
        ensures
            score.millionths == millionths,
    {
        Score { millionths }
    }

    /// Whether the score lies between 0 and 1.
    pub open spec fn in_unit_range(self) -> bool {
        0 <= self.millionths <= 1_000_000
    }
}

/// The condition under which a guideline applies.
#[derive(Clone, Debug)]
pub enum GuidelineCondition {
    /// The lower-case form of the text occurs in the lower-case form of the
    /// message.
    Literal(String),
    /// The regular expression matches the message.
    Regex(String),
    /// The message is at least as similar to the description as the
    /// threshold asks.
    Semantic { description: String, threshold: Score },
}

/// What to do when a guideline applies.
#[derive(Clone, Debug)]
pub struct GuidelineAction {
    pub response_template: String,
    pub requires_llm: bool,
    /// The names under which capture groups 1, 2, ... are reported.
    pub parameters: Vec<String>,
}

/// The declaration of a parameter of a guideline.
#[derive(Clone, Debug)]
pub struct ParameterDef {
    pub name: String,
    pub param_type: String,
    pub required: bool,
    pub description: String,
}

/// A behavioural rule.
#[derive(Clone, Debug)]
pub struct Guideline {
    pub id: GuidelineId,
    pub condition: GuidelineCondition,
    pub action: GuidelineAction,
    pub priority: i32,
    pub tools: Vec<ToolId>,
    pub parameters: TextMap<ParameterDef>,
    pub created_at: Timestamp,
}

/// The outcome of matching one guideline against a message.
#[derive(Debug)]
pub struct GuidelineMatch {
    pub guideline_id: GuidelineId,
    pub relevance_score: Score,
    pub semantic_score: Score,
    pub matched_condition: String,
    pub extracted_parameters: TextMap<JsonValue>,
    pub explanation: Option<String>,
}

/// The content of a [`GuidelineMatch`].
pub ghost struct MatchModel {
    pub guideline_id: GuidelineId,
    pub relevance_score: Score,
    pub semantic_score: Score,
    pub matched_condition: Seq<char>,
    pub extracted_parameters: Map<Seq<char>, JsonData>,
    pub explanation: Option<Seq<char>>,
}

impl View for GuidelineMatch {
    type V = MatchModel;

    open spec fn view(&self) -> MatchModel {
        MatchModel {
            guideline_id: self.guideline_id,
            relevance_score: self.relevance_score,
            semantic_score: self.semantic_score,
            matched_condition: self.matched_condition@,
            extracted_parameters: json_map(self.extracted_parameters),
            explanation: match self.explanation {
                Some(text) => Some(text@),
                None => None,
            },
        }
    }
}

/// The contents of a list of matches.
pub open spec fn match_models(matches: Seq<GuidelineMatch>) -> Seq<MatchModel> {
    Seq::new(matches.len(), |i: int| matches[i]@)
}

impl GuidelineCondition {
    /// A one-line description: the kind of the condition and its text.
    pub open spec fn description(self) -> Seq<char> {
        match self {
            GuidelineCondition::Literal(text) => "Literal("@ + text@ + ")"@,
            GuidelineCondition::Regex(pattern) => "Regex("@ + pattern@ + ")"@,
            GuidelineCondition::Semantic { description, .. } => "Semantic("@ + description@ + ")"@,
        }
    }

    /// A one-line description: the kind of the condition and its text.
    pub fn describe(&self) -> (text: String)
        ensures
            text@ == self.description(),
    {
        let (kind, body) = match self {
            GuidelineCondition::Literal(text) => ("Literal(", text),
            GuidelineCondition::Regex(pattern) => ("Regex(", pattern),
            GuidelineCondition::Semantic { description, .. } => ("Semantic(", description),
        };
        let mut text = join(kind, body.as_str());
        text.append(")");
        text
    }
}

/// The lower-case text of a literal condition.
pub open spec fn literal_key(guideline: Guideline) -> Option<Seq<char>> {
    match guideline.condition {
        GuidelineCondition::Literal(text) => Some(lowercase(text@)),
        _ => None,
    }
}

/// The source of a regular-expression condition that compiles.
pub open spec fn regex_key(guideline: Guideline) -> Option<Seq<char>> {
    match guideline.condition {
        GuidelineCondition::Regex(pattern) => if regex_valid(pattern@) {
            Some(pattern@)
        } else {
            None
        },
        _ => None,
    }
}

/// The literal key of each guideline.
pub open spec fn literal_keys(guidelines: Seq<Guideline>) -> Seq<Option<Seq<char>>> {
    Seq::new(guidelines.len(), |i: int| literal_key(guidelines[i]))
}

/// The regular-expression key of each guideline.
pub open spec fn regex_keys(guidelines: Seq<Guideline>) -> Seq<Option<Seq<char>>> {
    Seq::new(guidelines.len(), |i: int| regex_key(guidelines[i]))
}

/// The patterns of the literal automaton: the distinct lower-case literals,
/// in the order of their first guideline.
pub open spec fn literal_patterns(guidelines: Seq<Guideline>) -> Seq<Seq<char>> {
    unique_keys(literal_keys(guidelines))
}

/// Whether the automaton can be built for these guidelines. Without a
/// literal condition no automaton is built.
pub open spec fn indexable(guidelines: Seq<Guideline>) -> bool {
    literal_patterns(guidelines).len() == 0 || automaton_builds(literal_patterns(guidelines))
}

/// Whether the literal condition of guideline `position` holds of `message`:
/// the lower-case text of the condition occurs in the lower-case message.
pub open spec fn literal_fires(guidelines: Seq<Guideline>, message: Seq<char>, position: int) -> bool {
    &&& 0 <= position < guidelines.len()
    &&& guidelines[position].condition matches GuidelineCondition::Literal(text)
    &&& occurs_in(lowercase(text@), lowercase(message))
}

/// Whether the regular expression of guideline `position` compiles and
/// matches `message`.
pub open spec fn regex_fires(guidelines: Seq<Guideline>, message: Seq<char>, position: int) -> bool {
    &&& 0 <= position < guidelines.len()
    &&& guidelines[position].condition matches GuidelineCondition::Regex(pattern)
    &&& regex_valid(pattern@)
    &&& regex_is_match(pattern@, message)
}

/// Whether guideline `position` is semantic and the similarity given for it
/// reaches its threshold.
pub open spec fn semantic_fires(
    guidelines: Seq<Guideline>,
    similarities: Seq<Option<Score>>,
    position: int,
) -> bool {
    &&& 0 <= position < guidelines.len()
    &&& position < similarities.len()
    &&& guidelines[position].condition matches GuidelineCondition::Semantic { threshold, .. }
    &&& similarities[position] matches Some(similarity)
    &&& similarity.millionths >= threshold.millionths
}

/// The parameters drawn from capture groups: group `i + 1` is reported under
/// the `i`-th of the first `count` names, as a text value, where the group
/// took part in the match. Of two equal names the later one counts.
pub open spec fn extracted(
    names: Seq<Seq<char>>,
    groups: Option<Seq<Option<Seq<char>>>>,
    count: nat,
) -> Map<Seq<char>, JsonData>
    decreases count,
{
    if count == 0 {
        Map::empty()
    } else {
        let before = extracted(names, groups, (count - 1) as nat);
        match groups {
            Some(list) => if count < list.len() && list[count as int] is Some {
                before.insert(names[count - 1], JsonData::Text(list[count as int]->0))
            } else {
                before
            },
            None => before,
        }
    }
}

/// The match that a literal guideline yields.
pub open spec fn literal_match(guideline: Guideline) -> MatchModel {
    MatchModel {
        guideline_id: guideline.id,
        relevance_score: Score { millionths: LITERAL_RELEVANCE },
        semantic_score: Score { millionths: 0 },
        matched_condition: guideline.condition.description(),
        extracted_parameters: Map::empty(),
        explanation: Some("Exact literal match"@),
    }
}

/// The match that a regular-expression guideline yields on `message`.
pub open spec fn regex_match(guideline: Guideline, message: Seq<char>) -> MatchModel {
    MatchModel {
        guideline_id: guideline.id,
        relevance_score: Score { millionths: REGEX_RELEVANCE },
        semantic_score: Score { millionths: 0 },
        matched_condition: guideline.condition.description(),
        extracted_parameters: extracted(
            texts(guideline.action.parameters@),
            regex_captures(guideline.condition->Regex_0@, message),
            guideline.action.parameters@.len(),
        ),
        explanation: Some("Regex pattern match"@),
    }
}

/// The match that a semantic guideline yields at the given similarity.
pub open spec fn semantic_match(guideline: Guideline, similarity: Score) -> MatchModel {
    MatchModel {
        guideline_id: guideline.id,
        relevance_score: similarity,
        semantic_score: similarity,
        matched_condition: guideline.condition.description(),
        extracted_parameters: Map::empty(),
        explanation: Some("Semantic similarity match"@),
    }
}

/// The literal matches among the first `count` guidelines, in order.
pub open spec fn literal_matches(guidelines: Seq<Guideline>, message: Seq<char>, count: nat) -> Seq<
    MatchModel,
>
    decreases count,
{
    if count == 0 {
        Seq::empty()
    } else {
        let before = literal_matches(guidelines, message, (count - 1) as nat);
        if literal_fires(guidelines, message, count - 1) {
            before.push(literal_match(guidelines[count - 1]))
        } else {
            before
        }
    }
}

/// The regular-expression matches among the first `count` guidelines, in
/// order.
pub open spec fn regex_matches_upto(guidelines: Seq<Guideline>, message: Seq<char>, count: nat) -> Seq<
    MatchModel,
>
    decreases count,
{
    if count == 0 {
        Seq::empty()
    } else {
        let before = regex_matches_upto(guidelines, message, (count - 1) as nat);
        if regex_fires(guidelines, message, count - 1) {
            before.push(regex_match(guidelines[count - 1], message))
        } else {
            before
        }
    }
}

/// The semantic matches among the first `count` guidelines, in order.
pub open spec fn semantic_matches(
    guidelines: Seq<Guideline>,
    similarities: Seq<Option<Score>>,
    count: nat,
) -> Seq<MatchModel>
    decreases count,
{
    if count == 0 {
        Seq::empty()
    } else {
        let before = semantic_matches(guidelines, similarities, (count - 1) as nat);
        if semantic_fires(guidelines, similarities, count - 1) {
            before.push(semantic_match(guidelines[count - 1], similarities[count - 1]->0))
        } else {
            before
        }
    }
}

/// Every match of `message`: the literal matches, then the
/// regular-expression matches, then the semantic ones, each group in the
/// order of the guidelines.
pub open spec fn all_matches(
    guidelines: Seq<Guideline>,
    message: Seq<char>,
    similarities: Seq<Option<Score>>,
) -> Seq<MatchModel> {
    literal_matches(guidelines, message, guidelines.len()) + regex_matches_upto(
        guidelines,
        message,
        guidelines.len(),
    ) + semantic_matches(guidelines, similarities, guidelines.len())
}

/// Draws named parameters from the capture groups of a match: group `i + 1`
/// goes under the `i`-th name.
pub fn extract_parameters(names: &Vec<String>, groups: &Option<Vec<Option<String>>>) -> (parameters:
    TextMap<JsonValue>)
    ensures
        json_map(parameters) == extracted(texts(names@), captured(*groups), names@.len()),
{
    let mut parameters: TextMap<JsonValue> = TextMap::new();
    assert(json_map(parameters) =~= Map::empty());
    let mut i: usize = 0;
    while i < names.len()
        invariant
            i <= names@.len(),
            json_map(parameters) == extracted(texts(names@), captured(*groups), i as nat),
        decreases names.len() - i,
    {
        let ghost before = json_map(parameters);
        if let Some(list) = groups {
            if i < usize::MAX && i + 1 < list.len() {
                if let Some(text) = &list[i + 1] {
                    let value = JsonValue::Text(text.clone());
                    parameters.insert(names[i].clone(), value);
                    assert(json_map(parameters) =~= before.insert(names@[i as int]@, value@));
                }
            }
        }
        i += 1;
    }
    parameters
}

impl Clone for GuidelineMatch {
    /// A deep copy.
    fn clone(&self) -> (copy: Self)
        ensures
            copy@ == self@,
    {
        GuidelineMatch {
            guideline_id: self.guideline_id,
            relevance_score: self.relevance_score,
            semantic_score: self.semantic_score,
            matched_condition: self.matched_condition.clone(),
            extracted_parameters: clone_values(&self.extracted_parameters),
            explanation: match &self.explanation {
                Some(text) => Some(text.clone()),
                None => None,
            },
        }
    }
}

} // verus!
