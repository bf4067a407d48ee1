//! Laws that relate the operations of the library to each other.

use vstd::prelude::*;
use crate::agent::progressed;
use crate::guideline::{
    all_matches, extracted, literal_fires, literal_match, literal_matches, regex_fires,
    regex_match, regex_matches_upto, semantic_fires, semantic_match, semantic_matches, Guideline,
    GuidelineCondition, GuidelineMatch, MatchModel, Score,
};
use crate::journey::{
    has_step, lemma_step_index, step_index, Journey, JourneyState, JourneyStep,
};
use crate::validation::{cyclic_from, edge, is_walk};
use crate::journey_manager::{step_outcome, StepOutcome};
use crate::json::JsonData;
use crate::matcher::{beats, is_best, known, position_of, rank};
use crate::pattern::{ascii_fold, occurs_in, stands_at};
use crate::text::lowercase;
use crate::types::GuidelineId;
use vstd::utf8::encode_utf8;
use crate::textmap::TextMap;
use crate::tool::{call_valid, fills, missing_at, mistyped, with_defaults, ParameterSchema};
use crate::types::StepId;

verus! {

/// Selection is optimal in priority: where any match given belongs to a
/// guideline of the matcher, the match selected does too, and no guideline
/// of a match given has a higher priority than the guideline of the match
/// selected.
pub proof fn lemma_selection_is_priority_optimal(
    guidelines: Seq<Guideline>,
    matches: Seq<GuidelineMatch>,
    selected: int,
    other: int,
)
    requires
        is_best(guidelines, matches, selected),
        0 <= other < matches.len(),
        known(guidelines, matches[other].guideline_id),
    ensures
        known(guidelines, matches[selected].guideline_id),
        guidelines[position_of(guidelines, matches[selected].guideline_id)].priority
            >= guidelines[position_of(guidelines, matches[other].guideline_id)].priority,
{
    let best = rank(guidelines, matches[selected].guideline_id);
    let rival = rank(guidelines, matches[other].guideline_id);
    assert(!beats(rival, best));
}

/// Among matches whose guidelines agree in priority and in creation time,
/// selection picks the one that stands first: a match of the same rank as
/// the selected one never stands before it.
pub proof fn lemma_tie_goes_to_first(
    guidelines: Seq<Guideline>,
    matches: Seq<GuidelineMatch>,
    selected: int,
    other: int,
)
    requires
        is_best(guidelines, matches, selected),
        0 <= other < matches.len(),
        rank(guidelines, matches[other].guideline_id) == rank(
            guidelines,
            matches[selected].guideline_id,
        ),
    ensures
        selected <= other,
{
    if other < selected {
        assert(beats(
            rank(guidelines, matches[selected].guideline_id),
            rank(guidelines, matches[other].guideline_id),
        ));
    }
}

/// At most one position holds the match that selection picks.
pub proof fn lemma_best_is_unique(
    guidelines: Seq<Guideline>,
    matches: Seq<GuidelineMatch>,
    first: int,
    second: int,
)
    requires
        is_best(guidelines, matches, first),
        is_best(guidelines, matches, second),
    ensures
        first == second,
{
    if first < second {
        assert(beats(
            rank(guidelines, matches[second].guideline_id),
            rank(guidelines, matches[first].guideline_id),
        ));
    } else if second < first {
        assert(beats(
            rank(guidelines, matches[first].guideline_id),
            rank(guidelines, matches[second].guideline_id),
        ));
    }
}

proof fn lemma_literal_part(guidelines: Seq<Guideline>, message: Seq<char>, count: nat)
    requires
        count <= guidelines.len(),
    ensures
        forall|i: int|
            0 <= i < count && literal_fires(guidelines, message, i) ==> literal_matches(
                guidelines,
                message,
                count,
            ).contains(literal_match(#[trigger] guidelines[i])),
        forall|k: int|
            0 <= k < literal_matches(guidelines, message, count).len() ==> exists|i: int|
                0 <= i < count && literal_fires(guidelines, message, i)
                    && #[trigger] literal_matches(
                    guidelines,
                    message,
                    count,
                )[k] == literal_match(guidelines[i]),
    decreases count,
{
    if count > 0 {
        let before = literal_matches(guidelines, message, (count - 1) as nat);
        let now = literal_matches(guidelines, message, count);
        lemma_literal_part(guidelines, message, (count - 1) as nat);
        assert forall|i: int|
            0 <= i < count && literal_fires(guidelines, message, i) implies now.contains(
            literal_match(#[trigger] guidelines[i]),
        ) by {
            if i < count - 1 {
                let at = choose|at: int|
                    0 <= at < before.len() && before[at] == literal_match(guidelines[i]);
                assert(now[at] == literal_match(guidelines[i]));
            } else {
                assert(now[before.len() as int] == literal_match(guidelines[i]));
            }
        }
        assert forall|k: int| 0 <= k < now.len() implies exists|i: int|
            0 <= i < count && literal_fires(guidelines, message, i) && #[trigger] now[k]
                == literal_match(guidelines[i]) by {
            if k < before.len() {
                assert(now[k] == before[k]);
                let i = choose|i: int|
                    0 <= i < count - 1 && literal_fires(guidelines, message, i) && before[k]
                        == literal_match(guidelines[i]);
                assert(0 <= i < count && literal_fires(guidelines, message, i) && now[k]
                    == literal_match(guidelines[i]));
            } else {
                let i = count - 1;
                assert(0 <= i < count && literal_fires(guidelines, message, i) && now[k]
                    == literal_match(guidelines[i]));
            }
        }
    }
}

proof fn lemma_regex_part(guidelines: Seq<Guideline>, message: Seq<char>, count: nat)
    requires
        count <= guidelines.len(),
    ensures
        forall|i: int|
            0 <= i < count && regex_fires(guidelines, message, i) ==> regex_matches_upto(
                guidelines,
                message,
                count,
            ).contains(regex_match(#[trigger] guidelines[i], message)),
        forall|k: int|
            0 <= k < regex_matches_upto(guidelines, message, count).len() ==> exists|i: int|
                0 <= i < count && regex_fires(guidelines, message, i)
                    && #[trigger] regex_matches_upto(
                    guidelines,
                    message,
                    count,
                )[k] == regex_match(guidelines[i], message),
    decreases count,
{
    if count > 0 {
        let before = regex_matches_upto(guidelines, message, (count - 1) as nat);
        let now = regex_matches_upto(guidelines, message, count);
        lemma_regex_part(guidelines, message, (count - 1) as nat);
        assert forall|i: int|
            0 <= i < count && regex_fires(guidelines, message, i) implies now.contains(
            regex_match(#[trigger] guidelines[i], message),
        ) by {
            if i < count - 1 {
                let at = choose|at: int|
                    0 <= at < before.len() && before[at] == regex_match(guidelines[i], message);
                assert(now[at] == regex_match(guidelines[i], message));
            } else {
                assert(now[before.len() as int] == regex_match(guidelines[i], message));
            }
        }
        assert forall|k: int| 0 <= k < now.len() implies exists|i: int|
            0 <= i < count && regex_fires(guidelines, message, i) && #[trigger] now[k]
                == regex_match(guidelines[i], message) by {
            if k < before.len() {
                assert(now[k] == before[k]);
                let i = choose|i: int|
                    0 <= i < count - 1 && regex_fires(guidelines, message, i) && before[k]
                        == regex_match(guidelines[i], message);
                assert(0 <= i < count && regex_fires(guidelines, message, i) && now[k]
                    == regex_match(guidelines[i], message));
            } else {
                let i = count - 1;
                assert(0 <= i < count && regex_fires(guidelines, message, i) && now[k]
                    == regex_match(guidelines[i], message));
            }
        }
    }
}

proof fn lemma_semantic_part(guidelines: Seq<Guideline>, similarities: Seq<Option<Score>>, count: nat)
    requires
        count <= guidelines.len(),
    ensures
        forall|i: int|
            0 <= i < count && semantic_fires(guidelines, similarities, i) ==> semantic_matches(
                guidelines,
                similarities,
                count,
            ).contains(semantic_match(#[trigger] guidelines[i], similarities[i]->0)),
        forall|k: int|
            0 <= k < semantic_matches(guidelines, similarities, count).len() ==> exists|i: int|
                0 <= i < count && semantic_fires(guidelines, similarities, i)
                    && #[trigger] semantic_matches(
                    guidelines,
                    similarities,
                    count,
                )[k] == semantic_match(guidelines[i], similarities[i]->0),
    decreases count,
{
    if count > 0 {
        let before = semantic_matches(guidelines, similarities, (count - 1) as nat);
        let now = semantic_matches(guidelines, similarities, count);
        lemma_semantic_part(guidelines, similarities, (count - 1) as nat);
        assert forall|i: int|
            0 <= i < count && semantic_fires(guidelines, similarities, i) implies now.contains(
            semantic_match(#[trigger] guidelines[i], similarities[i]->0),
        ) by {
            if i < count - 1 {
                let at = choose|at: int|
                    0 <= at < before.len() && before[at] == semantic_match(
                        guidelines[i],
                        similarities[i]->0,
                    );
                assert(now[at] == semantic_match(guidelines[i], similarities[i]->0));
            } else {
                assert(now[before.len() as int] == semantic_match(
                    guidelines[i],
                    similarities[i]->0,
                ));
            }
        }
        assert forall|k: int| 0 <= k < now.len() implies exists|i: int|
            0 <= i < count && semantic_fires(guidelines, similarities, i) && #[trigger] now[k]
                == semantic_match(guidelines[i], similarities[i]->0) by {
            if k < before.len() {
                assert(now[k] == before[k]);
                let i = choose|i: int|
                    0 <= i < count - 1 && semantic_fires(guidelines, similarities, i) && before[k]
                        == semantic_match(guidelines[i], similarities[i]->0);
                assert(0 <= i < count && semantic_fires(guidelines, similarities, i) && now[k]
                    == semantic_match(guidelines[i], similarities[i]->0));
            } else {
                let i = count - 1;
                assert(0 <= i < count && semantic_fires(guidelines, similarities, i) && now[k]
                    == semantic_match(guidelines[i], similarities[i]->0));
            }
        }
    }
}

/// Whether `found` is the match of the guideline at `position`, whose
/// condition holds.
pub open spec fn match_of(
    guidelines: Seq<Guideline>,
    message: Seq<char>,
    similarities: Seq<Option<Score>>,
    position: int,
    found: MatchModel,
) -> bool {
    &&& 0 <= position < guidelines.len()
    &&& {
        ||| literal_fires(guidelines, message, position) && found == literal_match(
            guidelines[position],
        )
        ||| regex_fires(guidelines, message, position) && found == regex_match(
            guidelines[position],
            message,
        )
        ||| semantic_fires(guidelines, similarities, position) && found == semantic_match(
            guidelines[position],
            similarities[position]->0,
        )
    }
}

/// Whether `found` is the match of some guideline whose condition holds.
pub open spec fn explained(
    guidelines: Seq<Guideline>,
    message: Seq<char>,
    similarities: Seq<Option<Score>>,
    found: MatchModel,
) -> bool {
    exists|i: int| match_of(guidelines, message, similarities, i, found)
}

/// Matching is exact with respect to the guidelines the matcher holds at
/// the time: every guideline whose condition holds of the message has its
/// match among the matches, and every match is the match of a guideline
/// that the matcher holds and whose condition holds. Since the matches
/// depend on nothing but the current guidelines, a guideline that was
/// removed leaves no match behind and a guideline that was added is matched
/// at once.
pub proof fn lemma_matching_is_exact(
    guidelines: Seq<Guideline>,
    message: Seq<char>,
    similarities: Seq<Option<Score>>,
)
    ensures
        forall|i: int, found: MatchModel| #[trigger]
            match_of(guidelines, message, similarities, i, found) ==> all_matches(
                guidelines,
                message,
                similarities,
            ).contains(found),
        forall|k: int|
            0 <= k < all_matches(guidelines, message, similarities).len() ==> explained(
                guidelines,
                message,
                similarities,
                #[trigger] all_matches(guidelines, message, similarities)[k],
            ),
{
    let count = guidelines.len();
    let literal = literal_matches(guidelines, message, count);
    let regex = regex_matches_upto(guidelines, message, count);
    let semantic = semantic_matches(guidelines, similarities, count);
    let all = all_matches(guidelines, message, similarities);
    lemma_literal_part(guidelines, message, count);
    lemma_regex_part(guidelines, message, count);
    lemma_semantic_part(guidelines, similarities, count);
    assert forall|i: int, found: MatchModel| #[trigger]
        match_of(guidelines, message, similarities, i, found) implies all.contains(found) by {
        if literal_fires(guidelines, message, i) && found == literal_match(guidelines[i]) {
            let at = choose|at: int| 0 <= at < literal.len() && literal[at] == found;
            assert(all[at] == found);
        } else if regex_fires(guidelines, message, i) && found == regex_match(
            guidelines[i],
            message,
        ) {
            let at = choose|at: int| 0 <= at < regex.len() && regex[at] == found;
            assert(all[literal.len() + at] == found);
        } else {
            let at = choose|at: int| 0 <= at < semantic.len() && semantic[at] == found;
            assert(all[literal.len() + regex.len() + at] == found);
        }
    }
    assert forall|k: int|
        0 <= k < all_matches(guidelines, message, similarities).len() implies explained(
        guidelines,
        message,
        similarities,
        #[trigger] all_matches(guidelines, message, similarities)[k],
    ) by {
        if k < literal.len() {
            assert(all[k] == literal[k]);
            let i = choose|i: int|
                0 <= i < count && literal_fires(guidelines, message, i) && literal[k]
                    == literal_match(guidelines[i]);
            assert(match_of(guidelines, message, similarities, i, all[k]));
        } else if k < literal.len() + regex.len() {
            let at = k - literal.len();
            assert(all[k] == regex[at]);
            let i = choose|i: int|
                0 <= i < count && regex_fires(guidelines, message, i) && regex[at] == regex_match(
                    guidelines[i],
                    message,
                );
            assert(match_of(guidelines, message, similarities, i, all[k]));
        } else {
            let at = k - literal.len() - regex.len();
            assert(all[k] == semantic[at]);
            let i = choose|i: int|
                0 <= i < count && semantic_fires(guidelines, similarities, i) && semantic[at]
                    == semantic_match(guidelines[i], similarities[i]->0);
            assert(match_of(guidelines, message, similarities, i, all[k]));
        }
    }
}

/// No two guidelines share an id.
pub open spec fn distinct_ids(guidelines: Seq<Guideline>) -> bool {
    forall|i: int, j: int|
        0 <= i < j < guidelines.len() ==> guidelines[i].id != guidelines[j].id
}

/// Whether some match among `matches` names the guideline `id`.
pub open spec fn names(matches: Seq<MatchModel>, id: GuidelineId) -> bool {
    exists|k: int| 0 <= k < matches.len() && (#[trigger] matches[k]).guideline_id == id
}

/// Whether the condition of the guideline at `position` holds: its literal
/// occurs, its regular expression matches, or its similarity reaches its
/// threshold.
pub open spec fn condition_holds_at(
    guidelines: Seq<Guideline>,
    message: Seq<char>,
    similarities: Seq<Option<Score>>,
    position: int,
) -> bool {
    ||| literal_fires(guidelines, message, position)
    ||| regex_fires(guidelines, message, position)
    ||| semantic_fires(guidelines, similarities, position)
}

/// Every match names a guideline that the matcher holds: an id that was
/// removed, and not added again, is named by no match.
pub proof fn lemma_matches_name_current_guidelines(
    guidelines: Seq<Guideline>,
    message: Seq<char>,
    similarities: Seq<Option<Score>>,
    k: int,
)
    requires
        0 <= k < all_matches(guidelines, message, similarities).len(),
    ensures
        exists|i: int|
            0 <= i < guidelines.len() && (#[trigger] guidelines[i]).id == all_matches(
                guidelines,
                message,
                similarities,
            )[k].guideline_id,
{
    lemma_matching_is_exact(guidelines, message, similarities);
    let found = all_matches(guidelines, message, similarities)[k];
    assert(explained(guidelines, message, similarities, found));
    let i = choose|i: int| match_of(guidelines, message, similarities, i, found);
    assert(guidelines[i].id == found.guideline_id);
}

/// Among guidelines of distinct ids, matching names exactly the guidelines
/// whose condition holds of the message.
pub proof fn lemma_matched_ids_are_exact(
    guidelines: Seq<Guideline>,
    message: Seq<char>,
    similarities: Seq<Option<Score>>,
    position: int,
)
    requires
        distinct_ids(guidelines),
        0 <= position < guidelines.len(),
    ensures
        names(all_matches(guidelines, message, similarities), guidelines[position].id)
            <==> condition_holds_at(guidelines, message, similarities, position),
{
    let all = all_matches(guidelines, message, similarities);
    let id = guidelines[position].id;
    lemma_matching_is_exact(guidelines, message, similarities);
    if condition_holds_at(guidelines, message, similarities, position) {
        let found = if literal_fires(guidelines, message, position) {
            literal_match(guidelines[position])
        } else if regex_fires(guidelines, message, position) {
            regex_match(guidelines[position], message)
        } else {
            semantic_match(guidelines[position], similarities[position]->0)
        };
        assert(match_of(guidelines, message, similarities, position, found));
        assert(all.contains(found));
        let k = choose|k: int| 0 <= k < all.len() && all[k] == found;
        assert(all[k].guideline_id == id);
    }
    if names(all, id) {
        let k = choose|k: int| 0 <= k < all.len() && (#[trigger] all[k]).guideline_id == id;
        assert(explained(guidelines, message, similarities, all[k]));
        let i = choose|i: int| match_of(guidelines, message, similarities, i, all[k]);
        assert(guidelines[i].id == id);
        if i < position {
            assert(guidelines[i].id != guidelines[position].id);
        } else if position < i {
            assert(guidelines[position].id != guidelines[i].id);
        }
    }
}

/// Literal matching is case-insensitive occurrence: among guidelines of
/// distinct ids, a guideline with a literal condition is matched exactly
/// when the lower-case form of its text occurs in the lower-case form of
/// the message, and its match has relevance 1.0 and no parameters.
pub proof fn lemma_literal_matches_where_it_occurs(
    guidelines: Seq<Guideline>,
    message: Seq<char>,
    similarities: Seq<Option<Score>>,
    position: int,
)
    requires
        distinct_ids(guidelines),
        0 <= position < guidelines.len(),
        guidelines[position].condition is Literal,
    ensures
        names(all_matches(guidelines, message, similarities), guidelines[position].id)
            <==> occurs_in(
            lowercase(guidelines[position].condition->Literal_0@),
            lowercase(message),
        ),
        forall|k: int|
            0 <= k < all_matches(guidelines, message, similarities).len() && (#[trigger] all_matches(
                guidelines,
                message,
                similarities,
            )[k]).guideline_id == guidelines[position].id ==> all_matches(
                guidelines,
                message,
                similarities,
            )[k] == literal_match(guidelines[position]),
{
    let all = all_matches(guidelines, message, similarities);
    lemma_matched_ids_are_exact(guidelines, message, similarities, position);
    lemma_matching_is_exact(guidelines, message, similarities);
    assert forall|k: int|
        0 <= k < all.len() && (#[trigger] all[k]).guideline_id
            == guidelines[position].id implies all[k] == literal_match(guidelines[position]) by {
        assert(explained(guidelines, message, similarities, all[k]));
        let i = choose|i: int| match_of(guidelines, message, similarities, i, all[k]);
        if i < position {
            assert(guidelines[i].id != guidelines[position].id);
        } else if position < i {
            assert(guidelines[position].id != guidelines[i].id);
        }
    }
}

/// The encoding of two texts in a row is the encoding of the first followed
/// by the encoding of the second.
pub proof fn lemma_encoding_of_concatenation(first: Seq<char>, second: Seq<char>)
    ensures
        encode_utf8(first + second) == encode_utf8(first) + encode_utf8(second),
    decreases first.len(),
{
    if first.len() == 0 {
        assert(first + second =~= second);
        assert(encode_utf8(first) + encode_utf8(second) =~= encode_utf8(second));
    } else {
        assert((first + second).drop_first() =~= first.drop_first() + second);
        lemma_encoding_of_concatenation(first.drop_first(), second);
        assert(encode_utf8(first + second) =~= encode_utf8(first) + encode_utf8(second));
    }
}

/// A text occurs in every text that holds it: between any beginning and any
/// end.
pub proof fn lemma_text_occurs_where_it_stands(before: Seq<char>, text: Seq<char>, after: Seq<char>)
    ensures
        occurs_in(text, before + text + after),
{
    lemma_encoding_of_concatenation(before + text, after);
    lemma_encoding_of_concatenation(before, text);
    let pattern = encode_utf8(text);
    let haystack = encode_utf8(before + text + after);
    let at = encode_utf8(before).len() as int;
    assert forall|j: int| 0 <= j < pattern.len() implies ascii_fold(#[trigger] pattern[j])
        == ascii_fold(haystack[at + j]) by {
        assert(haystack[at + j] == pattern[j]);
    }
    assert(stands_at(pattern, haystack, at));
}

/// Every score of every match lies between 0 and 1, provided that the
/// thresholds of the semantic guidelines are not negative and no similarity
/// given is above 1.
pub proof fn lemma_scores_in_unit_range(
    guidelines: Seq<Guideline>,
    message: Seq<char>,
    similarities: Seq<Option<Score>>,
    k: int,
)
    requires
        0 <= k < all_matches(guidelines, message, similarities).len(),
        forall|i: int|
            0 <= i < guidelines.len()
                ==> (#[trigger] guidelines[i].condition matches GuidelineCondition::Semantic {
                threshold,
                ..
            } ==> threshold.millionths >= 0),
        forall|i: int|
            0 <= i < similarities.len() ==> (#[trigger] similarities[i] matches Some(similarity)
                ==> similarity.millionths <= 1_000_000),
    ensures
        all_matches(guidelines, message, similarities)[k].relevance_score.in_unit_range(),
        all_matches(guidelines, message, similarities)[k].semantic_score.in_unit_range(),
{
    lemma_matching_is_exact(guidelines, message, similarities);
    let found = all_matches(guidelines, message, similarities)[k];
    assert(explained(guidelines, message, similarities, found));
    let i = choose|i: int| match_of(guidelines, message, similarities, i, found);
    assert(match_of(guidelines, message, similarities, i, found));
}

/// Capture group `i + 1` is reported under the `i`-th name, unless a later
/// name that has a group of its own is the same.
pub proof fn lemma_group_goes_under_its_name(
    names: Seq<Seq<char>>,
    groups: Seq<Option<Seq<char>>>,
    count: nat,
    i: int,
)
    requires
        count <= names.len(),
        0 <= i < count,
        i + 1 < groups.len(),
        groups[i + 1] is Some,
        forall|j: int|
            i < j < count && j + 1 < groups.len() && groups[j + 1] is Some ==> names[j] != names[i],
    ensures
        extracted(names, Some(groups), count).contains_key(names[i]),
        extracted(names, Some(groups), count)[names[i]] == JsonData::Text(groups[i + 1]->0),
    decreases count,
{
    if count - 1 > i {
        lemma_group_goes_under_its_name(names, groups, (count - 1) as nat, i);
    }
}

/// A journey in which a step leads to a second step and that one leads back
/// has a cycle from the first step, so that it is not well formed when it
/// begins there.
pub proof fn lemma_back_and_forth_is_cyclic(steps: Seq<JourneyStep>, first: StepId, second: StepId)
    requires
        edge(steps, first, second),
        edge(steps, second, first),
    ensures
        cyclic_from(steps, first),
{
    let walk = seq![first, second, first];
    assert forall|k: int| 0 <= k < walk.len() - 1 implies edge(steps, #[trigger] walk[k], walk[k
        + 1]) by {
        if k == 0 {
            assert(walk[0] == first && walk[1] == second);
        } else {
            assert(walk[1] == second && walk[2] == first);
        }
    }
    assert(is_walk(steps, walk) && walk[0] == first && 0 <= 0 < 2 < walk.len() && walk[0]
        == walk[2]);
}

/// Processing a terminal step hands back that very step.
pub proof fn lemma_terminal_step_stays(
    journey: Journey,
    current: StepId,
    message: Seq<char>,
    texts: Map<Seq<char>, Seq<char>>,
)
    requires
        has_step(journey.steps@, current),
        journey.steps@[step_index(journey.steps@, current)].transitions@.len() == 0,
    ensures
        step_outcome(journey, current, message, texts) == StepOutcome::Goes(
            journey.steps@[step_index(journey.steps@, current)],
        ),
        journey.steps@[step_index(journey.steps@, current)].id == current,
{
    lemma_step_index(journey.steps@, current);
}

/// A journey whose step handed back is the current step is complete
/// afterwards, with the step among the completed ones.
pub proof fn lemma_staying_completes(before: JourneyState, after: JourneyState)
    requires
        progressed(before, before.current_step, after),
    ensures
        after.is_complete,
        after.current_step == before.current_step,
        after.completed_steps@.contains(before.current_step),
{
    let list = before.completed_steps@;
    if !list.contains(before.current_step) {
        assert(list.push(before.current_step)[list.len() as int] == before.current_step);
    }
}

/// A call that leaves out a required parameter is not valid.
pub proof fn lemma_missing_required_is_rejected(
    schema: TextMap<ParameterSchema>,
    parameters: Map<Seq<char>, JsonData>,
    position: int,
)
    requires
        missing_at(schema.entries@, parameters, position),
    ensures
        !call_valid(schema, parameters),
{
}

/// A call with a declared parameter of the wrong kind is not valid.
pub proof fn lemma_mistyped_is_rejected(
    schema: TextMap<ParameterSchema>,
    parameters: Map<Seq<char>, JsonData>,
    name: Seq<char>,
)
    requires
        mistyped(schema, parameters, name),
    ensures
        !call_valid(schema, parameters),
{
}

/// Defaults keep every parameter of the call as it is.
pub proof fn lemma_defaults_keep_the_call(
    schema: Seq<(String, ParameterSchema)>,
    parameters: Map<Seq<char>, JsonData>,
    count: nat,
    name: Seq<char>,
)
    requires
        count <= schema.len(),
        parameters.contains_key(name),
    ensures
        with_defaults(schema, parameters, count).contains_key(name),
        with_defaults(schema, parameters, count)[name] == parameters[name],
    decreases count,
{
    if count > 0 {
        lemma_defaults_keep_the_call(schema, parameters, (count - 1) as nat, name);
    }
}

/// Defaults add nothing under a name that no optional declaration with a
/// default has.
pub proof fn lemma_defaults_add_only_declared(
    schema: Seq<(String, ParameterSchema)>,
    parameters: Map<Seq<char>, JsonData>,
    count: nat,
    name: Seq<char>,
)
    requires
        count <= schema.len(),
        !parameters.contains_key(name),
        forall|j: int| 0 <= j < count && schema[j].0@ == name ==> !fills(schema[j].1),
    ensures
        !with_defaults(schema, parameters, count).contains_key(name),
    decreases count,
{
    if count > 0 {
        lemma_defaults_add_only_declared(schema, parameters, (count - 1) as nat, name);
    }
}

/// An optional parameter that the call leaves out gets the default of the
/// first optional declaration of its name that has one.
pub proof fn lemma_default_is_injected(
    schema: Seq<(String, ParameterSchema)>,
    parameters: Map<Seq<char>, JsonData>,
    count: nat,
    position: int,
)
    requires
        count <= schema.len(),
        0 <= position < count,
        !schema[position].1.required,
        schema[position].1.default is Some,
        !parameters.contains_key(schema[position].0@),
        forall|j: int|
            0 <= j < position && schema[j].0@ == schema[position].0@ ==> !fills(schema[j].1),
    ensures
        with_defaults(schema, parameters, count).contains_key(schema[position].0@),
        with_defaults(schema, parameters, count)[schema[position].0@]
            == schema[position].1.default->0@,
    decreases count,
{
    if count - 1 > position {
        lemma_default_is_injected(schema, parameters, (count - 1) as nat, position);
    } else {
        lemma_defaults_add_only_declared(
            schema,
            parameters,
            position as nat,
            schema[position].0@,
        );
    }
}

/// A required parameter that the call leaves out is not made up for by a
/// default: where no optional declaration of its name has a default, the
/// call is rejected after the defaults have been applied, whether or not
/// the required declaration itself has one.
pub proof fn lemma_required_needs_the_call(
    schema: TextMap<ParameterSchema>,
    parameters: Map<Seq<char>, JsonData>,
    position: int,
)
    requires
        0 <= position < schema.entries@.len(),
        schema.entries@[position].1.required,
        !parameters.contains_key(schema.entries@[position].0@),
        forall|j: int|
            0 <= j < schema.entries@.len() && schema.entries@[j].0@ == schema.entries@[position].0@
                ==> !fills(schema.entries@[j].1),
    ensures
        !call_valid(
            schema,
            with_defaults(schema.entries@, parameters, schema.entries@.len()),
        ),
{
    let after = with_defaults(schema.entries@, parameters, schema.entries@.len());
    lemma_defaults_add_only_declared(
        schema.entries@,
        parameters,
        schema.entries@.len(),
        schema.entries@[position].0@,
    );
    assert(missing_at(schema.entries@, after, position));
}

} // verus!
