//! The default guideline matcher and its pattern index.

use vstd::prelude::*;
use crate::context::Context;
use crate::error::AgentError;
use crate::grouping::{
    fires, group_keys, grouped, holds, lemma_marks_fire, lemma_unique_keys, mark_hits,
    unique_keys,
};
use crate::guideline::{
    all_matches, extract_parameters, indexable, literal_fires, literal_key, literal_keys,
    literal_match, literal_matches, match_models, regex_fires, regex_key, regex_keys, regex_match,
    regex_matches_upto, semantic_match, semantic_matches, Guideline, GuidelineCondition,
    GuidelineMatch, Score, LITERAL_RELEVANCE, REGEX_RELEVANCE,
};
use crate::json::json_map;
use crate::pattern::{
    automaton_patterns, automaton_search, build_automaton, build_regex_set,
    capture_groups, compile_regex, optional_texts, regex_is_match, regex_matches,
    occurs_in, regex_set_matches, regex_set_patterns, regex_source, regex_valid, texts,
};
use crate::text::{lowercase, to_lowercase};
use crate::textmap::TextMap;
use crate::types::{GuidelineId, Timestamp};

verus! {

/// The pattern engines over the conditions of a list of guidelines.
///
/// Equal literals share one entry of the automaton, equal regular
/// expressions one entry of the set; each entry lists the guidelines that
/// share it. Regular expressions that do not compile have no entry.
pub struct PatternIndex {
    literals: Vec<String>,
    literal_groups: Vec<Vec<usize>>,
    automaton: Option<aho_corasick::AhoCorasick>,
    patterns: Vec<String>,
    pattern_groups: Vec<Vec<usize>>,
    regexes: Vec<regex::Regex>,
    regex_set: Option<regex::RegexSet>,
}

/// The lower-case literal of each guideline that has one.
fn collect_literal_keys(guidelines: &Vec<Guideline>) -> (keys: Vec<Option<String>>)
    ensures
        optional_texts(keys@) == literal_keys(guidelines@),
{
    let mut keys: Vec<Option<String>> = Vec::new();
    let mut i: usize = 0;
    while i < guidelines.len()
        invariant
            i <= guidelines@.len(),
            keys@.len() == i,
            forall|k: int| 0 <= k < i ==> optional_texts(keys@)[k] == literal_key(guidelines@[k]),
        decreases guidelines.len() - i,
    {
        let ghost before = keys@;
        let key = match &guidelines[i].condition {
            GuidelineCondition::Literal(text) => Some(to_lowercase(text.as_str())),
            _ => None,
        };
        keys.push(key);
        assert forall|k: int| 0 <= k < i + 1 implies optional_texts(keys@)[k] == literal_key(
            guidelines@[k],
        ) by {
            if k < i {
                assert(keys@[k] == before[k]);
                assert(optional_texts(before)[k] == literal_key(guidelines@[k]));
            }
        }
        i += 1;
    }
    assert(optional_texts(keys@) =~= literal_keys(guidelines@));
    keys
}

/// The source of each regular-expression guideline whose pattern compiles.
fn collect_regex_keys(guidelines: &Vec<Guideline>) -> (keys: Vec<Option<String>>)
    ensures
        optional_texts(keys@) == regex_keys(guidelines@),
{
    let mut keys: Vec<Option<String>> = Vec::new();
    let mut i: usize = 0;
    while i < guidelines.len()
        invariant
            i <= guidelines@.len(),
            keys@.len() == i,
            forall|k: int| 0 <= k < i ==> optional_texts(keys@)[k] == regex_key(guidelines@[k]),
        decreases guidelines.len() - i,
    {
        let ghost before = keys@;
        let key = match &guidelines[i].condition {
            GuidelineCondition::Regex(pattern) => {
                if compile_regex(pattern.as_str()).is_ok() {
                    Some(pattern.clone())
                } else {
                    None
                }
            },
            _ => None,
        };
        keys.push(key);
        assert forall|k: int| 0 <= k < i + 1 implies optional_texts(keys@)[k] == regex_key(
            guidelines@[k],
        ) by {
            if k < i {
                assert(keys@[k] == before[k]);
                assert(optional_texts(before)[k] == regex_key(guidelines@[k]));
            }
        }
        i += 1;
    }
    assert(optional_texts(keys@) =~= regex_keys(guidelines@));
    keys
}

impl PatternIndex {
    /// Whether the index is the one of `guidelines`.
    pub closed spec fn describes(&self, guidelines: Seq<Guideline>) -> bool {
        &&& grouped(literal_keys(guidelines), texts(self.literals@), self.literal_groups@)
        &&& self.literals@.len() == 0 ==> self.automaton is None
        &&& self.literals@.len() > 0 ==> (self.automaton matches Some(automaton)
            && automaton_patterns(automaton) == texts(self.literals@))
        &&& grouped(regex_keys(guidelines), texts(self.patterns@), self.pattern_groups@)
        &&& self.regexes@.len() == self.patterns@.len()
        &&& forall|k: int|
            0 <= k < self.regexes@.len() ==> regex_source(#[trigger] self.regexes@[k])
                == self.patterns@[k]@
        &&& self.regex_set matches Some(set) ==> regex_set_patterns(set) == texts(self.patterns@)
    }

    /// The index of no guideline.
    pub fn empty() -> (index: Self)
        ensures
            index.describes(Seq::empty()),
    {
        let index = PatternIndex {
            literals: Vec::new(),
            literal_groups: Vec::new(),
            automaton: None,
            patterns: Vec::new(),
            pattern_groups: Vec::new(),
            regexes: Vec::new(),
            regex_set: None,
        };
        assert(texts(index.literals@) =~= unique_keys(literal_keys(Seq::empty())));
        assert(texts(index.patterns@) =~= unique_keys(regex_keys(Seq::empty())));
        index
    }

    /// Builds the index of `guidelines`: `None` where the literal automaton
    /// cannot be built.
    pub fn build(guidelines: &Vec<Guideline>) -> (built: Option<Self>)
        ensures
            built.is_some() == indexable(guidelines@),
            built matches Some(index) ==> index.describes(guidelines@),
    {
        let literal_keys = collect_literal_keys(guidelines);
        let (literals, literal_groups) = group_keys(&literal_keys);
        let automaton = if literals.len() == 0 {
            None
        } else {
            match build_automaton(&literals) {
                Some(automaton) => Some(automaton),
                None => {
                    return None;
                },
            }
        };
        let regex_keys = collect_regex_keys(guidelines);
        let (patterns, pattern_groups) = group_keys(&regex_keys);
        let mut regexes: Vec<regex::Regex> = Vec::new();
        let mut k: usize = 0;
        while k < patterns.len()
            invariant
                k <= patterns@.len(),
                regexes@.len() == k,
                texts(patterns@) == unique_keys(crate::guideline::regex_keys(guidelines@)),
                forall|j: int|
                    0 <= j < k ==> regex_source(#[trigger] regexes@[j]) == patterns@[j]@,
            decreases patterns.len() - k,
        {
            proof {
                let keys = crate::guideline::regex_keys(guidelines@);
                lemma_unique_keys(keys);
                assert(texts(patterns@)[k as int] == patterns@[k as int]@);
                assert(keys.contains(Some(unique_keys(keys)[k as int])));
                let at = choose|at: int| 0 <= at < keys.len() && keys[at]
                    == Some(patterns@[k as int]@);
                assert(regex_key(guidelines@[at]) == Some(patterns@[k as int]@));
                assert(regex_valid(patterns@[k as int]@));
            }
            match compile_regex(patterns[k].as_str()) {
                Ok(regex) => {
                    regexes.push(regex);
                },
                Err(_) => {
                    assert(false);
                },
            }
            k += 1;
        }
        let regex_set = if patterns.len() == 0 {
            None
        } else {
            build_regex_set(&patterns)
        };
        Some(
            PatternIndex {
                literals,
                literal_groups,
                automaton,
                patterns,
                pattern_groups,
                regexes,
                regex_set,
            },
        )
    }

    /// For each of the `count` guidelines, whether its literal fires on
    /// `message`.
    fn literal_marks(&self, message: &str, count: usize, Ghost(guidelines): Ghost<Seq<Guideline>>) -> (marks: Vec<
        Option<usize>,
    >)
        requires
            self.describes(guidelines),
            count == guidelines.len(),
        ensures
            marks@.len() == count,
            forall|i: int|
                0 <= i < count ==> (#[trigger] marks@[i] is Some <==> literal_fires(
                    guidelines,
                    message@,
                    i,
                )),
    {
        let hits = match &self.automaton {
            Some(automaton) => {
                let lowered = to_lowercase(message);
                automaton_search(automaton, lowered.as_str())
            },
            None => Vec::new(),
        };
        let marks = mark_hits(&self.literal_groups, &hits, count);
        proof {
            let keys = literal_keys(guidelines);
            let patterns = texts(self.literals@);
            let haystack = lowercase(message@);
            assert forall|i: int| 0 <= i < count implies (#[trigger] marks@[i] is Some
                <==> literal_fires(guidelines, message@, i)) by {
                lemma_marks_fire(keys, patterns, self.literal_groups@, hits@, i);
                if fires(keys, hits@, i) {
                    let h = choose|h: int|
                        0 <= h < hits@.len() && hits@[h] < unique_keys(keys).len() && unique_keys(
                            keys,
                        )[#[trigger] hits@[h] as int] == keys[i]->0;
                    assert(hits@.contains(hits@[h]));
                    assert(occurs_in(patterns[hits@[h] as int], haystack));
                    assert(literal_key(guidelines[i]) is Some);
                }
                if literal_fires(guidelines, message@, i) {
                    lemma_unique_keys(keys);
                    assert(keys[i] == literal_key(guidelines[i]));
                    assert(unique_keys(keys).contains(keys[i]->0));
                    let k = choose|k: int| 0 <= k < patterns.len() && patterns[k] == keys[i]->0;
                    assert(patterns.len() == self.literals.len());
                    assert(k <= usize::MAX);
                    assert(occurs_in(patterns[k], haystack));
                    assert(hits@.contains(k as usize));
                    let h = choose|h: int| 0 <= h < hits@.len() && hits@[h] == k as usize;
                    assert(unique_keys(keys)[hits@[h] as int] == keys[i]->0);
                }
            }
        }
        marks
    }

    /// For each of the `count` guidelines, the entry of its regular
    /// expression where that matches `message`.
    fn regex_marks(&self, message: &str, count: usize, Ghost(guidelines): Ghost<Seq<Guideline>>) -> (marks: Vec<
        Option<usize>,
    >)
        requires
            self.describes(guidelines),
            count == guidelines.len(),
        ensures
            marks@.len() == count,
            forall|i: int|
                0 <= i < count ==> (#[trigger] marks@[i] is Some <==> regex_fires(
                    guidelines,
                    message@,
                    i,
                )),
            forall|i: int|
                0 <= i < count && #[trigger] marks@[i] is Some ==> marks@[i]->0
                    < self.regexes@.len() && regex_source(self.regexes@[marks@[i]->0 as int])
                    == guidelines[i].condition->Regex_0@,
    {
        let hits = match &self.regex_set {
            Some(set) => regex_set_matches(set, message),
            None => {
                let mut found: Vec<usize> = Vec::new();
                let mut k: usize = 0;
                while k < self.regexes.len()
                    invariant
                        k <= self.regexes@.len(),
                        self.describes(guidelines),
                        forall|j: int| 0 <= j < found@.len() ==> found@[j] < k,
                        forall|j: int|
                            0 <= j < k ==> (found@.contains(j as usize)
                                <==> #[trigger] regex_is_match(
                                texts(self.patterns@)[j],
                                message@,
                            )),
                    decreases self.regexes.len() - k,
                {
                    let ghost before = found@;
                    assert(texts(self.patterns@)[k as int] == self.patterns@[k as int]@);
                    if regex_matches(&self.regexes[k], message) {
                        found.push(k);
                        assert(found@[before.len() as int] == k);
                    }
                    assert forall|j: int| 0 <= j < k + 1 implies (found@.contains(j as usize)
                        <==> #[trigger] regex_is_match(texts(self.patterns@)[j], message@)) by {
                        if j < k {
                            if before.contains(j as usize) {
                                let at = choose|at: int| 0 <= at < before.len() && before[at]
                                    == j as usize;
                                assert(found@[at] == j as usize);
                            }
                            if found@.contains(j as usize) {
                                let at = choose|at: int| 0 <= at < found@.len() && found@[at]
                                    == j as usize;
                                assert(before[at] == j as usize);
                            }
                        } else {
                            if found@.contains(j as usize)
                                && !regex_is_match(texts(self.patterns@)[j], message@) {
                                let at = choose|at: int| 0 <= at < found@.len() && found@[at]
                                    == j as usize;
                                assert(before[at] < k);
                            }
                        }
                    }
                    k += 1;
                }
                found
            },
        };
        let marks = mark_hits(&self.pattern_groups, &hits, count);
        proof {
            let keys = regex_keys(guidelines);
            let patterns = texts(self.patterns@);
            assert forall|i: int| 0 <= i < count implies (#[trigger] marks@[i] is Some
                <==> regex_fires(guidelines, message@, i)) by {
                lemma_marks_fire(keys, patterns, self.pattern_groups@, hits@, i);
                if fires(keys, hits@, i) {
                    let h = choose|h: int|
                        0 <= h < hits@.len() && hits@[h] < unique_keys(keys).len() && unique_keys(
                            keys,
                        )[#[trigger] hits@[h] as int] == keys[i]->0;
                    assert(hits@.contains(hits@[h]));
                    assert(regex_is_match(patterns[hits@[h] as int], message@));
                    assert(regex_key(guidelines[i]) is Some);
                }
                if regex_fires(guidelines, message@, i) {
                    lemma_unique_keys(keys);
                    assert(keys[i] == regex_key(guidelines[i]));
                    assert(unique_keys(keys).contains(keys[i]->0));
                    let k = choose|k: int| 0 <= k < patterns.len() && patterns[k] == keys[i]->0;
                    assert(patterns.len() == self.patterns.len());
                    assert(k <= usize::MAX);
                    assert(regex_is_match(patterns[k], message@));
                    assert(hits@.contains(k as usize));
                    let h = choose|h: int| 0 <= h < hits@.len() && hits@[h] == k as usize;
                    assert(unique_keys(keys)[hits@[h] as int] == keys[i]->0);
                }
            }
            assert forall|i: int| 0 <= i < count
                && #[trigger] marks@[i] is Some implies marks@[i]->0
                < self.regexes@.len() && regex_source(self.regexes@[marks@[i]->0 as int])
                == guidelines[i].condition->Regex_0@ by {
                let k = marks@[i]->0 as int;
                assert(holds(self.pattern_groups@[k]@, i));
                assert(keys[i] == Some(patterns[k]));
                assert(patterns[k] == self.patterns@[k]@);
                assert(regex_key(guidelines[i]) == Some(patterns[k]));
            }
        }
        marks
    }
}

/// Whether `position` is the first guideline of the given id.
pub open spec fn first_with_id(guidelines: Seq<Guideline>, id: GuidelineId, position: int) -> bool {
    &&& 0 <= position < guidelines.len()
    &&& guidelines[position].id == id
    &&& forall|j: int| 0 <= j < position ==> guidelines[j].id != id
}

/// Whether some guideline has the given id.
pub open spec fn known(guidelines: Seq<Guideline>, id: GuidelineId) -> bool {
    exists|i: int| 0 <= i < guidelines.len() && guidelines[i].id == id
}

/// The position of the first guideline of the given id.
pub open spec fn position_of(guidelines: Seq<Guideline>, id: GuidelineId) -> int {
    choose|i: int| first_with_id(guidelines, id, i)
}

/// The first position of an id is the only first position.
pub proof fn lemma_first_with_id(guidelines: Seq<Guideline>, id: GuidelineId, position: int)
    requires
        first_with_id(guidelines, id, position),
    ensures
        known(guidelines, id),
        position_of(guidelines, id) == position,
{
    let chosen = position_of(guidelines, id);
    assert(first_with_id(guidelines, id, chosen));
    if chosen < position {
        assert(guidelines[chosen].id != id);
    } else if position < chosen {
        assert(guidelines[position].id != id);
    }
}

/// The rank of a match in selection: the priority and the creation time of
/// its guideline, or nothing where no guideline has its id.
pub open spec fn rank(guidelines: Seq<Guideline>, id: GuidelineId) -> Option<(i32, Timestamp)> {
    if known(guidelines, id) {
        let guideline = guidelines[position_of(guidelines, id)];
        Some((guideline.priority, guideline.created_at))
    } else {
        None
    }
}

/// Whether rank `a` is strictly better than rank `b`: a known guideline
/// beats an unknown one, a higher priority beats a lower one, and of equal
/// priorities the later creation time wins.
pub open spec fn beats(a: Option<(i32, Timestamp)>, b: Option<(i32, Timestamp)>) -> bool {
    match (a, b) {
        (Some(x), Some(y)) => x.0 > y.0 || (x.0 == y.0 && x.1.later_than(y.1)),
        (Some(_), None) => true,
        _ => false,
    }
}

/// Whether `position` holds the match that selection picks: none beats it,
/// and it beats every match before it.
pub open spec fn is_best(guidelines: Seq<Guideline>, matches: Seq<GuidelineMatch>, position: int) -> bool {
    &&& 0 <= position < matches.len()
    &&& forall|j: int|
        0 <= j < matches.len() ==> !beats(
            rank(guidelines, #[trigger] matches[j].guideline_id),
            rank(guidelines, matches[position].guideline_id),
        )
    &&& forall|j: int|
        0 <= j < position ==> beats(
            rank(guidelines, matches[position].guideline_id),
            rank(guidelines, #[trigger] matches[j].guideline_id),
        )
}

/// The message of the error for guidelines whose literal automaton cannot
/// be built.
pub open spec fn unindexable_message() -> Seq<char> {
    "the literal patterns cannot be indexed"@
}

/// The default guideline matcher: the guidelines in the order of their
/// addition, and the index of their patterns.
pub struct DefaultGuidelineMatcher {
    guidelines: Vec<Guideline>,
    index: PatternIndex,
}

impl DefaultGuidelineMatcher {
    /// The guidelines, in the order of their addition.
    pub closed spec fn rules(&self) -> Seq<Guideline> {
        self.guidelines@
    }

    /// The index is the one of the guidelines.
    pub closed spec fn wf(&self) -> bool {
        self.index.describes(self.guidelines@)
    }

    /// A matcher without guidelines.
    pub fn new() -> (matcher: Self)
        ensures
            matcher.wf(),
            matcher.rules() == Seq::<Guideline>::empty(),
    {
        let matcher = DefaultGuidelineMatcher { guidelines: Vec::new(), index: PatternIndex::empty() };
        assert(matcher.guidelines@ =~= Seq::empty());
        matcher
    }

    /// The guidelines, in the order of their addition.
    pub fn get_guidelines(&self) -> (guidelines: &Vec<Guideline>)
        ensures
            guidelines@ == self.rules(),
    {
        &self.guidelines
    }

    /// The position of the first guideline of the given id.
    pub fn find_guideline(&self, id: &GuidelineId) -> (found: Option<usize>)
        ensures
            found.is_some() == known(self.rules(), *id),
            found matches Some(i) ==> first_with_id(self.rules(), *id, i as int) && i as int
                == position_of(self.rules(), *id),
    {
        let mut i: usize = 0;
        while i < self.guidelines.len()
            invariant
                i <= self.guidelines@.len(),
                forall|j: int| 0 <= j < i ==> self.guidelines@[j].id != *id,
            decreases self.guidelines.len() - i,
        {
            if self.guidelines[i].id == *id {
                proof {
                    lemma_first_with_id(self.guidelines@, *id, i as int);
                }
                return Some(i);
            }
            i += 1;
        }
        None
    }

    /// Adds a guideline at the end and rebuilds the index. Where the literal
    /// automaton cannot be built for the longer list, the guideline is not
    /// added.
    pub fn add_guideline(&mut self, guideline: Guideline) -> (added: Result<GuidelineId, AgentError>)
        requires
            old(self).wf(),
        ensures
            final(self).wf(),
            added is Ok <==> indexable(old(self).rules().push(guideline)),
            added matches Ok(id) ==> id == guideline.id && final(self).rules()
                == old(self).rules().push(guideline),
            added is Err ==> final(self).rules() == old(self).rules(),
            added matches Err(error) ==> (error matches AgentError::GuidelineMatch(text) && text@
                == unindexable_message()),
    {
        let id = guideline.id;
        self.guidelines.push(guideline);
        match PatternIndex::build(&self.guidelines) {
            Some(index) => {
                self.index = index;
                Ok(id)
            },
            None => {
                self.guidelines.pop();
                assert(self.guidelines@ =~= old(self).guidelines@);
                Err(AgentError::GuidelineMatch("the literal patterns cannot be indexed".to_owned()))
            },
        }
    }

    /// Removes the first guideline of the given id and rebuilds the index;
    /// without such a guideline nothing changes. Where the literal automaton
    /// cannot be built for the shorter list, the guideline stays.
    pub fn remove_guideline(&mut self, id: &GuidelineId) -> (removed: Result<(), AgentError>)
        requires
            old(self).wf(),
        ensures
            final(self).wf(),
            !known(old(self).rules(), *id) ==> removed is Ok && final(self).rules()
                == old(self).rules(),
            known(old(self).rules(), *id) ==> (removed is Ok <==> indexable(
                old(self).rules().remove(position_of(old(self).rules(), *id)),
            )),
            known(old(self).rules(), *id) && removed is Ok ==> final(self).rules()
                == old(self).rules().remove(position_of(old(self).rules(), *id)),
            removed is Err ==> final(self).rules() == old(self).rules(),
            removed matches Err(error) ==> (error matches AgentError::GuidelineMatch(text)
                && text@ == unindexable_message()),
    {
        match self.find_guideline(id) {
            None => Ok(()),
            Some(position) => {
                let guideline = self.guidelines.remove(position);
                match PatternIndex::build(&self.guidelines) {
                    Some(index) => {
                        self.index = index;
                        Ok(())
                    },
                    None => {
                        self.guidelines.insert(position, guideline);
                        assert(self.guidelines@ =~= old(self).guidelines@);
                        Err(
                            AgentError::GuidelineMatch(
                                "the literal patterns cannot be indexed".to_owned(),
                            ),
                        )
                    },
                }
            },
        }
    }

    /// Matches `message` against every literal and regular-expression
    /// guideline.
    pub fn match_guidelines(&self, message: &str, context: &Context) -> (matched: Result<
        Vec<GuidelineMatch>,
        AgentError,
    >)
        requires
            self.wf(),
        ensures
            matched matches Ok(list) && match_models(list@) == all_matches(
                self.rules(),
                message@,
                Seq::empty(),
            ),
    {
        let none: Vec<Option<Score>> = Vec::new();
        self.match_with_similarities(message, context, &none)
    }

    /// Matches `message` against every guideline. `similarities` gives, by
    /// the position of each semantic guideline, the similarity of the
    /// message to its description, where one could be computed.
    pub fn match_with_similarities(
        &self,
        message: &str,
        context: &Context,
        similarities: &Vec<Option<Score>>,
    ) -> (matched: Result<Vec<GuidelineMatch>, AgentError>)
        requires
            self.wf(),
        ensures
            matched matches Ok(list) && match_models(list@) == all_matches(
                self.rules(),
                message@,
                similarities@,
            ),
    {
        let count = self.guidelines.len();
        let ghost rules = self.guidelines@;
        let mut matches: Vec<GuidelineMatch> = Vec::new();
        let literal = self.index.literal_marks(message, count, Ghost(rules));
        let mut i: usize = 0;
        assert(match_models(matches@) =~= literal_matches(rules, message@, 0));
        while i < count
            invariant
                i <= count,
                count == rules.len(),
                rules == self.guidelines@,
                literal@.len() == count,
                forall|k: int|
                    0 <= k < count ==> (#[trigger] literal@[k] is Some <==> literal_fires(
                        rules,
                        message@,
                        k,
                    )),
                match_models(matches@) == literal_matches(rules, message@, i as nat),
            decreases count - i,
        {
            let ghost before = match_models(matches@);
            if literal[i].is_some() {
                let guideline = &self.guidelines[i];
                let found = GuidelineMatch {
                    guideline_id: guideline.id,
                    relevance_score: Score { millionths: LITERAL_RELEVANCE },
                    semantic_score: Score { millionths: 0 },
                    matched_condition: guideline.condition.describe(),
                    extracted_parameters: TextMap::new(),
                    explanation: Some("Exact literal match".to_owned()),
                };
                assert(json_map(found.extracted_parameters) =~= Map::empty());
                assert(found@ == literal_match(rules[i as int]));
                matches.push(found);
                assert(match_models(matches@) =~= before.push(found@));
            }
            i += 1;
        }
        let ghost literal_part = match_models(matches@);
        let regex = self.index.regex_marks(message, count, Ghost(rules));
        let mut i: usize = 0;
        assert(match_models(matches@) =~= literal_part + regex_matches_upto(rules, message@, 0));
        while i < count
            invariant
                i <= count,
                count == rules.len(),
                rules == self.guidelines@,
                self.wf(),
                regex@.len() == count,
                forall|k: int|
                    0 <= k < count ==> (#[trigger] regex@[k] is Some <==> regex_fires(
                        rules,
                        message@,
                        k,
                    )),
                forall|k: int|
                    0 <= k < count && #[trigger] regex@[k] is Some ==> regex@[k]->0
                        < self.index.regexes@.len() && regex_source(
                        self.index.regexes@[regex@[k]->0 as int],
                    ) == rules[k].condition->Regex_0@,
                match_models(matches@) == literal_part + regex_matches_upto(
                    rules,
                    message@,
                    i as nat,
                ),
            decreases count - i,
        {
            let ghost before = match_models(matches@);
            if let Some(entry) = regex[i] {
                let guideline = &self.guidelines[i];
                let groups = capture_groups(&self.index.regexes[entry], message);
                let parameters = extract_parameters(&guideline.action.parameters, &groups);
                let found = GuidelineMatch {
                    guideline_id: guideline.id,
                    relevance_score: Score { millionths: REGEX_RELEVANCE },
                    semantic_score: Score { millionths: 0 },
                    matched_condition: guideline.condition.describe(),
                    extracted_parameters: parameters,
                    explanation: Some("Regex pattern match".to_owned()),
                };
                assert(found@ == regex_match(rules[i as int], message@));
                matches.push(found);
                assert(match_models(matches@) =~= before.push(found@));
            }
            i += 1;
        }
        let ghost pattern_part = match_models(matches@);
        let mut i: usize = 0;
        assert(match_models(matches@) =~= pattern_part + semantic_matches(rules, similarities@, 0));
        while i < count
            invariant
                i <= count,
                count == rules.len(),
                rules == self.guidelines@,
                match_models(matches@) == pattern_part + semantic_matches(
                    rules,
                    similarities@,
                    i as nat,
                ),
            decreases count - i,
        {
            let ghost before = match_models(matches@);
            let guideline = &self.guidelines[i];
            if let GuidelineCondition::Semantic { threshold, .. } = &guideline.condition {
                if i < similarities.len() {
                    if let Some(similarity) = similarities[i] {
                        if similarity.millionths >= threshold.millionths {
                            let found = GuidelineMatch {
                                guideline_id: guideline.id,
                                relevance_score: similarity,
                                semantic_score: similarity,
                                matched_condition: guideline.condition.describe(),
                                extracted_parameters: TextMap::new(),
                                explanation: Some("Semantic similarity match".to_owned()),
                            };
                            assert(json_map(found.extracted_parameters) =~= Map::empty());
                            assert(found@ == semantic_match(rules[i as int], similarity));
                            matches.push(found);
                            assert(match_models(matches@) =~= before.push(found@));
                        }
                    }
                }
            }
            i += 1;
        }
        let _ = context;
        Ok(matches)
    }

    /// The priority and creation time of the first guideline of the given
    /// id.
    fn rank_of(&self, id: &GuidelineId) -> (found: Option<(i32, Timestamp)>)
        ensures
            found == rank(self.rules(), *id),
    {
        match self.find_guideline(id) {
            Some(i) => Some((self.guidelines[i].priority, self.guidelines[i].created_at)),
            None => None,
        }
    }

    /// The position of the best of `matches`: the one whose guideline has the
    /// highest priority, of equal priorities the one created last, and of
    /// equal creation times the one that stands first in `matches`. A match
    /// whose guideline is unknown to this matcher loses to every match whose
    /// guideline is known.
    pub fn select_best_index(&self, matches: &Vec<GuidelineMatch>) -> (best: Option<usize>)
        ensures
            best is None <==> matches@.len() == 0,
            best matches Some(i) ==> is_best(self.rules(), matches@, i as int),
    {
        if matches.len() == 0 {
            return None;
        }
        let mut best: usize = 0;
        let mut best_rank = self.rank_of(&matches[0].guideline_id);
        let mut i: usize = 1;
        while i < matches.len()
            invariant
                1 <= i <= matches@.len(),
                best < i,
                best_rank == rank(self.rules(), matches@[best as int].guideline_id),
                forall|j: int|
                    0 <= j < i ==> !beats(
                        rank(self.rules(), #[trigger] matches@[j].guideline_id),
                        best_rank,
                    ),
                forall|j: int|
                    0 <= j < best ==> beats(
                        best_rank,
                        rank(self.rules(), #[trigger] matches@[j].guideline_id),
                    ),
            decreases matches.len() - i,
        {
            let candidate = self.rank_of(&matches[i].guideline_id);
            let better = match (candidate, best_rank) {
                (Some(x), Some(y)) => x.0 > y.0 || (x.0 == y.0 && x.1.is_after(&y.1)),
                (Some(_), None) => true,
                _ => false,
            };
            if better {
                best = i;
                best_rank = candidate;
            }
            i += 1;
        }
        Some(best)
    }

    /// Picks the best of `matches`, as [`Self::select_best_index`] finds it.
    pub fn select_best_match(&self, matches: Vec<GuidelineMatch>) -> (best: Option<GuidelineMatch>)
        ensures
            best is None <==> matches@.len() == 0,
            best matches Some(chosen) ==> exists|i: int|
                is_best(self.rules(), matches@, i) && chosen == #[trigger] matches@[i],
    {
        match self.select_best_index(&matches) {
            None => None,
            Some(at) => {
                let mut matches = matches;
                let chosen = matches.swap_remove(at);
                Some(chosen)
            },
        }
    }
}

impl Default for DefaultGuidelineMatcher {
    fn default() -> (made: Self)
        ensures
            made.wf(),
            made.rules() == Seq::<Guideline>::empty(),
    {
        Self::new()
    }
}

} // verus!
