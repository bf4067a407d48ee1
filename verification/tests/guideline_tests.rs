use talk::{
    extract_parameters, Context, DefaultGuidelineMatcher, Guideline, GuidelineAction,
    GuidelineCondition, GuidelineId, GuidelineMatch, JsonValue, Score, TextMap, Timestamp,
};

fn guideline(condition: GuidelineCondition, response: &str, priority: i32) -> Guideline {
    Guideline {
        id: GuidelineId::new(),
        condition,
        action: GuidelineAction {
            response_template: response.to_string(),
            requires_llm: false,
            parameters: vec![],
        },
        priority,
        tools: vec![],
        parameters: TextMap::new(),
        created_at: Timestamp::now(),
    }
}

fn literal(text: &str, priority: i32) -> Guideline {
    guideline(GuidelineCondition::Literal(text.to_string()), "response", priority)
}

fn regex(pattern: &str, priority: i32) -> Guideline {
    guideline(GuidelineCondition::Regex(pattern.to_string()), "response", priority)
}

fn a_match(id: GuidelineId) -> GuidelineMatch {
    GuidelineMatch {
        guideline_id: id,
        relevance_score: Score::from_millionths(1_000_000),
        semantic_score: Score::from_millionths(0),
        matched_condition: String::new(),
        extracted_parameters: TextMap::new(),
        explanation: None,
    }
}

#[test]
fn test_literal_matching() {
    let mut matcher = DefaultGuidelineMatcher::new();
    matcher.add_guideline(literal("pricing", 10)).unwrap();
    let context = Context::new();
    let matches = matcher.match_guidelines("What is your pricing?", &context).unwrap();
    assert_eq!(matches.len(), 1);
    assert_eq!(matches[0].relevance_score.millionths as f32 / 1_000_000.0, 1.0);
}

#[test]
fn test_regex_matching() {
    let mut matcher = DefaultGuidelineMatcher::new();
    matcher.add_guideline(regex(r"cancel.*subscription", 10)).unwrap();
    let context = Context::new();
    let matches = matcher.match_guidelines("I want to cancel my subscription", &context).unwrap();
    assert_eq!(matches.len(), 1);
    assert_eq!(matches[0].relevance_score.millionths as f32 / 1_000_000.0, 0.9);
}

#[test]
fn test_priority_resolution() {
    let mut matcher = DefaultGuidelineMatcher::new();
    let low_priority = literal("pricing", 5);
    let high_priority = literal("pricing", 20);
    let low_id = low_priority.id;
    let high_id = high_priority.id;
    matcher.add_guideline(low_priority).unwrap();
    matcher.add_guideline(high_priority).unwrap();
    let context = Context::new();
    let matches = matcher.match_guidelines("What about pricing?", &context).unwrap();
    assert_eq!(matches.len(), 2, "Should match both guidelines");
    let low_match = matches.iter().find(|m| m.guideline_id == low_id);
    let high_match = matches.iter().find(|m| m.guideline_id == high_id);
    assert!(low_match.is_some(), "Low priority guideline should match");
    assert!(high_match.is_some(), "High priority guideline should match");
    let best = matcher.select_best_match(matches).unwrap();
    assert_eq!(best.guideline_id, high_id, "Should select high priority guideline");
}

#[test]
fn test_guideline_api_contract() {
    let mut matcher = DefaultGuidelineMatcher::new();
    let added = literal("pricing", 10);
    let id = added.id;
    let guideline_id = matcher.add_guideline(added).expect("Failed to add guideline");
    assert_eq!(guideline_id, id);
    let context = Context::new();
    let matches =
        matcher.match_guidelines("What is the pricing?", &context).expect("Failed to match");
    assert!(!matches.is_empty(), "Should find at least one match");
    let best_match = matcher.select_best_match(matches);
    assert!(best_match.is_some(), "Should select a best match");
}

#[test]
fn test_literal_condition_matching() {
    let mut matcher = DefaultGuidelineMatcher::new();
    matcher.add_guideline(literal("pricing", 10)).expect("Failed to add guideline");
    let context = Context::new();
    let matches = matcher.match_guidelines("What is your pricing?", &context).unwrap();
    assert_eq!(matches.len(), 1, "Should match literal condition");
    assert_eq!(matches[0].relevance_score, Score::from_millionths(1_000_000));
    assert_eq!(matches[0].semantic_score, Score::from_millionths(0));
    assert_eq!(matches[0].explanation.as_deref(), Some("Exact literal match"));
    assert_eq!(matches[0].matched_condition, "Literal(pricing)");
    assert!(matches[0].extracted_parameters.is_empty());
    let no_matches = matcher.match_guidelines("Tell me about features", &context).unwrap();
    assert!(no_matches.is_empty(), "Should not match unrelated message");
}

#[test]
fn test_regex_condition_matching() {
    let mut matcher = DefaultGuidelineMatcher::new();
    matcher.add_guideline(regex(r"cancel.*subscription", 10)).expect("Failed to add guideline");
    let context = Context::new();
    let matches = matcher.match_guidelines("I want to cancel my subscription", &context).unwrap();
    assert_eq!(matches.len(), 1, "Should match regex condition");
    assert_eq!(matches[0].relevance_score, Score::from_millionths(900_000));
    assert_eq!(matches[0].explanation.as_deref(), Some("Regex pattern match"));
    assert_eq!(matches[0].matched_condition, "Regex(cancel.*subscription)");
    let no_matches = matcher.match_guidelines("I love my subscription", &context).unwrap();
    assert!(no_matches.is_empty(), "Should not match when pattern doesn't match");
}

#[test]
fn test_guideline_priority_resolution() {
    let mut matcher = DefaultGuidelineMatcher::new();
    let low_priority = literal("pricing", 5);
    let high_priority = literal("pricing", 20);
    let high_id = high_priority.id;
    matcher.add_guideline(low_priority).unwrap();
    matcher.add_guideline(high_priority).unwrap();
    let context = Context::new();
    let matches = matcher.match_guidelines("What about pricing?", &context).unwrap();
    assert_eq!(matches.len(), 2, "Should match both guidelines");
    let best_match = matcher.select_best_match(matches).expect("Should select best match");
    assert_eq!(best_match.guideline_id, high_id, "Should select high priority guideline");
}

#[test]
fn test_literal_matching_is_case_insensitive_substring() {
    let mut matcher = DefaultGuidelineMatcher::new();
    matcher.add_guideline(literal("pricing", 10)).unwrap();
    let context = Context::new();
    assert_eq!(matcher.match_guidelines("What is your PRICING?", &context).unwrap().len(), 1);
    assert_eq!(matcher.match_guidelines("pricing", &context).unwrap().len(), 1);
    assert_eq!(matcher.match_guidelines("price", &context).unwrap().len(), 0);
}

#[test]
fn test_overlapping_literals_both_match() {
    let mut matcher = DefaultGuidelineMatcher::new();
    let a = literal("pric", 10);
    let b = literal("pricing", 10);
    let (a_id, b_id) = (a.id, b.id);
    matcher.add_guideline(a).unwrap();
    matcher.add_guideline(b).unwrap();
    let context = Context::new();
    let matches = matcher.match_guidelines("pricing", &context).unwrap();
    let found: Vec<GuidelineId> = matches.iter().map(|m| m.guideline_id).collect();
    assert_eq!(found, vec![a_id, b_id]);
    let matches = matcher.match_guidelines("a PRICe", &context).unwrap();
    let found: Vec<GuidelineId> = matches.iter().map(|m| m.guideline_id).collect();
    assert_eq!(found, vec![a_id]);
}

#[test]
fn test_literals_that_share_an_end_or_lie_within_each_other_all_match() {
    let mut matcher = DefaultGuidelineMatcher::new();
    let texts = ["append", "appendage", "app", "end", "page", "dag"];
    let mut ids = Vec::new();
    for text in texts {
        let guideline = literal(text, 1);
        ids.push(guideline.id);
        matcher.add_guideline(guideline).unwrap();
    }
    let context = Context::new();
    let matches = matcher.match_guidelines("The APPENDAGE", &context).unwrap();
    let found: Vec<GuidelineId> = matches.iter().map(|m| m.guideline_id).collect();
    assert_eq!(found, vec![ids[0], ids[1], ids[2], ids[3], ids[5]]);
}

#[test]
fn test_empty_literal_matches_every_message() {
    let mut matcher = DefaultGuidelineMatcher::new();
    matcher.add_guideline(literal("", 1)).unwrap();
    let context = Context::new();
    assert_eq!(matcher.match_guidelines("", &context).unwrap().len(), 1);
    assert_eq!(matcher.match_guidelines("anything", &context).unwrap().len(), 1);
}

#[test]
fn test_literal_matching_beyond_ascii() {
    let mut matcher = DefaultGuidelineMatcher::new();
    matcher.add_guideline(literal("STRASSE", 1)).unwrap();
    matcher.add_guideline(literal("Émile", 1)).unwrap();
    let context = Context::new();
    assert_eq!(matcher.match_guidelines("Die Strasse", &context).unwrap().len(), 1);
    assert_eq!(matcher.match_guidelines("die straße", &context).unwrap().len(), 0);
    assert_eq!(matcher.match_guidelines("ÉMILE Zola", &context).unwrap().len(), 1);
    assert_eq!(matcher.match_guidelines("emile zola", &context).unwrap().len(), 0);
}

#[test]
fn test_literal_pattern_is_lowercased() {
    let mut matcher = DefaultGuidelineMatcher::new();
    matcher.add_guideline(literal("PrIcInG", 10)).unwrap();
    let context = Context::new();
    assert_eq!(matcher.match_guidelines("our pricing page", &context).unwrap().len(), 1);
}

#[test]
fn test_repeated_occurrence_matches_once() {
    let mut matcher = DefaultGuidelineMatcher::new();
    matcher.add_guideline(literal("pricing", 10)).unwrap();
    let context = Context::new();
    let matches = matcher.match_guidelines("pricing, pricing and pricing", &context).unwrap();
    assert_eq!(matches.len(), 1);
}

#[test]
fn test_regex_parameters_are_extracted_in_order() {
    let mut matcher = DefaultGuidelineMatcher::new();
    let mut weather = regex(r"weather.*in (\w+)", 10);
    weather.action.parameters = vec!["city".to_string()];
    matcher.add_guideline(weather).unwrap();
    let context = Context::new();
    let matches = matcher.match_guidelines("weather in Tokyo", &context).unwrap();
    assert_eq!(matches.len(), 1);
    match matches[0].extracted_parameters.get("city") {
        Some(JsonValue::Text(city)) => assert_eq!(city, "Tokyo"),
        other => panic!("expected the city, found {:?}", other),
    }
}

#[test]
fn test_extract_parameters_pairs_groups_with_names() {
    let names = vec!["first".to_string(), "second".to_string(), "third".to_string()];
    let groups = Some(vec![
        Some("whole match".to_string()),
        Some("one".to_string()),
        None,
        Some("three".to_string()),
        Some("four".to_string()),
    ]);
    let parameters = extract_parameters(&names, &groups);
    assert_eq!(parameters.len(), 2);
    assert!(matches!(parameters.get("first"), Some(JsonValue::Text(t)) if t == "one"));
    assert!(parameters.get("second").is_none());
    assert!(matches!(parameters.get("third"), Some(JsonValue::Text(t)) if t == "three"));
    assert!(extract_parameters(&names, &None).is_empty());
    let short = Some(vec![Some("whole".to_string())]);
    assert!(extract_parameters(&names, &short).is_empty());
}

#[test]
fn test_invalid_regex_is_left_out_of_matching() {
    let mut matcher = DefaultGuidelineMatcher::new();
    matcher.add_guideline(regex(r"(unclosed", 10)).unwrap();
    let good = regex(r"help|support", 10);
    let good_id = good.id;
    matcher.add_guideline(good).unwrap();
    let context = Context::new();
    let matches = matcher.match_guidelines("I need help with (unclosed", &context).unwrap();
    assert_eq!(matches.len(), 1);
    assert_eq!(matches[0].guideline_id, good_id);
}

#[test]
fn test_empty_matcher_matches_nothing() {
    let matcher = DefaultGuidelineMatcher::new();
    let context = Context::new();
    assert!(matcher.match_guidelines("anything", &context).unwrap().is_empty());
    assert!(matcher.select_best_match(vec![]).is_none());
    assert!(matcher.select_best_index(&vec![]).is_none());
}

#[test]
fn test_matches_come_literal_first_then_regex_in_guideline_order() {
    let mut matcher = DefaultGuidelineMatcher::new();
    let r1 = regex("pric", 1);
    let l1 = literal("pricing", 2);
    let r2 = regex("cost|pricing", 3);
    let l2 = literal("what", 4);
    let ids = [l1.id, l2.id, r1.id, r2.id];
    matcher.add_guideline(r1).unwrap();
    matcher.add_guideline(l1).unwrap();
    matcher.add_guideline(r2).unwrap();
    matcher.add_guideline(l2).unwrap();
    let context = Context::new();
    let matches = matcher.match_guidelines("What is your pricing?", &context).unwrap();
    let found: Vec<GuidelineId> = matches.iter().map(|m| m.guideline_id).collect();
    assert_eq!(found, ids);
}

#[test]
fn test_removal_leaves_no_stale_match() {
    let mut matcher = DefaultGuidelineMatcher::new();
    let pricing = literal("pricing", 10);
    let pricing_id = pricing.id;
    let help = regex("help", 10);
    let help_id = help.id;
    matcher.add_guideline(pricing).unwrap();
    matcher.add_guideline(help).unwrap();
    let context = Context::new();
    assert_eq!(matcher.match_guidelines("help with pricing", &context).unwrap().len(), 2);
    matcher.remove_guideline(&pricing_id).unwrap();
    let matches = matcher.match_guidelines("help with pricing", &context).unwrap();
    assert_eq!(matches.len(), 1);
    assert_eq!(matches[0].guideline_id, help_id);
    matcher.remove_guideline(&help_id).unwrap();
    assert!(matcher.match_guidelines("help with pricing", &context).unwrap().is_empty());
    assert!(matcher.get_guidelines().is_empty());
    matcher.add_guideline(literal("pricing", 10)).unwrap();
    assert_eq!(matcher.match_guidelines("help with pricing", &context).unwrap().len(), 1);
}

#[test]
fn test_remove_unknown_guideline_is_a_no_op() {
    let mut matcher = DefaultGuidelineMatcher::new();
    matcher.add_guideline(literal("pricing", 10)).unwrap();
    assert!(matcher.remove_guideline(&GuidelineId::new()).is_ok());
    assert_eq!(matcher.get_guidelines().len(), 1);
}

#[test]
fn test_remove_takes_only_the_first_of_an_id() {
    let mut matcher = DefaultGuidelineMatcher::new();
    let mut first = literal("pricing", 10);
    let mut second = literal("cost", 10);
    let shared = GuidelineId::from_u128(42);
    first.id = shared;
    second.id = shared;
    matcher.add_guideline(first).unwrap();
    matcher.add_guideline(second).unwrap();
    matcher.remove_guideline(&shared).unwrap();
    assert_eq!(matcher.get_guidelines().len(), 1);
    let context = Context::new();
    assert_eq!(matcher.match_guidelines("pricing", &context).unwrap().len(), 0);
    assert_eq!(matcher.match_guidelines("cost", &context).unwrap().len(), 1);
}

#[test]
fn test_newer_guideline_wins_among_equal_priorities() {
    let mut matcher = DefaultGuidelineMatcher::new();
    let mut older = literal("pricing", 10);
    older.created_at = Timestamp::new(1_000, 0);
    let mut newer = literal("pricing", 10);
    newer.created_at = Timestamp::new(1_000, 1);
    let newer_id = newer.id;
    let older_id = older.id;
    matcher.add_guideline(newer).unwrap();
    matcher.add_guideline(older).unwrap();
    let best = matcher.select_best_match(vec![a_match(older_id), a_match(newer_id)]).unwrap();
    assert_eq!(best.guideline_id, newer_id);
}

#[test]
fn test_full_tie_goes_to_the_first_match_given() {
    let mut matcher = DefaultGuidelineMatcher::new();
    let mut one = literal("pricing", 10);
    one.created_at = Timestamp::new(5, 5);
    let mut two = literal("pricing", 10);
    two.created_at = Timestamp::new(5, 5);
    let (one_id, two_id) = (one.id, two.id);
    matcher.add_guideline(one).unwrap();
    matcher.add_guideline(two).unwrap();
    let best = matcher.select_best_match(vec![a_match(two_id), a_match(one_id)]).unwrap();
    assert_eq!(best.guideline_id, two_id);
    let best = matcher.select_best_match(vec![a_match(one_id), a_match(two_id)]).unwrap();
    assert_eq!(best.guideline_id, one_id);
    assert_eq!(matcher.select_best_index(&vec![a_match(one_id), a_match(two_id)]), Some(0));
}

#[test]
fn test_unknown_guideline_loses_to_a_known_one() {
    let mut matcher = DefaultGuidelineMatcher::new();
    let known = literal("pricing", -5);
    let known_id = known.id;
    matcher.add_guideline(known).unwrap();
    let stranger = GuidelineId::new();
    let best = matcher
        .select_best_match(vec![a_match(stranger), a_match(known_id), a_match(stranger)])
        .unwrap();
    assert_eq!(best.guideline_id, known_id);
    let only = matcher.select_best_match(vec![a_match(stranger)]).unwrap();
    assert_eq!(only.guideline_id, stranger);
}

#[test]
fn test_condition_descriptions() {
    assert_eq!(GuidelineCondition::Literal("a".to_string()).describe(), "Literal(a)");
    assert_eq!(GuidelineCondition::Regex("b+".to_string()).describe(), "Regex(b+)");
    let semantic = GuidelineCondition::Semantic {
        description: "c".to_string(),
        threshold: Score::from_millionths(1),
    };
    assert_eq!(semantic.describe(), "Semantic(c)");
}

#[test]
fn test_cloned_match_keeps_its_content() {
    let mut parameters = TextMap::new();
    parameters.insert("city".to_string(), JsonValue::Text("Tokyo".to_string()));
    let first = GuidelineMatch {
        guideline_id: GuidelineId::new(),
        relevance_score: Score::from_millionths(900_000),
        semantic_score: Score::from_millionths(0),
        matched_condition: "Regex(x)".to_string(),
        extracted_parameters: parameters,
        explanation: Some("Regex pattern match".to_string()),
    };
    let copy = first.clone();
    assert_eq!(copy.guideline_id, first.guideline_id);
    assert_eq!(copy.relevance_score, first.relevance_score);
    assert_eq!(copy.matched_condition, "Regex(x)");
    assert_eq!(copy.explanation.as_deref(), Some("Regex pattern match"));
    assert!(matches!(copy.extracted_parameters.get("city"), Some(JsonValue::Text(t)) if t == "Tokyo"));
}
