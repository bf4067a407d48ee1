use talk::{
    Context, DefaultGuidelineMatcher, Guideline, GuidelineAction, GuidelineCondition, GuidelineId,
    Score, TextMap, Timestamp,
};

fn semantic_guideline(description: &str, threshold: i32, priority: i32) -> Guideline {
    Guideline {
        id: GuidelineId::new(),
        condition: GuidelineCondition::Semantic {
            description: description.to_string(),
            threshold: Score::from_millionths(threshold),
        },
        action: GuidelineAction {
            response_template: "Pricing info".to_string(),
            requires_llm: false,
            parameters: vec![],
        },
        priority,
        tools: vec![],
        parameters: TextMap::new(),
        created_at: Timestamp::now(),
    }
}

#[test]
fn test_feature_disabled() {
    // Just verify compilation works without semantic-matching feature
    assert!(true);
}

#[test]
fn test_semantic_guideline_matching() {
    let mut matcher = DefaultGuidelineMatcher::new();
    matcher.add_guideline(semantic_guideline("pricing, cost, price, fee", 700_000, 10)).unwrap();
    let context = Context::new();
    let similarities = vec![Some(Score::from_millionths(820_000))];
    let matches =
        matcher.match_with_similarities("What's the cost?", &context, &similarities).unwrap();
    assert_eq!(matches.len(), 1, "Should match semantic guideline");
    assert!(matches[0].semantic_score.millionths > 700_000, "Should have high semantic score");
    assert_eq!(matches[0].relevance_score, Score::from_millionths(820_000));
    assert_eq!(matches[0].semantic_score, Score::from_millionths(820_000));
    assert_eq!(matches[0].explanation.as_deref(), Some("Semantic similarity match"));
}

#[test]
fn test_semantic_below_threshold() {
    let mut matcher = DefaultGuidelineMatcher::new();
    matcher.add_guideline(semantic_guideline("pricing, cost, price", 800_000, 10)).unwrap();
    let context = Context::new();
    let similarities = vec![Some(Score::from_millionths(120_000))];
    let matches = matcher
        .match_with_similarities("Tell me about the weather", &context, &similarities)
        .unwrap();
    assert_eq!(matches.len(), 0, "Should not match unrelated message");
}

#[test]
fn test_semantic_threshold_is_inclusive() {
    let mut matcher = DefaultGuidelineMatcher::new();
    matcher.add_guideline(semantic_guideline("pricing", 800_000, 10)).unwrap();
    let context = Context::new();
    let at = vec![Some(Score::from_millionths(800_000))];
    assert_eq!(matcher.match_with_similarities("x", &context, &at).unwrap().len(), 1);
    let below = vec![Some(Score::from_millionths(799_999))];
    assert_eq!(matcher.match_with_similarities("x", &context, &below).unwrap().len(), 0);
}

#[test]
fn test_semantic_needs_a_similarity() {
    let mut matcher = DefaultGuidelineMatcher::new();
    matcher.add_guideline(semantic_guideline("pricing", 0, 10)).unwrap();
    let context = Context::new();
    assert_eq!(matcher.match_guidelines("pricing", &context).unwrap().len(), 0);
    assert_eq!(matcher.match_with_similarities("pricing", &context, &vec![None]).unwrap().len(), 0);
    let negative = vec![Some(Score::from_millionths(-1))];
    assert_eq!(matcher.match_with_similarities("pricing", &context, &negative).unwrap().len(), 0);
}

#[test]
fn test_hybrid_matching_priority() {
    let mut matcher = DefaultGuidelineMatcher::new();
    let literal_guideline = Guideline {
        id: GuidelineId::new(),
        condition: GuidelineCondition::Literal("pricing".to_string()),
        action: GuidelineAction {
            response_template: "Literal pricing".to_string(),
            requires_llm: false,
            parameters: vec![],
        },
        priority: 20,
        tools: vec![],
        parameters: TextMap::new(),
        created_at: Timestamp::now(),
    };
    let literal_id = literal_guideline.id;
    matcher.add_guideline(literal_guideline).unwrap();
    matcher.add_guideline(semantic_guideline("cost, price, fee", 700_000, 10)).unwrap();
    let context = Context::new();
    let similarities = vec![None, Some(Score::from_millionths(750_000))];
    let matches =
        matcher.match_with_similarities("What is your pricing?", &context, &similarities).unwrap();
    assert_eq!(matches.len(), 2);
    let best = matcher.select_best_match(matches).unwrap();
    assert_eq!(best.guideline_id, literal_id, "Should prefer higher priority");
}
