use talk::{
    evaluate_condition, find_next_step, validate_journey, Agent, AgentError, Context,
    ContextVariable, DefaultJourneyManager, Journey, JourneyId, JourneyState, JourneyStep,
    JsonValue, MessageId, SessionId, StepId, Timestamp, Transition, TransitionCondition,
};

fn step(id: StepId, name: &str, transitions: Vec<Transition>) -> JourneyStep {
    JourneyStep {
        id,
        name: name.to_string(),
        prompt: "Prompt".to_string(),
        expected_response: None,
        transitions,
        actions: vec![],
    }
}

fn always(next_step: StepId) -> Transition {
    Transition { condition: TransitionCondition::Always, next_step }
}

fn journey(steps: Vec<JourneyStep>, initial_step: StepId) -> Journey {
    Journey {
        id: JourneyId::new(),
        name: "Test".to_string(),
        description: "Test".to_string(),
        steps,
        initial_step,
        current_step: None,
        created_at: Timestamp::now(),
    }
}

fn create_onboarding_journey() -> Journey {
    let step1_id = StepId::new();
    let step2_id = StepId::new();
    let mut first = step(step1_id, "Welcome", vec![always(step2_id)]);
    first.expected_response = Some(".*".to_string());
    let mut second = step(step2_id, "Confirm", vec![]);
    second.actions = vec!["complete_onboarding".to_string()];
    journey(vec![first, second], step1_id)
}

fn create_conditional_journey() -> Journey {
    let step1_id = StepId::new();
    let yes_id = StepId::new();
    let no_id = StepId::new();
    let question = step(
        step1_id,
        "Question",
        vec![
            Transition {
                condition: TransitionCondition::Match(r"(?i)yes".to_string()),
                next_step: yes_id,
            },
            Transition {
                condition: TransitionCondition::Match(r"(?i)no".to_string()),
                next_step: no_id,
            },
        ],
    );
    journey(
        vec![question, step(yes_id, "Affirmative", vec![]), step(no_id, "Negative", vec![])],
        step1_id,
    )
}

fn create_test_agent() -> Agent {
    Agent::builder()
        .name("Test Journey Agent")
        .description("Agent for testing journey functionality")
        .build()
        .expect("Failed to build test agent")
}

fn journey_error(result: Result<(), AgentError>) -> String {
    match result {
        Err(AgentError::Journey(text)) => text,
        other => panic!("expected a journey error, found {:?}", other),
    }
}

#[test]
fn test_journey_state_new() {
    let journey_id = JourneyId::new();
    let step_id = StepId::new();
    let state = JourneyState::new(journey_id, step_id);
    assert_eq!(state.journey_id, journey_id);
    assert_eq!(state.current_step, step_id);
    assert_eq!(state.completed_steps.len(), 0);
    assert!(!state.is_complete);
}

#[test]
fn test_journey_state_complete_step() {
    let journey_id = JourneyId::new();
    let step_id = StepId::new();
    let mut state = JourneyState::new(journey_id, step_id);
    state.complete_step(step_id);
    assert_eq!(state.completed_steps.len(), 1);
    assert!(state.completed_steps.contains(&step_id));
    state.complete_step(step_id);
    assert_eq!(state.completed_steps.len(), 1);
}

#[test]
fn test_journey_state_mark_complete() {
    let journey_id = JourneyId::new();
    let step_id = StepId::new();
    let mut state = JourneyState::new(journey_id, step_id);
    assert!(!state.is_complete);
    assert!(state.completed_at.is_none());
    state.mark_complete();
    assert!(state.is_complete);
    assert!(state.completed_at.is_some());
}

#[test]
fn test_validate_journey_invalid_initial_step() {
    let invalid = journey(vec![step(StepId::new(), "Step 1", vec![])], StepId::from_u128(0xab));
    let result = validate_journey(&invalid);
    assert!(result.is_err());
    assert_eq!(
        journey_error(result),
        "Initial step 00000000-0000-0000-0000-0000000000ab not found in journey steps"
    );
}

#[test]
fn test_validate_journey_circular_dependency() {
    let step1_id = StepId::new();
    let step2_id = StepId::new();
    let circular = journey(
        vec![
            step(step1_id, "Step 1", vec![always(step2_id)]),
            step(step2_id, "Step 2", vec![always(step1_id)]),
        ],
        step1_id,
    );
    let result = validate_journey(&circular);
    assert!(result.is_err());
    assert_eq!(journey_error(result), "Circular dependency detected in journey");
}

#[test]
fn test_validate_journey_missing_target() {
    let step1_id = StepId::new();
    let step2_id = StepId::new();
    let dangling = journey(
        vec![
            step(step1_id, "Step 1", vec![always(step2_id), always(StepId::from_u128(2))]),
            step(step2_id, "Step 2", vec![always(StepId::from_u128(3))]),
        ],
        step1_id,
    );
    assert_eq!(
        journey_error(validate_journey(&dangling)),
        "Transition target 00000000-0000-0000-0000-000000000002 not found in journey steps"
    );
}

#[test]
fn test_validate_journey_self_loop_is_a_cycle() {
    let only = StepId::new();
    let looping = journey(vec![step(only, "Loop", vec![always(only)])], only);
    assert_eq!(
        journey_error(validate_journey(&looping)),
        "Circular dependency detected in journey"
    );
}

#[test]
fn test_validate_journey_accepts_a_diamond() {
    let (a, b, c, d) = (StepId::new(), StepId::new(), StepId::new(), StepId::new());
    let diamond = journey(
        vec![
            step(a, "A", vec![always(b), always(c)]),
            step(b, "B", vec![always(d)]),
            step(c, "C", vec![always(d)]),
            step(d, "D", vec![]),
        ],
        a,
    );
    assert!(validate_journey(&diamond).is_ok());
}

#[test]
fn test_validate_journey_ignores_a_cycle_out_of_reach() {
    let (a, b, c) = (StepId::new(), StepId::new(), StepId::new());
    let apart = journey(
        vec![
            step(a, "A", vec![]),
            step(b, "B", vec![always(c)]),
            step(c, "C", vec![always(b)]),
        ],
        a,
    );
    assert!(validate_journey(&apart).is_ok());
}

#[test]
fn test_validate_journey_finds_a_cycle_behind_a_finished_branch() {
    let (a, b, c, d) = (StepId::new(), StepId::new(), StepId::new(), StepId::new());
    let late = journey(
        vec![
            step(a, "A", vec![always(b), always(c)]),
            step(b, "B", vec![]),
            step(c, "C", vec![always(d)]),
            step(d, "D", vec![always(c)]),
        ],
        a,
    );
    assert!(validate_journey(&late).is_err());
}

#[test]
fn test_evaluate_condition_always() {
    let context = Context::new();
    let condition = TransitionCondition::Always;
    let result = evaluate_condition(&condition, "any message", &context);
    assert!(result.is_ok());
    assert!(result.unwrap());
}

#[test]
fn test_evaluate_condition_match() {
    let context = Context::new();
    let condition = TransitionCondition::Match(r"(?i)yes".to_string());
    let result_yes = evaluate_condition(&condition, "YES", &context);
    assert!(result_yes.is_ok());
    assert!(result_yes.unwrap());
    let result_no = evaluate_condition(&condition, "no", &context);
    assert!(result_no.is_ok());
    assert!(!result_no.unwrap());
}

#[test]
fn test_evaluate_condition_invalid_pattern_is_an_error() {
    let context = Context::new();
    let condition = TransitionCondition::Match("(unclosed".to_string());
    match evaluate_condition(&condition, "anything", &context) {
        Err(AgentError::Journey(text)) => {
            let reason = regex::Regex::new("(unclosed").unwrap_err();
            assert_eq!(text, format!("Invalid regex pattern: {}", reason));
            assert!(text.contains("unclosed group"));
        },
        other => panic!("expected a journey error, found {:?}", other),
    }
}

#[test]
fn test_evaluate_condition_context_variable() {
    let mut context = Context::new();
    let condition = TransitionCondition::ContextVariable {
        key: "plan".to_string(),
        value: "pro".to_string(),
    };
    assert!(!evaluate_condition(&condition, "", &context).unwrap());
    context.add_variable(ContextVariable::new(
        "plan",
        JsonValue::Text("pro".to_string()),
        MessageId::new(),
    ));
    assert!(evaluate_condition(&condition, "", &context).unwrap());
    context.add_variable(ContextVariable::new("plan", JsonValue::Integer(3), MessageId::new()));
    assert!(!evaluate_condition(&condition, "", &context).unwrap());
    let empty = TransitionCondition::ContextVariable {
        key: "missing".to_string(),
        value: String::new(),
    };
    assert!(evaluate_condition(&empty, "", &context).unwrap());
}

#[test]
fn test_find_next_step_takes_the_first_transition_that_holds() {
    let (a, b, c) = (StepId::new(), StepId::new(), StepId::new());
    let context = Context::new();
    let choice = step(
        a,
        "Choice",
        vec![
            Transition { condition: TransitionCondition::Match("maybe".to_string()), next_step: b },
            always(c),
            always(b),
        ],
    );
    assert_eq!(find_next_step(&choice, "no", &context).unwrap(), Some(c));
    assert_eq!(find_next_step(&choice, "maybe", &context).unwrap(), Some(b));
    assert_eq!(find_next_step(&step(a, "End", vec![]), "x", &context).unwrap(), None);
    let broken = step(
        a,
        "Broken",
        vec![
            always(b),
            Transition { condition: TransitionCondition::Match("(".to_string()), next_step: c },
        ],
    );
    assert_eq!(find_next_step(&broken, "x", &context).unwrap(), Some(b));
    let broken_first = step(
        a,
        "Broken",
        vec![
            Transition { condition: TransitionCondition::Match("(".to_string()), next_step: c },
            always(b),
        ],
    );
    assert!(find_next_step(&broken_first, "x", &context).is_err());
}

#[test]
fn test_start_journey() {
    let mut agent = create_test_agent();
    let journey = create_onboarding_journey();
    let journey_id = journey.id;
    let initial_step_id = journey.initial_step;
    agent.add_journey(journey).expect("Failed to add journey");
    let session_id = SessionId::new();
    {
        let state = agent.start_journey(&session_id, &journey_id).expect("Failed to start journey");
        assert_eq!(state.journey_id, journey_id);
        assert_eq!(state.current_step, initial_step_id);
        assert_eq!(state.completed_steps.len(), 0);
        assert!(!state.is_complete);
    }
    let retrieved_state = agent.get_journey_state(&session_id).expect("Failed to get journey state");
    assert!(retrieved_state.is_some());
    let retrieved_state = retrieved_state.unwrap();
    assert_eq!(retrieved_state.journey_id, journey_id);
    assert_eq!(retrieved_state.current_step, initial_step_id);
}

#[test]
fn test_start_unknown_journey_fails() {
    let mut agent = create_test_agent();
    let unknown = JourneyId::from_u128(7);
    match agent.start_journey(&SessionId::new(), &unknown) {
        Err(AgentError::Journey(text)) => {
            assert_eq!(text, "Journey not found: 00000000-0000-0000-0000-000000000007")
        },
        other => panic!("expected a journey error, found {:?}", other.map(|_| ())),
    }
}

#[test]
fn test_process_step() {
    let mut agent = create_test_agent();
    let journey = create_onboarding_journey();
    let journey_id = journey.id;
    let step1_id = journey.steps[0].id;
    let step2_id = journey.steps[1].id;
    agent.add_journey(journey).expect("Failed to add journey");
    let session_id = SessionId::new();
    agent.start_journey(&session_id, &journey_id).expect("Failed to start journey");
    {
        let next_step = agent
            .process_journey_step(&session_id, "My name is Alice")
            .expect("Failed to process step");
        assert_eq!(next_step.id, step2_id);
        assert_eq!(next_step.name, "Confirm");
    }
    {
        let state = agent.get_journey_state(&session_id).unwrap().expect("Journey state not found");
        assert_eq!(state.current_step, step2_id);
        assert_eq!(state.completed_steps.len(), 1);
        assert!(state.completed_steps.contains(&step1_id));
        assert!(!state.is_complete);
    }
    {
        let final_step = agent
            .process_journey_step(&session_id, "Yes, I'm ready!")
            .expect("Failed to process final step");
        assert_eq!(final_step.id, step2_id);
    }
    let final_state = agent.get_journey_state(&session_id).unwrap().expect("Journey state not found");
    assert_eq!(final_state.completed_steps.len(), 2);
    assert!(final_state.completed_steps.contains(&step2_id));
    assert!(final_state.is_complete);
}

#[test]
fn test_three_step_journey_runs_to_completion() {
    let (welcome, goals, complete) = (StepId::new(), StepId::new(), StepId::new());
    let onboarding = journey(
        vec![
            step(welcome, "Welcome", vec![always(goals)]),
            step(goals, "Goals", vec![always(complete)]),
            step(complete, "Complete", vec![]),
        ],
        welcome,
    );
    let journey_id = onboarding.id;
    let mut agent = create_test_agent();
    agent.add_journey(onboarding).unwrap();
    let session_id = SessionId::new();
    assert_eq!(agent.start_journey(&session_id, &journey_id).unwrap().current_step, welcome);

    assert_eq!(agent.process_journey_step(&session_id, "Alice").unwrap().id, goals);
    {
        let state = agent.get_journey_state(&session_id).unwrap().unwrap();
        assert_eq!(state.current_step, goals);
        assert_eq!(state.completed_steps, vec![welcome]);
        assert!(!state.is_complete);
    }
    assert_eq!(agent.process_journey_step(&session_id, "Learn stuff").unwrap().id, complete);
    {
        let state = agent.get_journey_state(&session_id).unwrap().unwrap();
        assert_eq!(state.current_step, complete);
        assert_eq!(state.completed_steps, vec![welcome, goals]);
        assert!(!state.is_complete);
    }
    assert_eq!(agent.process_journey_step(&session_id, "thanks").unwrap().id, complete);
    {
        let state = agent.get_journey_state(&session_id).unwrap().unwrap();
        assert_eq!(state.current_step, complete);
        assert_eq!(state.completed_steps, vec![welcome, goals, complete]);
        assert!(state.is_complete);
        assert!(state.completed_at.is_some());
    }
    assert_eq!(agent.process_journey_step(&session_id, "again").unwrap().id, complete);
    let state = agent.get_journey_state(&session_id).unwrap().unwrap();
    assert_eq!(state.completed_steps, vec![welcome, goals, complete]);
    assert!(state.is_complete);
}

#[test]
fn test_process_step_without_a_journey_fails() {
    let mut agent = create_test_agent();
    match agent.process_journey_step(&SessionId::new(), "hello") {
        Err(AgentError::Journey(text)) => assert_eq!(text, "No active journey for session"),
        other => panic!("expected a journey error, found {:?}", other.map(|_| ())),
    }
}

#[test]
fn test_get_state() {
    let mut agent = create_test_agent();
    let journey = create_onboarding_journey();
    let journey_id = journey.id;
    agent.add_journey(journey).expect("Failed to add journey");
    let session_id = SessionId::new();
    assert!(agent.get_journey_state(&session_id).expect("Failed to get state").is_none());
    agent.start_journey(&session_id, &journey_id).expect("Failed to start journey");
    let state_after = agent.get_journey_state(&session_id).expect("Failed to get state");
    assert!(state_after.is_some());
    let state = state_after.unwrap();
    assert_eq!(state.journey_id, journey_id);
    assert_eq!(state.completed_steps.len(), 0);
    assert!(!state.is_complete);
}

#[test]
fn test_end_journey() {
    let mut agent = create_test_agent();
    let journey = create_onboarding_journey();
    let journey_id = journey.id;
    agent.add_journey(journey).expect("Failed to add journey");
    let session_id = SessionId::new();
    agent.start_journey(&session_id, &journey_id).expect("Failed to start journey");
    assert!(agent.get_journey_state(&session_id).expect("Failed to get state").is_some());
    agent.end_journey(&session_id).expect("Failed to end journey");
    assert!(agent.get_journey_state(&session_id).expect("Failed to get state").is_none());
    let restarted_state =
        agent.start_journey(&session_id, &journey_id).expect("Failed to restart journey");
    assert_eq!(restarted_state.journey_id, journey_id);
    assert_eq!(restarted_state.completed_steps.len(), 0);
}

#[test]
fn test_add_journey() {
    let mut agent = create_test_agent();
    let journey = create_onboarding_journey();
    let journey_id = journey.id;
    let returned_id = agent.add_journey(journey).expect("Failed to add journey");
    assert_eq!(returned_id, journey_id);
    let session_id = SessionId::new();
    let state =
        agent.start_journey(&session_id, &journey_id).expect("Failed to start registered journey");
    assert_eq!(state.journey_id, journey_id);
}

#[test]
fn test_conditional_transitions() {
    let mut agent = create_test_agent();
    let journey = create_conditional_journey();
    let journey_id = journey.id;
    let step_yes_id = journey.steps[1].id;
    let step_no_id = journey.steps[2].id;
    agent.add_journey(journey).expect("Failed to add journey");

    let session_yes = SessionId::new();
    agent.start_journey(&session_yes, &journey_id).expect("Failed to start journey");
    {
        let next_step_yes =
            agent.process_journey_step(&session_yes, "yes").expect("Failed to process step");
        assert_eq!(next_step_yes.id, step_yes_id);
        assert_eq!(next_step_yes.name, "Affirmative");
    }
    let session_no = SessionId::new();
    agent.start_journey(&session_no, &journey_id).expect("Failed to start journey");
    let next_step_no = agent.process_journey_step(&session_no, "no").expect("Failed to process step");
    assert_eq!(next_step_no.id, step_no_id);
    assert_eq!(next_step_no.name, "Negative");
}

#[test]
fn test_journey_validation() {
    let mut agent = create_test_agent();
    let invalid_initial_step = journey(vec![step(StepId::new(), "Step 1", vec![])], StepId::new());
    assert!(agent.add_journey(invalid_initial_step).is_err());
    let step1_id = StepId::new();
    let step2_id = StepId::new();
    let circular_journey = journey(
        vec![
            step(step1_id, "Step 1", vec![always(step2_id)]),
            step(step2_id, "Step 2", vec![always(step1_id)]),
        ],
        step1_id,
    );
    assert!(agent.add_journey(circular_journey).is_err());
}

#[test]
fn test_manager_process_step_reports_unknown_journey_and_step() {
    let mut manager = DefaultJourneyManager::new();
    let onboarding = create_onboarding_journey();
    let journey_id = onboarding.id;
    let first = onboarding.steps[0].id;
    let second = onboarding.steps[1].id;
    manager.add_journey(onboarding).unwrap();
    assert!(manager.get_journey(&journey_id).is_some());
    assert!(manager.get_journey(&JourneyId::new()).is_none());
    match manager.process_step(&JourneyId::new(), first, "x") {
        Err(AgentError::Journey(text)) => assert_eq!(text, "Journey not found"),
        _ => panic!("expected a journey error"),
    }
    match manager.process_step(&journey_id, StepId::new(), "x") {
        Err(AgentError::Journey(text)) => assert_eq!(text, "Current step not found"),
        _ => panic!("expected a journey error"),
    }
    assert_eq!(manager.process_step(&journey_id, first, "x").unwrap().id, second);
    assert_eq!(manager.process_step(&journey_id, second, "x").unwrap().id, second);
}

#[test]
fn test_manager_reads_context_variables() {
    let (a, b) = (StepId::new(), StepId::new());
    let gated = journey(
        vec![
            step(
                a,
                "Gate",
                vec![Transition {
                    condition: TransitionCondition::ContextVariable {
                        key: "ready".to_string(),
                        value: "yes".to_string(),
                    },
                    next_step: b,
                }],
            ),
            step(b, "Open", vec![]),
        ],
        a,
    );
    let journey_id = gated.id;
    let mut manager = DefaultJourneyManager::new();
    manager.add_journey(gated).unwrap();
    let mut context = Context::new();
    assert_eq!(manager.process_step(&journey_id, a, "go").unwrap().id, a);
    assert_eq!(manager.process_step_in_context(&journey_id, a, "go", &context).unwrap().id, a);
    context.add_variable(ContextVariable::new(
        "ready",
        JsonValue::Text("yes".to_string()),
        MessageId::new(),
    ));
    assert_eq!(manager.process_step_in_context(&journey_id, a, "go", &context).unwrap().id, b);
}
