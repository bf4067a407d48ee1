use talk::session::JourneyState;
use talk::{
    AgentId, Context, JourneyId, JsonValue, Message, Session, SessionStatus, StepId, Timestamp,
};

#[test]
fn test_journey_state_creation() {
    let journey_id = JourneyId::new();
    let step_id = StepId::new();
    let state = JourneyState::new(journey_id, step_id);
    assert_eq!(state.journey_id, journey_id);
    assert_eq!(state.current_step, step_id);
    assert_eq!(state.step_history.len(), 1);
    assert!(!state.is_completed());
}

#[test]
fn test_journey_state_move_to_step() {
    let journey_id = JourneyId::new();
    let step1 = StepId::new();
    let step2 = StepId::new();
    let step3 = StepId::new();
    let mut state = JourneyState::new(journey_id, step1);
    state.move_to_step(step2);
    state.move_to_step(step3);
    assert_eq!(state.current_step, step3);
    assert_eq!(state.step_history.len(), 3);
    assert_eq!(state.step_history[0], step1);
    assert_eq!(state.step_history[1], step2);
    assert_eq!(state.step_history[2], step3);
}

#[test]
fn test_journey_state_complete() {
    let journey_id = JourneyId::new();
    let step_id = StepId::new();
    let mut state = JourneyState::new(journey_id, step_id);
    assert!(!state.is_completed());
    state.complete();
    assert!(state.is_completed());
    assert!(state.completed_at.is_some());
}

#[test]
fn test_session_creation() {
    let agent_id = AgentId::new();
    let session = Session::new(agent_id);
    assert_eq!(session.agent_id, agent_id);
    assert_eq!(session.status, SessionStatus::Active);
    assert!(session.context.messages.is_empty());
    assert!(session.journey_state.is_none());
    assert!(session.metadata.is_empty());
}

#[test]
fn test_session_with_context() {
    let agent_id = AgentId::new();
    let mut context = Context::new();
    context.add_message(Message::user("Hello"));
    let session = Session::with_context(agent_id, context.clone());
    assert_eq!(session.context.messages.len(), 1);
    assert_eq!(session.context, context);
}

fn hours_from_now(hours: i64) -> Timestamp {
    let instant = chrono::Utc::now() + chrono::Duration::hours(hours);
    Timestamp::new(instant.timestamp(), instant.timestamp_subsec_nanos())
}

#[test]
fn test_session_with_expiration() {
    let agent_id = AgentId::new();
    let expires_at = hours_from_now(24);
    let session = Session::new(agent_id).with_expiration(expires_at);
    assert!(session.expires_at.is_some());
    assert!(!session.is_expired());
}

#[test]
fn test_session_expiration() {
    let agent_id = AgentId::new();
    let expires_at = hours_from_now(-1);
    let session = Session::new(agent_id).with_expiration(expires_at);
    assert!(session.is_expired());
}

#[test]
fn test_session_expiry_at_a_given_instant() {
    let agent_id = AgentId::new();
    let expires_at = Timestamp::new(4_000_000_000, 0);
    let session = Session::new(agent_id).with_expiration(expires_at);
    assert_eq!(session.expires_at, Some(expires_at));
    assert!(!session.is_expired_at(&Timestamp::new(4_000_000_000, 0)));
    assert!(session.is_expired_at(&Timestamp::new(4_000_000_000, 1)));
    assert!(!Session::new(agent_id).is_expired());
    assert!(!Session::new(agent_id).is_expired_at(&Timestamp::new(i64::MAX, 0)));
}

#[test]
fn test_session_with_metadata() {
    let agent_id = AgentId::new();
    let session = Session::new(agent_id)
        .with_metadata("user_id", JsonValue::Text("user123".to_string()))
        .with_metadata("language", JsonValue::Text("en".to_string()));
    assert_eq!(session.metadata.len(), 2);
    assert_eq!(session.metadata.get("user_id"), Some(&JsonValue::Text("user123".to_string())));
}

#[test]
fn test_session_lifecycle() {
    let agent_id = AgentId::new();
    let mut session = Session::new(agent_id);
    assert!(session.is_active());
    session.pause();
    assert_eq!(session.status, SessionStatus::Paused);
    assert!(!session.is_active());
    session.resume();
    assert_eq!(session.status, SessionStatus::Active);
    assert!(session.is_active());
    session.complete();
    assert_eq!(session.status, SessionStatus::Completed);
    assert!(!session.is_active());
}

#[test]
fn test_session_terminate() {
    let agent_id = AgentId::new();
    let mut session = Session::new(agent_id);
    session.terminate();
    assert_eq!(session.status, SessionStatus::Terminated);
    assert!(!session.is_active());
}

#[test]
fn test_session_journey_lifecycle() {
    let agent_id = AgentId::new();
    let mut session = Session::new(agent_id);
    let journey_id = JourneyId::new();
    let step_id = StepId::new();
    assert!(session.get_journey_state().is_none());
    session.start_journey(journey_id, step_id);
    assert!(session.get_journey_state().is_some());
    assert_eq!(session.get_journey_state().unwrap().journey_id, journey_id);
    session.complete_journey();
    assert!(session.get_journey_state().unwrap().is_completed());
    session.clear_journey();
    assert!(session.get_journey_state().is_none());
}

#[test]
fn test_session_journey_state_mut() {
    let agent_id = AgentId::new();
    let mut session = Session::new(agent_id);
    let journey_id = JourneyId::new();
    let step1 = StepId::new();
    let step2 = StepId::new();
    session.start_journey(journey_id, step1);
    if let Some(journey) = session.get_journey_state_mut() {
        journey.move_to_step(step2);
    }
    assert_eq!(session.get_journey_state().unwrap().current_step, step2);
    assert_eq!(session.get_journey_state().unwrap().step_history, vec![step1, step2]);
    session.clear_journey();
    assert!(session.get_journey_state_mut().is_none());
}

#[test]
fn test_session_status_transitions() {
    let mut session = Session::new(AgentId::new());
    assert!(session.is_active());
    session.pause();
    assert_eq!(session.status, SessionStatus::Paused);
    assert!(!session.is_active());
    session.resume();
    assert_eq!(session.status, SessionStatus::Active);
    session.complete();
    assert_eq!(session.status, SessionStatus::Completed);
    session.resume();
    assert_eq!(session.status, SessionStatus::Completed);
    session.terminate();
    assert_eq!(session.status, SessionStatus::Terminated);
}

#[test]
fn test_session_journey_management() {
    let mut session = Session::new(AgentId::new());
    let journey_id = JourneyId::new();
    let step_id = StepId::new();
    assert!(session.get_journey_state().is_none());
    session.complete_journey();
    assert!(session.get_journey_state().is_none());
    session.start_journey(journey_id, step_id);
    assert!(session.get_journey_state().is_some());
    assert_eq!(session.get_journey_state().unwrap().journey_id, journey_id);
    assert_eq!(session.get_journey_state().unwrap().step_history, vec![step_id]);
    session.complete_journey();
    assert!(session.get_journey_state().unwrap().is_completed());
    session.clear_journey();
    assert!(session.get_journey_state().is_none());
}

#[test]
fn test_session_touch() {
    let mut session = Session::new(AgentId::new());
    session.updated_at = Timestamp::new(0, 0);
    session.touch();
    assert!(session.updated_at.is_after(&Timestamp::new(0, 0)));
}
