use talk::{
    default_enable_explainability, default_max_context_messages, default_max_messages,
    default_tool_timeout, Agent, AgentConfig, AgentError, Duration, LogLevel,
};

#[test]
fn test_agent_config_default() {
    let config = AgentConfig::default();
    assert_eq!(config.max_context_messages, 100);
    assert_eq!(config.default_tool_timeout, Duration::from_secs(30));
    assert_eq!(config.enable_explainability, true);
    assert_eq!(config.log_level, LogLevel::Info);
}

#[test]
fn test_default_functions() {
    assert_eq!(default_max_context_messages(), 100);
    assert_eq!(default_tool_timeout(), Duration::from_secs(30));
    assert_eq!(default_tool_timeout().as_millis(), 30_000);
    assert!(default_enable_explainability());
    assert_eq!(default_max_messages(), 100);
    assert_eq!(LogLevel::default(), LogLevel::Info);
}

#[test]
fn test_default_timeout_from_config() {
    let config = AgentConfig {
        max_context_messages: 100,
        default_tool_timeout: Duration::from_secs(2),
        enable_explainability: true,
        log_level: LogLevel::Info,
    };
    assert_eq!(config.default_tool_timeout, Duration::from_secs(2));
}

#[test]
fn test_builder_requires_a_name() {
    let built = Agent::builder().description("nameless").build();
    match built {
        Err(AgentError::Configuration(text)) => assert_eq!(text, "Agent name is required"),
        _ => panic!("expected a configuration error"),
    }
}

#[test]
fn test_builder_builds_an_empty_agent_with_fallback() {
    let config = AgentConfig {
        max_context_messages: 7,
        default_tool_timeout: Duration::from_secs(2),
        enable_explainability: false,
        log_level: LogLevel::Debug,
    };
    let agent = Agent::builder()
        .name("Support Bot")
        .description("Customer support agent")
        .config(config)
        .build()
        .unwrap();
    assert_eq!(agent.name, "Support Bot");
    assert_eq!(agent.description.as_deref(), Some("Customer support agent"));
    assert_eq!(agent.config, config);
    assert!(agent.guideline_matcher.get_guidelines().is_empty());
    assert!(agent.tool_registry.list().is_empty());
    assert_eq!(agent.fallback_guideline.priority, -1);
    assert!(agent.fallback_guideline.action.requires_llm);
    assert_eq!(
        agent.fallback_guideline.action.response_template,
        "I'm not sure how to help with that. Could you please rephrase your question?"
    );
}

#[test]
fn test_duration_conversions() {
    assert_eq!(Duration::from_millis(1500).as_secs(), 1);
    assert_eq!(Duration::from_millis(1500).as_millis(), 1500);
    assert_eq!(Duration::from_millis(100), Duration { secs: 0, nanos: 100_000_000 });
}
