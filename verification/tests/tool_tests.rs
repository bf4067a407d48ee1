use talk::{
    backoff, execute_with_retry, validate_type, AgentError, Duration, JsonValue, ParameterSchema,
    RetryDecision, TextMap, Tool, ToolId, ToolRegistry, ToolResult,
};

fn schema(param_type: &str, required: bool, default: Option<JsonValue>) -> ParameterSchema {
    ParameterSchema {
        param_type: param_type.to_string(),
        required,
        description: "A parameter".to_string(),
        default,
    }
}

fn tool(name: &str, parameters: Vec<(&str, ParameterSchema)>) -> Tool {
    let mut declared = TextMap::new();
    for (key, value) in parameters {
        declared.insert(key.to_string(), value);
    }
    Tool {
        id: ToolId::new(),
        name: name.to_string(),
        description: "A test tool".to_string(),
        parameters: declared,
    }
}

fn text(value: &str) -> JsonValue {
    JsonValue::Text(value.to_string())
}

fn params(entries: Vec<(&str, JsonValue)>) -> TextMap<JsonValue> {
    let mut map = TextMap::new();
    for (key, value) in entries {
        map.insert(key.to_string(), value);
    }
    map
}

fn test_tool() -> Tool {
    tool("test", vec![("message", schema("string", true, None))])
}

fn echo_tool() -> Tool {
    tool("echo", vec![("message", schema("string", false, Some(text("Hello"))))])
}

fn echo(_tool: &Tool, parameters: TextMap<JsonValue>) -> Result<ToolResult, AgentError> {
    Ok(ToolResult {
        output: JsonValue::Object(parameters.entries),
        error: None,
        metadata: TextMap::new(),
    })
}

fn output_field(result: &ToolResult, name: &str) -> Option<JsonValue> {
    match &result.output {
        JsonValue::Object(fields) => {
            fields.iter().find(|(key, _)| key == name).map(|(_, value)| value.clone())
        },
        _ => None,
    }
}

fn is_text(value: Option<JsonValue>, expected: &str) -> bool {
    matches!(value, Some(JsonValue::Text(t)) if t == expected)
}

fn failure() -> AgentError {
    AgentError::ToolExecutionFailed {
        tool_name: "failing".to_string(),
        reason: "Simulated failure".to_string(),
    }
}

#[test]
fn test_parameter_validation_missing_required() {
    let tool = test_tool();
    let result = tool.validate_parameters(&TextMap::new());
    assert!(result.is_err());
}

#[test]
fn test_parameter_validation_type_mismatch() {
    let tool = test_tool();
    let result = tool.validate_parameters(&params(vec![("message", JsonValue::Integer(123))]));
    assert!(result.is_err());
}

#[test]
fn test_parameter_validation_success() {
    let tool = test_tool();
    let result = tool.validate_parameters(&params(vec![("message", text("Hello"))]));
    assert!(result.is_ok());
}

#[test]
fn test_type_validation() {
    assert!(validate_type(&text("hello"), "string"));
    assert!(validate_type(&JsonValue::Integer(123), "number"));
    assert!(validate_type(&JsonValue::Bool(true), "boolean"));
    assert!(validate_type(&JsonValue::Object(vec![]), "object"));
    assert!(validate_type(&JsonValue::Array(vec![]), "array"));
    assert!(validate_type(&JsonValue::Null, "null"));
    assert!(!validate_type(&JsonValue::Integer(123), "string"));
    assert!(!validate_type(&text("hello"), "number"));
}

#[test]
fn test_type_validation_of_every_number_and_unknown_types() {
    assert!(validate_type(&JsonValue::Unsigned(u64::MAX), "number"));
    assert!(validate_type(&JsonValue::Float { bits: 0x3FF0_0000_0000_0000 }, "number"));
    assert!(!validate_type(&JsonValue::Null, "object"));
    assert!(!validate_type(&JsonValue::Array(vec![]), "object"));
    assert!(!validate_type(&JsonValue::Bool(false), "null"));
    assert!(validate_type(&JsonValue::Null, "integer"));
    assert!(validate_type(&text("x"), ""));
    assert!(validate_type(&JsonValue::Bool(true), "String"));
}

#[test]
fn test_validation_reasons() {
    let tool = tool(
        "typed",
        vec![
            ("first", schema("string", true, None)),
            ("second", schema("number", true, None)),
            ("third", schema("boolean", false, None)),
        ],
    );
    match tool.validate_parameters(&params(vec![("third", JsonValue::Null)])) {
        Err(AgentError::InvalidToolParameters { tool_name, reason }) => {
            assert_eq!(tool_name, "typed");
            assert_eq!(reason, "Missing required parameter: first");
        },
        other => panic!("expected invalid parameters, found {:?}", other),
    }
    let call = params(vec![
        ("extra", JsonValue::Null),
        ("second", text("two")),
        ("first", JsonValue::Integer(1)),
    ]);
    match tool.validate_parameters(&call) {
        Err(AgentError::InvalidToolParameters { reason, .. }) => {
            assert_eq!(reason, "Parameter 'second' has wrong type, expected number");
        },
        other => panic!("expected invalid parameters, found {:?}", other),
    }
    let good = params(vec![
        ("extra", JsonValue::Null),
        ("second", JsonValue::Integer(2)),
        ("first", text("one")),
    ]);
    assert!(tool.validate_parameters(&good).is_ok());
}

#[test]
fn test_apply_defaults_fills_only_what_is_missing() {
    let tool = tool(
        "defaults",
        vec![
            ("greeting", schema("string", false, Some(text("Hello")))),
            ("count", schema("number", false, Some(JsonValue::Integer(3)))),
            ("plain", schema("string", false, None)),
        ],
    );
    let mut call = params(vec![("count", JsonValue::Integer(9))]);
    tool.apply_defaults(&mut call);
    assert_eq!(call.len(), 2);
    assert!(matches!(call.get("count"), Some(JsonValue::Integer(9))));
    assert!(matches!(call.get("greeting"), Some(JsonValue::Text(t)) if t == "Hello"));
    assert!(call.get("plain").is_none());
}

#[test]
fn test_required_parameter_with_default_is_still_required() {
    let mut tool_registry = ToolRegistry::new();
    let strict = tool("strict", vec![("q", schema("string", true, Some(text("x"))))]);
    let tool_id = tool_registry.register(strict).unwrap();
    let result = tool_registry.execute(&tool_id, TextMap::new(), echo);
    match result {
        Err(AgentError::InvalidToolParameters { tool_name, reason }) => {
            assert_eq!(tool_name, "strict");
            assert_eq!(reason, "Missing required parameter: q");
        },
        other => panic!("expected invalid parameters, found {:?}", other),
    }
    assert!(matches!(
        tool_registry.prepare(&tool_id, TextMap::new()),
        Err(AgentError::InvalidToolParameters { .. })
    ));
    let given = tool_registry.execute(&tool_id, params(vec![("q", text("y"))]), echo).unwrap();
    assert!(is_text(output_field(&given, "q"), "y"));
}

#[test]
fn test_apply_defaults_skips_required_parameters() {
    let tool = tool(
        "mixed",
        vec![
            ("needed", schema("string", true, Some(text("never used")))),
            ("extra", schema("string", false, Some(text("filled")))),
        ],
    );
    let mut call = TextMap::new();
    tool.apply_defaults(&mut call);
    assert_eq!(call.len(), 1);
    assert!(call.get("needed").is_none());
    assert!(matches!(call.get("extra"), Some(JsonValue::Text(t)) if t == "filled"));
    assert!(tool.validate_parameters(&call).is_err());
}

#[test]
fn test_register_tool() {
    let mut tool_registry = ToolRegistry::new();
    let tool_id = tool_registry.register(echo_tool()).expect("Failed to register tool");
    assert!(tool_registry.get(&tool_id).is_some());
}

#[test]
fn test_register_duplicate_tool_fails() {
    let mut tool_registry = ToolRegistry::new();
    tool_registry.register(echo_tool()).expect("First registration should succeed");
    let result = tool_registry.register(echo_tool());
    assert!(result.is_err());
    match result.unwrap_err() {
        AgentError::ToolAlreadyRegistered(name) => assert_eq!(name, "echo"),
        other => panic!("expected ToolAlreadyRegistered, found {:?}", other),
    }
    assert_eq!(tool_registry.list().len(), 1);
}

#[test]
fn test_unregister_tool() {
    let mut tool_registry = ToolRegistry::new();
    let tool_id = tool_registry.register(echo_tool()).expect("Failed to register tool");
    tool_registry.unregister(&tool_id).expect("Failed to unregister tool");
    assert!(tool_registry.get(&tool_id).is_none());
    assert!(tool_registry.get_by_name("echo").is_none());
    assert!(tool_registry.register(echo_tool()).is_ok());
}

#[test]
fn test_unregister_unknown_tool_fails() {
    let mut tool_registry = ToolRegistry::new();
    let stranger = ToolId::new();
    match tool_registry.unregister(&stranger) {
        Err(AgentError::ToolNotFound(id)) => assert_eq!(id, stranger),
        other => panic!("expected ToolNotFound, found {:?}", other),
    }
}

#[test]
fn test_list_tools() {
    let mut tool_registry = ToolRegistry::new();
    tool_registry.register(echo_tool()).unwrap();
    tool_registry.register(tool("slow", vec![])).unwrap();
    let tools = tool_registry.list();
    assert_eq!(tools.len(), 2);
    assert_eq!(tools[0].name, "echo");
    assert_eq!(tools[1].name, "slow");
}

#[test]
fn test_get_tool_by_id() {
    let mut tool_registry = ToolRegistry::new();
    let tool_id = tool_registry.register(echo_tool()).unwrap();
    let retrieved = tool_registry.get(&tool_id);
    assert!(retrieved.is_some());
    assert_eq!(retrieved.unwrap().name, "echo");
}

#[test]
fn test_get_tool_by_name() {
    let mut tool_registry = ToolRegistry::new();
    let tool_id = tool_registry.register(echo_tool()).unwrap();
    assert_eq!(tool_registry.get_by_name("echo").unwrap().id, tool_id);
    assert!(tool_registry.get_by_name("Echo").is_none());
}

#[test]
fn test_register_same_id_under_new_name_replaces_the_tool() {
    let mut tool_registry = ToolRegistry::new();
    let first = echo_tool();
    let id = first.id;
    let mut second = tool("renamed", vec![]);
    second.id = id;
    tool_registry.register(first).unwrap();
    tool_registry.register(second).unwrap();
    assert_eq!(tool_registry.list().len(), 1);
    assert_eq!(tool_registry.get(&id).unwrap().name, "renamed");
    assert_eq!(tool_registry.get_by_name("echo").unwrap().name, "renamed");
}

#[test]
fn test_execute_tool_basic() {
    let mut tool_registry = ToolRegistry::new();
    let tool_id = tool_registry.register(echo_tool()).unwrap();
    let result = tool_registry
        .execute(&tool_id, params(vec![("message", text("Hello"))]), echo)
        .expect("Tool execution failed");
    assert!(result.error.is_none());
    assert!(is_text(output_field(&result, "message"), "Hello"));
}

#[test]
fn test_execute_tool_multiple_times() {
    let mut tool_registry = ToolRegistry::new();
    let tool_id = tool_registry.register(echo_tool()).unwrap();
    for i in 0..5 {
        let call = params(vec![("count", JsonValue::Integer(i))]);
        let result = tool_registry.execute(&tool_id, call, echo).unwrap();
        assert!(matches!(output_field(&result, "count"), Some(JsonValue::Integer(n)) if n == i));
        assert!(result.error.is_none());
    }
}

#[test]
fn test_execute_nonexistent_tool_fails() {
    let tool_registry = ToolRegistry::new();
    let fake_id = ToolId::new();
    let result = tool_registry.execute(&fake_id, TextMap::new(), echo);
    assert!(result.is_err());
    assert!(matches!(result.unwrap_err(), AgentError::ToolNotFound(_)));
}

#[test]
fn test_validate_required_parameters() {
    let mut tool_registry = ToolRegistry::new();
    let required = tool("required_param_tool", vec![("required_field", schema("string", true, None))]);
    let tool_id = tool_registry.register(required).unwrap();
    let result = tool_registry.execute(&tool_id, TextMap::new(), echo);
    assert!(result.is_err());
    assert!(matches!(result.unwrap_err(), AgentError::InvalidToolParameters { .. }));
}

#[test]
fn test_validate_parameter_types() {
    let mut tool_registry = ToolRegistry::new();
    let typed = tool("typed_param_tool", vec![("number_field", schema("number", true, None))]);
    let tool_id = tool_registry.register(typed).unwrap();
    let call = params(vec![("number_field", text("not a number"))]);
    let result = tool_registry.execute(&tool_id, call, echo);
    assert!(result.is_err());
    assert!(matches!(result.unwrap_err(), AgentError::InvalidToolParameters { .. }));
}

#[test]
fn test_optional_parameters_with_defaults() {
    let mut tool_registry = ToolRegistry::new();
    let defaulted = tool(
        "default_param_tool",
        vec![("optional_field", schema("string", false, Some(text("default_value"))))],
    );
    let tool_id = tool_registry.register(defaulted).unwrap();
    let result = tool_registry.execute(&tool_id, TextMap::new(), echo).unwrap();
    assert!(is_text(output_field(&result, "optional_field"), "default_value"));
    assert!(result.error.is_none());
}

#[test]
fn test_default_of_wrong_type_fails_validation() {
    let mut tool_registry = ToolRegistry::new();
    let odd = tool("odd", vec![("n", schema("number", false, Some(text("seven"))))]);
    let tool_id = tool_registry.register(odd).unwrap();
    assert!(matches!(
        tool_registry.prepare(&tool_id, TextMap::new()),
        Err(AgentError::InvalidToolParameters { .. })
    ));
    let ready = tool_registry.prepare(&tool_id, params(vec![("n", JsonValue::Integer(7))])).unwrap();
    assert!(matches!(ready.get("n"), Some(JsonValue::Integer(7))));
}

#[test]
fn test_tool_execution_failure() {
    let mut tool_registry = ToolRegistry::new();
    let tool_id = tool_registry.register(tool("failing", vec![])).unwrap();
    let result = tool_registry.execute(&tool_id, TextMap::new(), |_, _| Err(failure()));
    assert!(result.is_err());
    assert!(matches!(result.unwrap_err(), AgentError::ToolExecutionFailed { .. }));
}

#[test]
fn test_tool_error_contains_context() {
    let mut tool_registry = ToolRegistry::new();
    let tool_id = tool_registry.register(tool("failing", vec![])).unwrap();
    let result = tool_registry.execute(&tool_id, TextMap::new(), |_, _| Err(failure()));
    match result {
        Err(AgentError::ToolExecutionFailed { tool_name, reason }) => {
            assert_eq!(tool_name, "failing");
            assert!(reason.contains("Simulated failure"));
        },
        _ => panic!("Expected ToolExecutionFailed error"),
    }
}

#[test]
fn test_tool_execution_timeout() {
    let mut tool_registry = ToolRegistry::new();
    let tool_id = tool_registry.register(tool("slow", vec![])).unwrap();
    let timeout = Duration::from_secs(1);
    let result = tool_registry.execute_with_timeout(&tool_id, None, timeout);
    assert!(result.is_err());
    match result.unwrap_err() {
        AgentError::ToolTimeout { tool_name, timeout: reported } => {
            assert_eq!(tool_name, "slow");
            assert_eq!(reported, timeout);
        },
        other => panic!("expected ToolTimeout, found {:?}", other),
    }
    let unknown = tool_registry.execute_with_timeout(&ToolId::new(), None, timeout);
    assert!(matches!(
        unknown,
        Err(AgentError::ToolTimeout { tool_name, .. }) if tool_name == "unknown"
    ));
}

#[test]
fn test_tool_execution_within_timeout() {
    let mut tool_registry = ToolRegistry::new();
    let tool_id = tool_registry.register(tool("slow", vec![])).unwrap();
    let timeout = Duration::from_secs(5);
    let finished = tool_registry.execute(&tool_id, TextMap::new(), echo);
    let result = tool_registry.execute_with_timeout(&tool_id, Some(finished), timeout);
    assert!(result.is_ok());
    let failed = tool_registry.execute_with_timeout(&tool_id, Some(Err(failure())), timeout);
    assert!(matches!(failed, Err(AgentError::ToolExecutionFailed { .. })));
}

#[test]
fn test_backoff_doubles_and_saturates() {
    assert_eq!(backoff(100, 0), 100);
    assert_eq!(backoff(100, 1), 200);
    assert_eq!(backoff(100, 2), 400);
    assert_eq!(backoff(100, 10), 102_400);
    assert_eq!(backoff(0, 1_000_000), 0);
    assert_eq!(backoff(1, 63), 1u64 << 63);
    assert_eq!(backoff(1, 64), u64::MAX);
    assert_eq!(backoff(3, 4_000_000_000), u64::MAX);
    assert_eq!(backoff(u64::MAX / 2, 1), u64::MAX - 1);
    assert_eq!(backoff(u64::MAX / 2 + 1, 1), u64::MAX);
}

#[test]
fn test_retry_decisions() {
    let ok = ToolResult { output: JsonValue::Null, error: None, metadata: TextMap::new() };
    assert!(matches!(execute_with_retry(Ok(ok), 0, 3, 100), RetryDecision::Done(Ok(_))));
    match execute_with_retry(Err(failure()), 0, 3, 100) {
        RetryDecision::RetryAfter { delay_ms, attempt } => {
            assert_eq!(delay_ms, 100);
            assert_eq!(attempt, 1);
        },
        other => panic!("expected a retry, found {:?}", other),
    }
    match execute_with_retry(Err(failure()), 2, 3, 100) {
        RetryDecision::RetryAfter { delay_ms, attempt } => {
            assert_eq!(delay_ms, 400);
            assert_eq!(attempt, 3);
        },
        other => panic!("expected a retry, found {:?}", other),
    }
    assert!(matches!(
        execute_with_retry(Err(failure()), 3, 3, 100),
        RetryDecision::Done(Err(AgentError::ToolExecutionFailed { .. }))
    ));
    assert!(matches!(
        execute_with_retry(Err(failure()), 0, 0, 100),
        RetryDecision::Done(Err(_))
    ));
    let timeout =
        AgentError::ToolTimeout { tool_name: "slow".to_string(), timeout: Duration::from_secs(1) };
    assert!(matches!(
        execute_with_retry(Err(timeout), 1, 3, 50),
        RetryDecision::RetryAfter { delay_ms: 100, attempt: 2 }
    ));
    assert!(matches!(
        execute_with_retry(Err(AgentError::ToolNotFound(ToolId::new())), 0, 3, 100),
        RetryDecision::Done(Err(AgentError::ToolNotFound(_)))
    ));
    let invalid = AgentError::InvalidToolParameters {
        tool_name: "t".to_string(),
        reason: "r".to_string(),
    };
    assert!(matches!(
        execute_with_retry(Err(invalid), 0, 3, 100),
        RetryDecision::Done(Err(AgentError::InvalidToolParameters { .. }))
    ));
}
