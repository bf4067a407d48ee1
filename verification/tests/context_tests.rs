use talk::{
    messages_to_provider_format, Context, ContextVariable, JsonValue, Message, MessageId,
    MessageRole, Validator,
};

fn text(value: &str) -> JsonValue {
    JsonValue::Text(value.to_string())
}

#[test]
fn test_message_creation() {
    let msg = Message::user("Hello");
    assert_eq!(msg.role, MessageRole::User);
    assert_eq!(msg.content, "Hello");
    assert!(msg.metadata.is_none());
}

#[test]
fn test_message_roles() {
    assert_eq!(Message::system("s").role, MessageRole::System);
    assert_eq!(Message::assistant("a").role, MessageRole::Assistant);
    assert_eq!(Message::tool("t").role, MessageRole::Tool);
    assert_eq!(Message::tool("t").content, "t");
}

#[test]
fn test_message_with_metadata() {
    let confidence = JsonValue::Float { bits: 0.95f64.to_bits() };
    let msg = Message::assistant("Response").with_metadata("confidence", confidence.clone());
    assert!(msg.metadata.is_some());
    assert_eq!(msg.metadata.as_ref().unwrap().get("confidence"), Some(&confidence));
    let more = msg.with_metadata("source", text("faq"));
    assert_eq!(more.metadata.as_ref().unwrap().len(), 2);
    assert_eq!(more.content, "Response");
}

#[test]
fn test_context_variable_creation() {
    let msg_id = MessageId::new();
    let var = ContextVariable::new("name", text("Alice"), msg_id);
    assert_eq!(var.name, "name");
    assert_eq!(var.value, text("Alice"));
    assert_eq!(var.source_message_id, msg_id);
}

#[test]
fn test_context_variable_string_validator() {
    let msg_id = MessageId::new();
    let var = ContextVariable::new("name", text("Alice"), msg_id).with_validator(
        Validator::String { pattern: None, min_length: Some(3), max_length: Some(10) },
    );
    assert!(var.validate().is_ok());
    let short_var = ContextVariable::new("name", text("Al"), msg_id).with_validator(
        Validator::String { pattern: None, min_length: Some(3), max_length: Some(10) },
    );
    assert!(short_var.validate().is_err());
    assert_eq!(short_var.validate().unwrap_err(), "String length 2 is less than minimum 3");
}

#[test]
fn test_context_variable_integer_validator() {
    let msg_id = MessageId::new();
    let var = ContextVariable::new("age", JsonValue::Integer(25), msg_id)
        .with_validator(Validator::Integer { min: Some(0), max: Some(120) });
    assert!(var.validate().is_ok());
    let invalid_var = ContextVariable::new("age", JsonValue::Integer(150), msg_id)
        .with_validator(Validator::Integer { min: Some(0), max: Some(120) });
    assert!(invalid_var.validate().is_err());
    assert_eq!(invalid_var.validate().unwrap_err(), "Integer 150 exceeds maximum 120");
}

#[test]
fn test_context_variable_enum_validator() {
    let msg_id = MessageId::new();
    let colors = || Validator::Enum {
        allowed_values: vec!["red".to_string(), "green".to_string(), "blue".to_string()],
    };
    let var = ContextVariable::new("color", text("red"), msg_id).with_validator(colors());
    assert!(var.validate().is_ok());
    let invalid_var = ContextVariable::new("color", text("yellow"), msg_id).with_validator(colors());
    assert!(invalid_var.validate().is_err());
    assert_eq!(
        invalid_var.validate().unwrap_err(),
        "Value 'yellow' not in allowed values: [\"red\", \"green\", \"blue\"]"
    );
}

#[test]
fn test_validator_messages() {
    let id = MessageId::new();
    let check = |value: JsonValue, validator: Validator| {
        ContextVariable::new("v", value, id).with_validator(validator).validate()
    };
    let lengths = || Validator::String { pattern: None, min_length: Some(3), max_length: Some(5) };
    assert_eq!(check(JsonValue::Null, lengths()).unwrap_err(), "Value is not a string");
    assert_eq!(check(text("toolong"), lengths()).unwrap_err(), "String length 7 exceeds maximum 5");
    assert_eq!(check(text("äö"), lengths()), Ok(()));
    let digits = || Validator::String {
        pattern: Some(r"^\d+$".to_string()),
        min_length: None,
        max_length: None,
    };
    assert_eq!(check(text("12345"), digits()), Ok(()));
    assert_eq!(check(text("12a45"), digits()).unwrap_err(), r"String does not match pattern: ^\d+$");
    let broken = Validator::String {
        pattern: Some("(".to_string()),
        min_length: None,
        max_length: None,
    };
    let complaint = check(text("x"), broken).unwrap_err();
    assert_eq!(
        complaint,
        format!("Invalid regex pattern: {}", regex::Regex::new("(").unwrap_err())
    );
    assert!(complaint.contains("unclosed group"));
    let range = || Validator::Integer { min: Some(-5), max: None };
    assert_eq!(check(JsonValue::Integer(-6), range()).unwrap_err(), "Integer -6 is less than minimum -5");
    assert_eq!(check(JsonValue::Unsigned(7), range()), Ok(()));
    assert_eq!(check(JsonValue::Unsigned(u64::MAX), range()).unwrap_err(), "Value is not an integer");
    assert_eq!(check(text("7"), range()).unwrap_err(), "Value is not an integer");
    assert_eq!(check(JsonValue::Bool(false), Validator::Boolean), Ok(()));
    assert_eq!(check(JsonValue::Integer(0), Validator::Boolean).unwrap_err(), "Value is not a boolean");
    assert_eq!(check(text("a@b.c"), Validator::Email), Ok(()));
    assert_eq!(check(text("a.b"), Validator::Email).unwrap_err(), "Invalid email format");
    assert_eq!(check(text("a@b"), Validator::Email).unwrap_err(), "Invalid email format");
    assert_eq!(check(text("https://example.com"), Validator::Url), Ok(()));
    assert_eq!(check(text("http://example.com"), Validator::Url), Ok(()));
    assert_eq!(
        check(text("ftp://example.com"), Validator::Url).unwrap_err(),
        "Invalid URL format (must start with http:// or https://)"
    );
    assert_eq!(check(text("2024-05-01T10:00:00Z"), Validator::DateTime), Ok(()));
    assert_eq!(check(text("2024-05-01T10:00:00+02:00"), Validator::Date), Ok(()));
    assert_eq!(
        check(text("yesterday"), Validator::Date).unwrap_err(),
        format!(
            "Invalid date/datetime format: {}",
            chrono::DateTime::parse_from_rfc3339("yesterday").unwrap_err()
        )
    );
    assert_eq!(
        check(text("yesterday"), Validator::DateTime).unwrap_err(),
        "Invalid date/datetime format: premature end of input"
    );
    assert_eq!(
        check(text("2024-13-01T10:00:00Z"), Validator::Date).unwrap_err(),
        format!(
            "Invalid date/datetime format: {}",
            chrono::DateTime::parse_from_rfc3339("2024-13-01T10:00:00Z").unwrap_err()
        )
    );
    let none = Validator::Enum { allowed_values: vec![] };
    assert_eq!(check(text("x"), none).unwrap_err(), "Value 'x' not in allowed values: []");
    assert_eq!(ContextVariable::new("v", JsonValue::Null, id).validate(), Ok(()));
}

#[test]
fn test_context_creation() {
    let ctx = Context::new();
    assert_eq!(ctx.messages.len(), 0);
    assert_eq!(ctx.variables.len(), 0);
    assert_eq!(ctx.max_messages, 100);
}

#[test]
fn test_context_add_message() {
    let mut ctx = Context::new();
    ctx.add_message(Message::user("Hello"));
    ctx.add_message(Message::assistant("Hi there"));
    assert_eq!(ctx.messages.len(), 2);
    assert_eq!(ctx.messages[0].content, "Hello");
    assert_eq!(ctx.messages[1].content, "Hi there");
}

#[test]
fn test_context_max_messages() {
    let mut ctx = Context::with_max_messages(3);
    for i in 0..5 {
        ctx.add_message(Message::user(&format!("Message {}", i)));
    }
    assert_eq!(ctx.messages.len(), 3);
    assert_eq!(ctx.messages[0].content, "Message 2");
    assert_eq!(ctx.messages[2].content, "Message 4");
}

#[test]
fn test_context_that_keeps_no_message() {
    let mut ctx = Context::with_max_messages(0);
    ctx.add_message(Message::user("Hello"));
    assert!(ctx.messages.is_empty());
    assert!(ctx.last_message().is_none());
}

#[test]
fn test_context_add_variable() {
    let mut ctx = Context::new();
    let msg_id = MessageId::new();
    let var = ContextVariable::new("name", text("Alice"), msg_id);
    ctx.add_variable(var.clone());
    assert_eq!(ctx.variables.len(), 1);
    assert_eq!(ctx.get_variable("name"), Some(&var));
    let newer = ContextVariable::new("name", text("Bob"), msg_id);
    ctx.add_variable(newer.clone());
    assert_eq!(ctx.variables.len(), 1);
    assert_eq!(ctx.get_variable("name"), Some(&newer));
    assert!(ctx.get_variable("age").is_none());
}

#[test]
fn test_context_messages_by_role() {
    let mut ctx = Context::new();
    ctx.add_message(Message::user("User message 1"));
    ctx.add_message(Message::assistant("Assistant message 1"));
    ctx.add_message(Message::user("User message 2"));
    let user_messages = ctx.messages_by_role(MessageRole::User);
    assert_eq!(user_messages.len(), 2);
    assert_eq!(user_messages[0].content, "User message 1");
    assert_eq!(user_messages[1].content, "User message 2");
    let assistant_messages = ctx.messages_by_role(MessageRole::Assistant);
    assert_eq!(assistant_messages.len(), 1);
    assert!(ctx.messages_by_role(MessageRole::Tool).is_empty());
}

#[test]
fn test_context_last_message() {
    let mut ctx = Context::new();
    assert!(ctx.last_message().is_none());
    ctx.add_message(Message::user("First"));
    ctx.add_message(Message::user("Second"));
    assert_eq!(ctx.last_message().unwrap().content, "Second");
}

#[test]
fn test_context_clear() {
    let mut ctx = Context::new();
    ctx.add_message(Message::user("Hello"));
    ctx.add_variable(ContextVariable::new("name", text("Alice"), MessageId::new()));
    ctx.clear();
    assert_eq!(ctx.messages.len(), 0);
    assert_eq!(ctx.variables.len(), 0);
}

#[test]
fn test_messages_to_provider_format() {
    let messages = vec![
        Message::system("You are a helpful assistant"),
        Message::user("Hello"),
        Message::assistant("Hi there!"),
    ];
    let provider_messages = messages_to_provider_format(&messages);
    assert_eq!(provider_messages.len(), 3);
    assert_eq!(provider_messages[0].0, MessageRole::System);
    assert_eq!(provider_messages[0].1, "You are a helpful assistant");
    assert_eq!(provider_messages[1].0, MessageRole::User);
    assert_eq!(provider_messages[1].1, "Hello");
    assert_eq!(provider_messages[2].0, MessageRole::Assistant);
    assert_eq!(provider_messages[2].1, "Hi there!");
}

#[test]
fn test_json_value_reads() {
    assert_eq!(text("a").as_str(), Some("a"));
    assert_eq!(JsonValue::Null.as_str(), None);
    assert_eq!(JsonValue::Integer(-3).as_i64(), Some(-3));
    assert_eq!(JsonValue::Unsigned(9_223_372_036_854_775_807).as_i64(), Some(i64::MAX));
    assert_eq!(JsonValue::Unsigned(9_223_372_036_854_775_808).as_i64(), None);
    assert_eq!(JsonValue::Float { bits: 0 }.as_i64(), None);
    assert_eq!(JsonValue::Bool(true).as_bool(), Some(true));
    assert_eq!(text("true").as_bool(), None);
    let nested = JsonValue::Object(vec![
        ("list".to_string(), JsonValue::Array(vec![JsonValue::Integer(1), text("two")])),
        ("none".to_string(), JsonValue::Null),
    ]);
    assert_eq!(nested.clone(), nested);
}
