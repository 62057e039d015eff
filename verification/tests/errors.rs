use ping_buddy_lib::error::{BotError, TopicValidationError};
use ping_buddy_lib::validation::validate_topic;

#[test]
fn topic_error_texts() {
    assert_eq!(TopicValidationError::Empty.message(), "Topic name is empty");
    assert_eq!(
        TopicValidationError::TooLong { max: 50, actual: 51 }.message(),
        "Topic name is too long (max 50 characters, got 51)"
    );
    assert_eq!(
        TopicValidationError::InvalidCharacters.message(),
        "Topic name contains invalid characters (only alphanumeric and underscore allowed)"
    );
    assert_eq!(
        TopicValidationError::InvalidStart.message(),
        "Topic name must start with a letter"
    );
    assert_eq!(
        TopicValidationError::Reserved("All".to_string()).message(),
        "Topic name is reserved: All"
    );
}

#[test]
fn bot_error_texts() {
    let cases: Vec<(BotError, &str)> = vec![
        (
            BotError::Storage { chat_id: -100, message: "gone".to_string() },
            "Storage error in chat -100: gone",
        ),
        (BotError::Telegram("timeout".to_string()), "Telegram API error: timeout"),
        (
            BotError::InvalidTopic { reason: "bad".to_string() },
            "Invalid topic: bad",
        ),
        (
            BotError::TopicNotFound { topic: "dev".to_string() },
            "Topic 'dev' not found",
        ),
        (BotError::ChatNotFound { chat_id: 5 }, "Chat not found: 5"),
        (BotError::EnvVar("missing".to_string()), "Environment variable error: missing"),
        (BotError::UrlParse("bad".to_string()), "URL parse error: bad"),
        (BotError::Config("oops".to_string()), "Invalid configuration: oops"),
        (BotError::UserNotFound, "User not found"),
        (BotError::MessageNotFound, "Message not found"),
        (BotError::Cancelled, "Operation cancelled"),
        (BotError::AddrParse("x".to_string()), "Address parse error: x"),
        (
            BotError::TopicLimitReached { limit: 100, chat_id: 0 },
            "Topic limit reached: 100 topics in chat 0",
        ),
        (
            BotError::SubscriberLimitReached { limit: 1000, topic: "dev".to_string() },
            "Subscriber limit reached: 1000 subscribers for topic 'dev'",
        ),
        (BotError::Database("locked".to_string()), "Database error: locked"),
    ];
    for (err, text) in cases {
        assert_eq!(err.message(), text);
    }
}

#[test]
fn extreme_chat_ids_in_texts() {
    assert_eq!(
        BotError::ChatNotFound { chat_id: i64::MIN }.message(),
        "Chat not found: -9223372036854775808"
    );
    assert_eq!(
        BotError::ChatNotFound { chat_id: i64::MAX }.message(),
        "Chat not found: 9223372036854775807"
    );
}

#[test]
fn too_long_reports_lengths() {
    let long = "a".repeat(51);
    match validate_topic(&long) {
        Err(e) => assert_eq!(e.message(), "Topic name is too long (max 50 characters, got 51)"),
        Ok(()) => panic!("accepted"),
    }
    assert!(validate_topic(&"a".repeat(50)).is_ok());
}

#[test]
fn length_counts_characters() {
    // Thirty two-byte letters: 30 characters, 60 bytes.
    assert!(validate_topic(&"é".repeat(30)).is_ok());
    assert!(validate_topic(&"é".repeat(50)).is_ok());
    assert!(matches!(
        validate_topic(&"é".repeat(51)),
        Err(TopicValidationError::TooLong { max: 50, actual: 51 })
    ));
}

#[test]
fn reserved_names_ignore_case() {
    match validate_topic("Everyone") {
        Err(TopicValidationError::Reserved(name)) => assert_eq!(name, "Everyone"),
        other => panic!("unexpected {:?}", other),
    }
    assert!(matches!(validate_topic("HERE"), Err(TopicValidationError::Reserved(_))));
    assert!(matches!(validate_topic("channel"), Err(TopicValidationError::Reserved(_))));
    assert!(validate_topic("channels").is_ok());
}

#[test]
fn rule_order() {
    // Reserved is checked before characters and start.
    assert!(matches!(validate_topic("all"), Err(TopicValidationError::Reserved(_))));
    // Characters before start.
    assert!(matches!(validate_topic("1-a"), Err(TopicValidationError::InvalidCharacters)));
    assert!(matches!(validate_topic("_abc"), Err(TopicValidationError::InvalidStart)));
    assert!(matches!(validate_topic("9lives"), Err(TopicValidationError::InvalidStart)));
    assert!(validate_topic("a_1").is_ok());
    assert!(validate_topic("Équipe").is_ok());
}
