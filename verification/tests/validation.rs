use ping_buddy_lib::error::TopicValidationError;
use ping_buddy_lib::validation::validate_topic;

#[test]
fn test_valid_topics() {
    assert!(validate_topic("general").is_ok());
    assert!(validate_topic("dev_team").is_ok());
    assert!(validate_topic("project123").is_ok());
    assert!(validate_topic("a").is_ok());
}

#[test]
fn test_invalid_topics() {
    // Empty
    assert!(matches!(validate_topic(""), Err(TopicValidationError::Empty)));

    // Invalid start
    assert!(matches!(
        validate_topic("123topic"),
        Err(TopicValidationError::InvalidStart)
    ));

    // Invalid characters
    assert!(matches!(
        validate_topic("topic-name"),
        Err(TopicValidationError::InvalidCharacters)
    ));
    assert!(matches!(
        validate_topic("topic name"),
        Err(TopicValidationError::InvalidCharacters)
    ));

    // Reserved
    assert!(matches!(
        validate_topic("all"),
        Err(TopicValidationError::Reserved(_))
    ));

    // Too long
    assert!(matches!(
        validate_topic(&"a".repeat(51)),
        Err(TopicValidationError::TooLong { .. })
    ));
}
