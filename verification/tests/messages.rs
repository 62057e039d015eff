use ping_buddy_lib::handler::helper_messages::{
    AskTopic, BotJoinMessage, InvalidRequest, InvalidTopic, InvalidTopicFormat, NoOne, NoOneExcept,
    UserSubscribedTopic, WelcomeNewMemberMessage,
};
use ping_buddy_lib::handler::message::commands::all::answer_all;
use ping_buddy_lib::handler::message::list_users;
use ping_buddy_lib::handler::ui::messages::{MessageResponse, Messages};

fn strings(items: &[&str]) -> Vec<String> {
    items.iter().map(|s| s.to_string()).collect()
}

#[test]
fn bot_join_text() {
    let expected =
        "Hello, I am your *Ping Buddy*\nI'm here to help you ping people\n\n*Please subscribe to default topic*";
    assert_eq!(Messages::bot_join(), expected);
    assert_eq!(BotJoinMessage::msg(), expected);
}

#[test]
fn welcome_and_ask_texts() {
    assert_eq!(
        Messages::welcome_new_member("[bob](tg://user?id=7)"),
        "Hi [bob](tg://user?id=7), welcome to the group!\n*Please subscribe to topic you want*"
    );
    assert_eq!(
        WelcomeNewMemberMessage::msg("ann"),
        "Hi ann, welcome to the group!\n*Please subscribe to topic you want*"
    );
    assert_eq!(
        Messages::ask_topic("ann"),
        "What *topic* do you want to create, ann?\n\n\\(Please *reply* this message\\)"
    );
    assert_eq!(
        AskTopic::msg("ann"),
        "What *topic* do you want to create, ann?\n\n\\(Please *reply* this message\\)"
    );
}

#[test]
fn topic_answer_texts() {
    assert_eq!(Messages::no_one_in_topic("dev"), "There is no one in topic `dev` yet :\\(");
    assert_eq!(NoOne::msg("dev"), "There is no one in topic `dev` yet :\\(");
    assert_eq!(Messages::no_one_except_sender("dev"), "No one but you subscribed topic `dev`");
    assert_eq!(NoOneExcept::msg("dev"), "No one but you subscribed topic `dev`");
    assert_eq!(Messages::invalid_topic_format(), "Invalid topic format, try another one :\\(");
    assert_eq!(InvalidTopicFormat::msg(), "Invalid topic format, try another one :\\(");
    assert_eq!(Messages::invalid_topic("a-b"), "`a-b` is not a valid topic, try another one :\\(");
    assert_eq!(InvalidTopic::msg("a-b"), "`a-b` is not a valid topic, try another one :\\(");
    assert_eq!(Messages::invalid_request(), "This request is no longer valid.");
    assert_eq!(InvalidRequest::msg(), "This request is no longer valid.");
    assert_eq!(Messages::user_subscribed_topic("ann", "dev"), "ann subscribed topic `dev`");
    assert_eq!(UserSubscribedTopic::msg("ann", "dev"), "ann subscribed topic `dev`");
}

#[test]
fn list_users_joins_with_spaces() {
    assert_eq!(Messages::list_users(&strings(&["a", "b", "c"])), "a b c");
    assert_eq!(Messages::list_users(&strings(&["solo"])), "solo");
    assert_eq!(Messages::list_users(&[]), "");
}

#[test]
fn message_response_kinds() {
    let none = MessageResponse::no_one("dev");
    assert!(matches!(none, MessageResponse::NoOne(_)));
    assert_eq!(none.text(), "There is no one in topic `dev` yet :\\(");
    assert!(none.should_remove());

    let only = MessageResponse::no_one_except_sender("dev");
    assert!(matches!(only, MessageResponse::NoOneExceptSender(_)));
    assert_eq!(only.text(), "No one but you subscribed topic `dev`");
    assert!(only.should_remove());

    let users = MessageResponse::users(&strings(&["x", "y"]));
    assert!(matches!(users, MessageResponse::Users(_)));
    assert_eq!(users.text(), "x y");
    assert!(!users.should_remove());
}

#[test]
fn ping_of_unknown_topic() {
    let r = list_users(None, "dev", "me");
    assert!(matches!(r, MessageResponse::NoOne(_)));
    assert_eq!(r.text(), "There is no one in topic `dev` yet :\\(");
}

#[test]
fn ping_of_empty_topic() {
    let r = list_users(Some(Vec::new()), "dev", "me");
    assert!(matches!(r, MessageResponse::NoOne(_)));
}

#[test]
fn ping_by_only_subscriber() {
    let r = list_users(Some(strings(&["me"])), "dev", "me");
    assert!(matches!(r, MessageResponse::NoOneExceptSender(_)));
    assert_eq!(r.text(), "No one but you subscribed topic `dev`");
}

#[test]
fn ping_tags_everyone_but_sender() {
    let r = list_users(Some(strings(&["a", "me", "b"])), "dev", "me");
    assert!(matches!(r, MessageResponse::Users(_)));
    assert_eq!(r.text(), "a b");
    assert!(!r.should_remove());
}

#[test]
fn ping_by_outsider_tags_all() {
    let r = list_users(Some(strings(&["a", "b"])), "dev", "me");
    assert_eq!(r.text(), "a b");
}

#[test]
fn all_command_uses_general_topic() {
    let r = answer_all(None, "me");
    assert_eq!(r.text(), "There is no one in topic `general` yet :\\(");
    let r = answer_all(Some(strings(&["me"])), "me");
    assert_eq!(r.text(), "No one but you subscribed topic `general`");
    let r = answer_all(Some(strings(&["me", "z"])), "me");
    assert_eq!(r.text(), "z");
}
