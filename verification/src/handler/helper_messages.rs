//! Message templates, one type per message.

use vstd::prelude::*;

use crate::text::{concat2, concat3};

verus! {

/// Greeting sent when the bot joins a group
pub struct BotJoinMessage;

impl BotJoinMessage {
    /// The message text
    pub fn msg() -> (r: String)
        ensures
            r@ == "Hello, I am your *Ping Buddy*\nI'm here to help you ping people\n\n*Please subscribe to default topic*"@,
    {
        "Hello, I am your *Ping Buddy*\nI'm here to help you ping people\n\n*Please subscribe to default topic*".to_owned()
    }
}

/// Greeting sent to a new member
pub struct WelcomeNewMemberMessage;

impl WelcomeNewMemberMessage {
    /// The message text for the member `mem`
    pub fn msg(mem: &str) -> (r: String)
        ensures
            r@ == "Hi "@ + mem@ + ", welcome to the group!\n*Please subscribe to topic you want*"@,
    {
        concat3("Hi ", mem, ", welcome to the group!\n*Please subscribe to topic you want*")
    }
}

/// Prompt for the name of a new topic
pub struct AskTopic;

impl AskTopic {
    /// The message text for `user`
    pub fn msg(user: &str) -> (r: String)
        ensures
            r@ == "What *topic* do you want to create, "@ + user@
                + "?\n\n\\(Please *reply* this message\\)"@,
    {
        concat3("What *topic* do you want to create, ", user, "?\n\n\\(Please *reply* this message\\)")
    }
}

/// Answer to a ping of a topic that has no subscribers
pub struct NoOne;

impl NoOne {
    /// The message text for `topic`
    pub fn msg(topic: &str) -> (r: String)
        ensures
            r@ == "There is no one in topic `"@ + topic@ + "` yet :\\("@,
    {
        concat3("There is no one in topic `", topic, "` yet :\\(")
    }
}

/// Answer to a ping of a topic whose only subscriber is the sender
pub struct NoOneExcept;

impl NoOneExcept {
    /// The message text for `topic`
    pub fn msg(topic: &str) -> (r: String)
        ensures
            r@ == "No one but you subscribed topic `"@ + topic@ + "`"@,
    {
        concat3("No one but you subscribed topic `", topic, "`")
    }
}

/// Answer to a reply that holds no text
pub struct InvalidTopicFormat;

impl InvalidTopicFormat {
    /// The message text
    pub fn msg() -> (r: String)
        ensures
            r@ == "Invalid topic format, try another one :\\("@,
    {
        "Invalid topic format, try another one :\\(".to_owned()
    }
}

/// Answer to a reply whose text is not a valid topic name
pub struct InvalidTopic;

impl InvalidTopic {
    /// The message text for `topic`
    pub fn msg(topic: &str) -> (r: String)
        ensures
            r@ == "`"@ + topic@ + "` is not a valid topic, try another one :\\("@,
    {
        concat3("`", topic, "` is not a valid topic, try another one :\\(")
    }
}

/// Answer to a reply to a message that no longer waits for a topic
pub struct InvalidRequest;

impl InvalidRequest {
    /// The message text
    pub fn msg() -> (r: String)
        ensures
            r@ == "This request is no longer valid."@,
    {
        "This request is no longer valid.".to_owned()
    }
}

/// Confirmation of a subscription
pub struct UserSubscribedTopic;

impl UserSubscribedTopic {
    /// The message text for `user` and `topic`
    pub fn msg(user: &str, topic: &str) -> (r: String)
        ensures
            r@ == user@ + " subscribed topic `"@ + topic@ + "`"@,
    {
        let head = concat2(user, " subscribed topic `");
        concat3(head.as_str(), topic, "`")
    }
}

} // verus!
