//! User-facing message templates.

use vstd::prelude::*;

use crate::text::{concat2, concat3, join_spaced, join_with_spaces, views};

verus! {

/// Collection of message templates used throughout the bot
pub struct Messages;

impl Messages {
    /// Message sent when the bot joins a group
    pub fn bot_join() -> (r: String)
        ensures
            r@ == "Hello, I am your *Ping Buddy*\nI'm here to help you ping people\n\n*Please subscribe to default topic*"@,
    {
        "Hello, I am your *Ping Buddy*\nI'm here to help you ping people\n\n*Please subscribe to default topic*".to_owned()
    }

    /// Message sent to welcome new members to the group
    pub fn welcome_new_member(member: &str) -> (r: String)
        ensures
            r@ == "Hi "@ + member@ + ", welcome to the group!\n*Please subscribe to topic you want*"@,
    {
        concat3("Hi ", member, ", welcome to the group!\n*Please subscribe to topic you want*")
    }

    /// Message prompting user to provide a topic name
    pub fn ask_topic(user: &str) -> (r: String)
        ensures
            r@ == "What *topic* do you want to create, "@ + user@
                + "?\n\n\\(Please *reply* this message\\)"@,
    {
        concat3("What *topic* do you want to create, ", user, "?\n\n\\(Please *reply* this message\\)")
    }

    /// Message when no one is subscribed to a topic
    pub fn no_one_in_topic(topic: &str) -> (r: String)
        ensures
            r@ == "There is no one in topic `"@ + topic@ + "` yet :\\("@,
    {
        concat3("There is no one in topic `", topic, "` yet :\\(")
    }

    /// Message when only the sender is subscribed to a topic
    pub fn no_one_except_sender(topic: &str) -> (r: String)
        ensures
            r@ == "No one but you subscribed topic `"@ + topic@ + "`"@,
    {
        concat3("No one but you subscribed topic `", topic, "`")
    }

    /// Message listing users subscribed to a topic: their references
    /// separated by single spaces
    pub fn list_users(users: &[String]) -> (r: String)
        ensures
            r@ == join_spaced(views(users@)),
    {
        join_with_spaces(users)
    }

    /// Message for invalid topic format errors
    pub fn invalid_topic_format() -> (r: String)
        ensures
            r@ == "Invalid topic format, try another one :\\("@,
    {
        "Invalid topic format, try another one :\\(".to_owned()
    }

    /// Message for invalid topic name errors
    pub fn invalid_topic(reason: &str) -> (r: String)
        ensures
            r@ == "`"@ + reason@ + "` is not a valid topic, try another one :\\("@,
    {
        concat3("`", reason, "` is not a valid topic, try another one :\\(")
    }

    /// Message for invalid or expired requests
    pub fn invalid_request() -> (r: String)
        ensures
            r@ == "This request is no longer valid."@,
    {
        "This request is no longer valid.".to_owned()
    }

    /// Message confirming user subscription to a topic
    pub fn user_subscribed_topic(user: &str, topic: &str) -> (r: String)
        ensures
            r@ == user@ + " subscribed topic `"@ + topic@ + "`"@,
    {
        let head = concat2(user, " subscribed topic `");
        concat3(head.as_str(), topic, "`")
    }
}

/// Return type for topic ping responses
#[derive(Debug)]
pub enum MessageResponse {
    /// No one subscribed to the topic
    NoOne(String),
    /// Only the sender is subscribed
    NoOneExceptSender(String),
    /// List of subscribed users
    Users(String),
}

impl MessageResponse {
    /// The text that the response carries.
    pub open spec fn spec_text(&self) -> Seq<char> {
        match self {
            MessageResponse::NoOne(t) => t@,
            MessageResponse::NoOneExceptSender(t) => t@,
            MessageResponse::Users(t) => t@,
        }
    }

    /// Get the message text
    pub fn text(&self) -> (r: &str)
        ensures
            r@ == self.spec_text(),
    {
        match self {
            MessageResponse::NoOne(text) => text.as_str(),
            MessageResponse::NoOneExceptSender(text) => text.as_str(),
            MessageResponse::Users(text) => text.as_str(),
        }
    }

    /// Check if this message should be auto-deleted: only the answers that
    /// tag no one are
    pub fn should_remove(&self) -> (r: bool)
        ensures
            r == !(self is Users),
    {
        match self {
            MessageResponse::NoOne(_) => true,
            MessageResponse::NoOneExceptSender(_) => true,
            MessageResponse::Users(_) => false,
        }
    }

    /// Create a "no one subscribed" response
    pub fn no_one(topic: &str) -> (r: Self)
        ensures
            r is NoOne,
            r.spec_text() == "There is no one in topic `"@ + topic@ + "` yet :\\("@,
    {
        MessageResponse::NoOne(Messages::no_one_in_topic(topic))
    }

    /// Create a "only sender subscribed" response
    pub fn no_one_except_sender(topic: &str) -> (r: Self)
        ensures
            r is NoOneExceptSender,
            r.spec_text() == "No one but you subscribed topic `"@ + topic@ + "`"@,
    {
        MessageResponse::NoOneExceptSender(Messages::no_one_except_sender(topic))
    }

    /// Create a user list response
    pub fn users(users: &[String]) -> (r: Self)
        ensures
            r is Users,
            r.spec_text() == join_spaced(views(users@)),
    {
        MessageResponse::Users(Messages::list_users(users))
    }
}

} // verus!
