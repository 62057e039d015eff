//! Topic pings and topic creation replies.

use vstd::prelude::*;

use crate::error::BotError;
use crate::handler::ui::messages::Messages;
use crate::text::concat2;
use crate::validation::{topic_rule, validate_topic, TopicRule};

verus! {

/// What to do with a reply to one of the bot's messages.
#[derive(Debug)]
pub enum CreationStep {
    /// Answer with this text and stop
    Reply(String),
    /// Stop without answering
    Ignore,
    /// Create the topic and subscribe the user to it
    Create {
        /// The new topic's name
        topic: String,
        /// The reference of the user who named it
        user: String,
    },
}

/// `r` answers with `text`.
pub open spec fn replies(r: CreationStep, text: Seq<char>) -> bool {
    r matches CreationStep::Reply(m) && m@ == text
}

/// `r` creates `topic` for `user`.
pub open spec fn creates(r: CreationStep, topic: Seq<char>, user: Seq<char>) -> bool {
    r matches CreationStep::Create { topic: t, user: u } && t@ == topic && u@ == user
}

/// The step for a reply to message that the bot asked a topic name with
/// (`pending`), whose text is `text`, from the user referenced by `user`:
/// an expired request, a reply without text and an invalid name are
/// answered; a reply without sender is ignored; otherwise the topic is
/// created.
pub fn creation_step(pending: bool, text: Option<&str>, user: Option<&str>) -> (r: CreationStep)
    ensures
        match text {
            _ if !pending => replies(r, "This request is no longer valid."@),
            None => replies(r, "Invalid topic format, try another one :\\("@),
            Some(t) => if topic_rule(t@) != TopicRule::Valid {
                replies(r, "`"@ + t@ + "` is not a valid topic, try another one :\\("@)
            } else {
                match user {
                    None => r is Ignore,
                    Some(u) => creates(r, t@, u@),
                }
            },
        },
{
    if !pending {
        return CreationStep::Reply(Messages::invalid_request());
    }
    match text {
        None => CreationStep::Reply(Messages::invalid_topic_format()),
        Some(topic) => {
            match validate_topic(topic) {
                Err(_) => CreationStep::Reply(Messages::invalid_topic(topic)),
                Ok(()) => match user {
                    None => CreationStep::Ignore,
                    Some(u) => CreationStep::Create { topic: topic.to_owned(), user: u.to_owned() },
                },
            }
        },
    }
}

/// The answer when creating a topic failed with `err`.
pub fn creation_failed_text(err: &BotError) -> (r: String)
    ensures
        r@ == "Failed to create topic: "@ + err.text(),
{
    let m = err.message();
    concat2("Failed to create topic: ", m.as_str())
}

/// What follows an attempt to create a topic.
#[derive(Debug)]
pub struct CreationReply {
    /// The message sent to the chat
    pub message: String,
    /// Whether the request is closed: its message is no longer awaited and
    /// is deleted
    pub close_request: bool,
}

/// What follows the attempt to create `topic` for `user`, written with
/// outcome `written`: on failure the error is reported and the request
/// stays open; on success the request is closed and the subscription
/// announced.
pub fn creation_reply(user: &str, topic: &str, written: &Result<(), BotError>) -> (r: CreationReply)
    ensures
        match written {
            Err(e) => r.message@ == "Failed to create topic: "@ + e.text() && !r.close_request,
            Ok(_) => r.message@ == user@ + " subscribed topic `"@ + topic@ + "`"@ && r.close_request,
        },
{
    match written {
        Err(e) => CreationReply { message: creation_failed_text(e), close_request: false },
        Ok(_) => CreationReply {
            message: Messages::user_subscribed_topic(user, topic),
            close_request: true,
        },
    }
}

} // verus!
