//! Error types of the bot, each with the text that describes it.

use vstd::prelude::*;

use crate::text::{
    concat2, concat3, concat4, concat5, decimal, decimal_int, i64_text, usize_text,
};

verus! {

/// Validation errors for topic names.
#[derive(Debug)]
pub enum TopicValidationError {
    /// Topic name is empty
    Empty,
    /// Topic name exceeds maximum length
    TooLong {
        /// Maximum allowed length
        max: usize,
        /// Actual length provided
        actual: usize,
    },
    /// Topic name contains invalid characters
    InvalidCharacters,
    /// Topic name doesn't start with a letter
    InvalidStart,
    /// Topic name is reserved and cannot be used
    Reserved(String),
}

impl TopicValidationError {
    /// The text that describes the error.
    pub open spec fn text(&self) -> Seq<char> {
        match self {
            TopicValidationError::Empty => "Topic name is empty"@,
            TopicValidationError::TooLong { max, actual } => "Topic name is too long (max "@
                + decimal(*max as nat) + " characters, got "@ + decimal(*actual as nat) + ")"@,
            TopicValidationError::InvalidCharacters =>
                "Topic name contains invalid characters (only alphanumeric and underscore allowed)"@,
            TopicValidationError::InvalidStart => "Topic name must start with a letter"@,
            TopicValidationError::Reserved(name) => "Topic name is reserved: "@ + name@,
        }
    }

    /// The text that describes the error.
    pub fn message(&self) -> (r: String)
        ensures
            r@ == self.text(),
    {
        match self {
            TopicValidationError::Empty => "Topic name is empty".to_owned(),
            TopicValidationError::TooLong { max, actual } => {
                let m = usize_text(*max);
                let a = usize_text(*actual);
                concat5(
                    "Topic name is too long (max ",
                    m.as_str(),
                    " characters, got ",
                    a.as_str(),
                    ")",
                )
            },
            TopicValidationError::InvalidCharacters =>
                "Topic name contains invalid characters (only alphanumeric and underscore allowed)".to_owned(),
            TopicValidationError::InvalidStart => "Topic name must start with a letter".to_owned(),
            TopicValidationError::Reserved(name) => concat2(
                "Topic name is reserved: ",
                name.as_str(),
            ),
        }
    }
}

/// Main error type for the bot application.
///
/// Errors that come from outside services (the Telegram API, the
/// environment, URL parsing) are held by the text that describes them.
#[derive(Debug)]
pub enum BotError {
    /// Storage operation failed
    Storage {
        /// Chat ID where the error occurred
        chat_id: i64,
        /// Detailed error message
        message: String,
    },
    /// Telegram API request failed (the request error's text)
    Telegram(String),
    /// Topic name validation failed
    InvalidTopic {
        /// Reason for validation failure
        reason: String,
    },
    /// Requested topic does not exist
    TopicNotFound {
        /// Name of the missing topic
        topic: String,
    },
    /// Chat not found in storage
    ChatNotFound {
        /// ID of the missing chat
        chat_id: i64,
    },
    /// Environment variable error (the variable error's text)
    EnvVar(String),
    /// URL parsing error (the parse error's text)
    UrlParse(String),
    /// Configuration error
    Config(String),
    /// User not found in message
    UserNotFound,
    /// Message not found
    MessageNotFound,
    /// Operation was cancelled
    Cancelled,
    /// Address parsing error
    AddrParse(String),
    /// Maximum topics per chat exceeded
    TopicLimitReached {
        /// Maximum allowed topics
        limit: usize,
        /// Chat ID where limit was reached
        chat_id: i64,
    },
    /// Maximum subscribers per topic exceeded
    SubscriberLimitReached {
        /// Maximum allowed subscribers
        limit: usize,
        /// Topic name where limit was reached
        topic: String,
    },
    /// Database operation error
    Database(String),
}

impl BotError {
    /// The text that describes the error.
    pub open spec fn text(&self) -> Seq<char> {
        match self {
            BotError::Storage { chat_id, message } => "Storage error in chat "@ + decimal_int(
                *chat_id as int,
            ) + ": "@ + message@,
            BotError::Telegram(e) => "Telegram API error: "@ + e@,
            BotError::InvalidTopic { reason } => "Invalid topic: "@ + reason@,
            BotError::TopicNotFound { topic } => "Topic '"@ + topic@ + "' not found"@,
            BotError::ChatNotFound { chat_id } => "Chat not found: "@ + decimal_int(*chat_id as int),
            BotError::EnvVar(e) => "Environment variable error: "@ + e@,
            BotError::UrlParse(e) => "URL parse error: "@ + e@,
            BotError::Config(e) => "Invalid configuration: "@ + e@,
            BotError::UserNotFound => "User not found"@,
            BotError::MessageNotFound => "Message not found"@,
            BotError::Cancelled => "Operation cancelled"@,
            BotError::AddrParse(e) => "Address parse error: "@ + e@,
            BotError::TopicLimitReached { limit, chat_id } => "Topic limit reached: "@ + decimal(
                *limit as nat,
            ) + " topics in chat "@ + decimal_int(*chat_id as int),
            BotError::SubscriberLimitReached { limit, topic } => "Subscriber limit reached: "@
                + decimal(*limit as nat) + " subscribers for topic '"@ + topic@ + "'"@,
            BotError::Database(e) => "Database error: "@ + e@,
        }
    }

    /// The text that describes the error.
    pub fn message(&self) -> (r: String)
        ensures
            r@ == self.text(),
    {
        match self {
            BotError::Storage { chat_id, message } => {
                let c = i64_text(*chat_id);
                concat4("Storage error in chat ", c.as_str(), ": ", message.as_str())
            },
            BotError::Telegram(e) => concat2("Telegram API error: ", e.as_str()),
            BotError::InvalidTopic { reason } => concat2("Invalid topic: ", reason.as_str()),
            BotError::TopicNotFound { topic } => concat3("Topic '", topic.as_str(), "' not found"),
            BotError::ChatNotFound { chat_id } => {
                let c = i64_text(*chat_id);
                concat2("Chat not found: ", c.as_str())
            },
            BotError::EnvVar(e) => concat2("Environment variable error: ", e.as_str()),
            BotError::UrlParse(e) => concat2("URL parse error: ", e.as_str()),
            BotError::Config(e) => concat2("Invalid configuration: ", e.as_str()),
            BotError::UserNotFound => "User not found".to_owned(),
            BotError::MessageNotFound => "Message not found".to_owned(),
            BotError::Cancelled => "Operation cancelled".to_owned(),
            BotError::AddrParse(e) => concat2("Address parse error: ", e.as_str()),
            BotError::TopicLimitReached { limit, chat_id } => {
                let l = usize_text(*limit);
                let c = i64_text(*chat_id);
                concat4("Topic limit reached: ", l.as_str(), " topics in chat ", c.as_str())
            },
            BotError::SubscriberLimitReached { limit, topic } => {
                let l = usize_text(*limit);
                concat5(
                    "Subscriber limit reached: ",
                    l.as_str(),
                    " subscribers for topic '",
                    topic.as_str(),
                    "'",
                )
            },
            BotError::Database(e) => concat2("Database error: ", e.as_str()),
        }
    }
}

} // verus!
