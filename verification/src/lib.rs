//! Ping Buddy: topic-based subscriptions and user tagging for group chats.
//!
//! The library holds the bot's logic as verified code: topic-name
//! validation, message texts, keyboard layout, the decisions of the
//! update handlers, the in-memory subscription stores and the rules that
//! the persistent store applies around its queries.

pub mod command;
pub mod constants;
pub mod env;
pub mod error;
pub mod text;
pub mod validation;
pub mod handler;
pub mod storage;
pub mod traits;
