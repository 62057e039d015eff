//! What the bot reads from Telegram's messages and users, as plain values,
//! and the extension traits over them.

pub mod message_ext;
pub mod user_ext;
