//! Messages that are not commands: topic pings, replies that name a new
//! topic, and new members.

pub mod common;
pub mod new_members;
