//! UI components: message templates.

pub mod messages;
