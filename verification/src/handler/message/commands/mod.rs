//! The static commands: `/list` and `/all`.

pub mod all;
pub mod list;
