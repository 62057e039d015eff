//! Bot command definitions.

use vstd::prelude::*;

verus! {

/// The static commands that the bot answers.
#[derive(Clone, Copy, Debug, PartialEq, Eq, Structural)]
pub enum Command {
    /// List topics
    List,
    /// Tag everyone
    All,
}

} // verus!
