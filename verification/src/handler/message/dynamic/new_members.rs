//! New chat members: the bot itself, other bots, and people.

use vstd::prelude::*;

use crate::constants::{BOT_USERNAME, GENERAL_TOPIC};
use crate::text::str_eq;

verus! {

/// Who joined a chat.
#[derive(Debug, Clone, Copy, PartialEq, Eq, Structural)]
pub enum MemberKind {
    /// This bot: it sets up the general topic and greets the chat
    ThisBot,
    /// Another bot: ignored
    OtherBot,
    /// A person: greeted with the chat's topics
    Person,
}

/// The kind of a new member from whether it is a bot and its username.
pub fn member_kind(is_bot: bool, username: Option<&str>) -> (r: MemberKind)
    ensures
        r == (if !is_bot {
            MemberKind::Person
        } else if username is Some && username->0@ == BOT_USERNAME@ {
            MemberKind::ThisBot
        } else {
            MemberKind::OtherBot
        }),
{
    if !is_bot {
        MemberKind::Person
    } else {
        match username {
            Some(u) => if str_eq(u, BOT_USERNAME) {
                MemberKind::ThisBot
            } else {
                MemberKind::OtherBot
            },
            None => MemberKind::OtherBot,
        }
    }
}

/// The general topic, unsubscribed: what the bot's greeting offers.
pub fn general_only() -> (r: Vec<(String, bool)>)
    ensures
        r@.len() == 1,
        r@[0].0@ == GENERAL_TOPIC@,
        !r@[0].1,
{
    let mut v: Vec<(String, bool)> = Vec::new();
    v.push((GENERAL_TOPIC.to_owned(), false));
    v
}

/// The topics offered to a new person: the chat's topics (all
/// unsubscribed), or the general topic when the chat has none recorded.
pub fn welcome_topics(topics: Option<Vec<String>>) -> (r: Vec<(String, bool)>)
    ensures
        match topics {
            Some(ts) => r@.len() == ts@.len() && forall|i: int|
                0 <= i < ts@.len() ==> (#[trigger] r@[i]).0@ == ts@[i]@ && !r@[i].1,
            None => r@.len() == 1 && r@[0].0@ == GENERAL_TOPIC@ && !r@[0].1,
        },
{
    match topics {
        Some(ts) => {
            let mut out: Vec<(String, bool)> = Vec::new();
            let mut i: usize = 0;
            while i < ts.len()
                invariant
                    i <= ts@.len(),
                    out@.len() == i,
                    forall|j: int| 0 <= j < i ==> (#[trigger] out@[j]).0@ == ts@[j]@ && !out@[j].1,
                decreases ts@.len() - i,
            {
                out.push((ts[i].clone(), false));
                i = i + 1;
            }
            out
        },
        None => general_only(),
    }
}

} // verus!
