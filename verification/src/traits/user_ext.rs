//! Users and their clickable references.

use vstd::prelude::*;

use crate::text::{concat3, decimal, push_decimal};

verus! {

/// What the bot reads of a Telegram user.
#[derive(Debug, Clone)]
pub struct UserInfo {
    /// The user's numeric id
    pub id: u64,
    /// Whether the user is a bot
    pub is_bot: bool,
    /// The user's first name
    pub first_name: String,
    /// The user's username, if any
    pub username: Option<String>,
}

/// The name shown in a reference to `user`: the username when there is
/// one, else the first name.
pub open spec fn display_name(user: UserInfo) -> Seq<char> {
    match user.username {
        Some(name) => name@,
        None => user.first_name@,
    }
}

/// The markdown link that mentions `user`.
pub open spec fn user_ref_text(user: UserInfo) -> Seq<char> {
    "["@ + display_name(user) + "](tg://user?id="@ + decimal(user.id as nat) + ")"@
}

/// Create a Telegram user reference (clickable mention)
pub trait UserRefExt {
    /// Generate a markdown-formatted user reference link
    fn user_ref(&self) -> String;
}

impl UserRefExt for UserInfo {
    /// `[name](tg://user?id=ID)`, with the username as name when there is
    /// one, else the first name.
    fn user_ref(&self) -> (r: String)
        ensures
            r@ == user_ref_text(*self),
    {
        let name = match &self.username {
            Some(n) => n.as_str(),
            None => self.first_name.as_str(),
        };
        let mut s = concat3("[", name, "](tg://user?id=");
        push_decimal(&mut s, self.id);
        s.append(")");
        s
    }
}

} // verus!
