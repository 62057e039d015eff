//! `/all`: ping everyone in the general topic.

use vstd::prelude::*;

use crate::constants::GENERAL_TOPIC;
use crate::handler::message::{list_users, ping_answer};
use crate::handler::ui::messages::MessageResponse;
use crate::text::views;

verus! {

/// The answer to `/all` from `user`, given the general topic's subscribers.
pub fn answer_all(subscribers: Option<Vec<String>>, user: &str) -> (r: MessageResponse)
    ensures
        ping_answer(
            match subscribers {
                Some(v) => Some(views(v@)),
                None => None,
            },
            GENERAL_TOPIC@,
            user@,
            r,
        ),
{
    list_users(subscribers, GENERAL_TOPIC, user)
}

} // verus!
