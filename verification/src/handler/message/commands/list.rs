//! `/list`: all topics, with the sender's subscriptions marked.

use vstd::prelude::*;

use crate::handler::{build_footer, is_footer, is_topic_keyboard, pair_views, topic_buttons, Button};
use crate::text::{str_eq, views};

verus! {

/// Each topic of `all` with whether `subscriptions` holds it.
pub open spec fn marks(all: Seq<String>, subscriptions: Seq<String>) -> Seq<(Seq<char>, bool)> {
    Seq::new(all.len(), |i: int| (all[i]@, views(subscriptions).contains(all[i]@)))
}

/// Each topic of `all`, marked with whether `subscriptions` holds it.
pub fn mark_subscriptions(all: &[String], subscriptions: &[String]) -> (r: Vec<(String, bool)>)
    ensures
        r@.len() == all@.len(),
        forall|i: int|
            0 <= i < all@.len() ==> (#[trigger] r@[i]).0@ == all@[i]@ && r@[i].1 == views(
                subscriptions@,
            ).contains(all@[i]@),
{
    let mut out: Vec<(String, bool)> = Vec::new();
    let mut i: usize = 0;
    while i < all.len()
        invariant
            i <= all@.len(),
            out@.len() == i,
            forall|j: int|
                0 <= j < i ==> (#[trigger] out@[j]).0@ == all@[j]@ && out@[j].1 == views(
                    subscriptions@,
                ).contains(all@[j]@),
        decreases all@.len() - i,
    {
        let mut found = false;
        let mut k: usize = 0;
        while k < subscriptions.len()
            invariant
                i < all@.len(),
                k <= subscriptions@.len(),
                found == exists|m: int| 0 <= m < k && subscriptions@[m]@ == all@[i as int]@,
            decreases subscriptions@.len() - k,
        {
            if str_eq(subscriptions[k].as_str(), all[i].as_str()) {
                found = true;
            }
            k = k + 1;
        }
        assert(found == views(subscriptions@).contains(all@[i as int]@)) by {
            if found {
                let m = choose|m: int| 0 <= m < subscriptions@.len() && subscriptions@[m]@ == all@[i as int]@;
                assert(views(subscriptions@)[m] == all@[i as int]@);
            }
            if views(subscriptions@).contains(all@[i as int]@) {
                let m = choose|m: int| 0 <= m < views(subscriptions@).len() && views(subscriptions@)[m] == all@[i as int]@;
                assert(subscriptions@[m]@ == all@[i as int]@);
            }
        }
        out.push((all[i].clone(), found));
        i = i + 1;
    }
    out
}

/// The answer to `/list`: a text with a keyboard.
#[derive(Debug)]
pub struct ListReply {
    /// The message text
    pub text: String,
    /// The inline keyboard
    pub keyboard: Vec<Vec<Button>>,
}

/// Whether `/list` has topics to show: the chat is known and has at least
/// one topic.
pub fn has_topics(all_topics: &Option<Vec<String>>) -> (r: bool)
    ensures
        r == (all_topics matches Some(v) && v@.len() > 0),
{
    match all_topics {
        Some(v) => v.len() > 0,
        None => false,
    }
}

/// The answer to `/list` in a chat without topics: an invitation to
/// create one, with only the footer button.
pub fn no_topics_reply() -> (r: ListReply)
    ensures
        r.text@ == "No topics available yet\\. Create one\\!"@,
        r.keyboard@.len() == 1,
        is_footer(r.keyboard@[0]@),
{
    let mut keyboard: Vec<Vec<Button>> = Vec::new();
    keyboard.push(build_footer());
    ListReply { text: "No topics available yet\\. Create one\\!".to_owned(), keyboard }
}

/// The answer to `/list` in a chat with topics `all`, for a sender
/// subscribed to `subscriptions`: the personalized keyboard of all topics.
pub fn topics_reply(all: &[String], subscriptions: &[String]) -> (r: ListReply)
    ensures
        r.text@ == "Your subscriptions"@,
        is_topic_keyboard(r.keyboard@, marks(all@, subscriptions@), true),
{
    let marked = mark_subscriptions(all, subscriptions);
    let keyboard = topic_buttons(marked.as_slice(), true);
    assert(pair_views(marked@) =~= marks(all@, subscriptions@));
    ListReply { text: "Your subscriptions".to_owned(), keyboard }
}

} // verus!
