//! Message handling: answers to topic pings, and the routing of messages.

pub mod commands;
pub mod dynamic;

use vstd::prelude::*;

use crate::handler::ui::messages::MessageResponse;
use crate::text::{
    join_spaced, law_join_keeps_every_word, lemma_total_len_take, str_eq, total_len, views,
    word_start,
};

verus! {

/// `users` without `user`, in order.
pub open spec fn without(users: Seq<Seq<char>>, user: Seq<char>) -> Seq<Seq<char>>
    decreases users.len(),
{
    if users.len() == 0 {
        Seq::empty()
    } else if users.last() == user {
        without(users.drop_last(), user)
    } else {
        without(users.drop_last(), user).push(users.last())
    }
}

/// The answer to a ping of `topic` by `user`, given the topic's
/// subscribers (`None` when the topic is unknown).
pub open spec fn ping_answer(
    subscribers: Option<Seq<Seq<char>>>,
    topic: Seq<char>,
    user: Seq<char>,
    r: MessageResponse,
) -> bool {
    match subscribers {
        Some(users) if users.len() > 0 => if without(users, user).len() == 0 {
            r is NoOneExceptSender && r.spec_text() == "No one but you subscribed topic `"@ + topic
                + "`"@
        } else {
            r is Users && r.spec_text() == join_spaced(without(users, user))
        },
        _ => r is NoOne && r.spec_text() == "There is no one in topic `"@ + topic + "` yet :\\("@,
    }
}

/// List all users subscribed to a topic, excluding the requesting user.
///
/// `subscribers` is what the storage holds for the topic (`None` when it
/// does not know the topic); the answer says that no one is subscribed,
/// that only the sender is, or tags the others.
pub fn list_users(subscribers: Option<Vec<String>>, topic: &str, user: &str) -> (r: MessageResponse)
    ensures
        ping_answer(
            match subscribers {
                Some(v) => Some(views(v@)),
                None => None,
            },
            topic@,
            user@,
            r,
        ),
{
    match subscribers {
        Some(users) => {
            if users.len() == 0 {
                MessageResponse::no_one(topic)
            } else {
                let ghost all = views(users@);
                let mut others: Vec<String> = Vec::new();
                let mut i: usize = 0;
                while i < users.len()
                    invariant
                        all == views(users@),
                        i <= users@.len(),
                        views(others@) == without(all.take(i as int), user@),
                    decreases users@.len() - i,
                {
                    assert(all.take(i + 1).drop_last() =~= all.take(i as int));
                    if !str_eq(users[i].as_str(), user) {
                        others.push(users[i].clone());
                        assert(views(others@) =~= without(all.take(i + 1), user@));
                    }
                    i = i + 1;
                }
                assert(all.take(users@.len() as int) =~= all);
                if others.len() == 0 {
                    MessageResponse::no_one_except_sender(topic)
                } else {
                    MessageResponse::users(others.as_slice())
                }
            }
        },
        None => MessageResponse::no_one(topic),
    }
}

/// A ping never tags its sender, and tags every other subscriber (the same
/// filter keeps the store's placeholder out of reported subscribers).
pub proof fn law_ping_excludes_sender(users: Seq<Seq<char>>, user: Seq<char>)
    ensures
        !without(users, user).contains(user),
        forall|v: Seq<char>| #[trigger] without(users, user).contains(v) <==> (users.contains(v)
            && v != user),
    decreases users.len(),
{
    if users.len() > 0 {
        let d = users.drop_last();
        law_ping_excludes_sender(d, user);
        let w = without(d, user);
        assert forall|v: Seq<char>| #[trigger] without(users, user).contains(v) <==> (users.contains(v)
            && v != user) by {
            if users.contains(v) && v != user {
                let k = choose|k: int| 0 <= k < users.len() && users[k] == v;
                if k < users.len() - 1 {
                    assert(d[k] == v);
                    assert(w.contains(v));
                    let j = choose|j: int| 0 <= j < w.len() && w[j] == v;
                    if users.last() != user {
                        assert(without(users, user)[j] == v);
                    }
                } else {
                    assert(without(users, user)[w.len() as int] == v);
                }
            }
            if without(users, user).contains(v) {
                let j = choose|j: int| 0 <= j < without(users, user).len() && without(users, user)[j] == v;
                if users.last() != user && j == w.len() {
                    assert(users[users.len() - 1] == v);
                } else {
                    assert(w[j] == v);
                    assert(w.contains(v));
                    let k = choose|k: int| 0 <= k < d.len() && d[k] == v;
                    assert(users[k] == v);
                }
            }
        }
    }
}

/// When a topic has a subscriber other than the sender, a ping tags users,
/// and every subscriber but the sender stands in the answer's text as a
/// word of its own (preceded and followed by a space or an end of the
/// text).
pub proof fn law_ping_tags_every_other_subscriber(
    users: Seq<Seq<char>>,
    topic: Seq<char>,
    user: Seq<char>,
    r: MessageResponse,
    v: Seq<char>,
)
    requires
        ping_answer(Some(users), topic, user, r),
        users.contains(v),
        v != user,
    ensures
        r is Users,
        exists|k: int|
            0 <= k && k + v.len() <= r.spec_text().len() && #[trigger] r.spec_text().subrange(
                k,
                k + v.len(),
            ) == v && (k == 0 || r.spec_text()[k - 1] == ' ') && (k + v.len()
                == r.spec_text().len() || r.spec_text()[k + v.len()] == ' '),
{
    let w = without(users, user);
    law_ping_excludes_sender(users, user);
    assert(w.contains(v));
    let i = choose|i: int| 0 <= i < w.len() && w[i] == v;
    assert(r is Users);
    let text = r.spec_text();
    assert(text == join_spaced(w));
    law_join_keeps_every_word(w);
    let n = w.len();
    let k = word_start(w, i);
    lemma_total_len_take(w, i);
    lemma_total_len_take(w, i + 1);
    assert(text.subrange(k, k + w[i].len()) == w[i]);
    if i > 0 {
        lemma_total_len_take(w, i - 1);
        assert(word_start(w, i - 1) + w[i - 1].len() == k - 1);
        assert(text[word_start(w, i - 1) + w[i - 1].len()] == ' ');
    }
    if i == n - 1 {
        assert(w.take(n as int) =~= w);
        assert(k + v.len() == text.len());
    } else {
        assert(text[word_start(w, i) + w[i].len()] == ' ');
    }
    assert(k + v.len() <= text.len());
}

} // verus!
