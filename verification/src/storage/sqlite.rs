//! The rules that the persistent (SQLite) store applies around its
//! queries: its limits, the general topic's placeholder row, and how query
//! results are turned into answers.
//!
//! The store keeps one row per (chat, topic, user) subscription. The
//! general topic is kept alive by a row whose user is `SYSTEM_SENTINEL`;
//! that row is never reported as a subscriber.

use vstd::prelude::*;

use crate::constants::{
    GENERAL_TOPIC, MAX_SUBSCRIBERS_PER_TOPIC, MAX_TOPICS_PER_CHAT, SYSTEM_SENTINEL,
};
use crate::error::BotError;
use crate::handler::message::without;
use crate::storage::cache::{
    lemma_add_membership, lemma_remove_membership, model_add, model_remove, subscribed_in,
    subscription_triples, topics_remove, CacheModel,
};
use crate::storage::chat_storage::str_views;
use crate::storage::StorageStats;
use crate::text::{str_eq, views};

verus! {

/// Refuses a new topic in a chat at its topic limit: `count` is the number
/// of distinct topics of chat `chat_id`, `topic_exists` whether the topic is one
/// of them.
pub fn check_topic_limit(chat_id: i64, count: i64, topic_exists: bool) -> (r: Result<(), BotError>)
    ensures
        r is Ok <==> (topic_exists || count < MAX_TOPICS_PER_CHAT),
        r is Err ==> (r matches Err(BotError::TopicLimitReached { limit, chat_id: c })
            && limit == MAX_TOPICS_PER_CHAT && c == chat_id),
{
    let limit: i64 = MAX_TOPICS_PER_CHAT as i64;
    assert(limit == MAX_TOPICS_PER_CHAT);
    if !topic_exists && count >= limit {
        return Err(BotError::TopicLimitReached { limit: MAX_TOPICS_PER_CHAT, chat_id });
    }
    Ok(())
}

/// Refuses subscribing `new_users_count` users to `topic` when, with the
/// `count` subscribers it has (the placeholder not counted), it would pass
/// the subscriber limit. A negative count, read as the huge unsigned number
/// it stands for, passes the limit too.
pub fn check_subscriber_limit(topic: &str, count: i64, new_users_count: usize) -> (r: Result<
    (),
    BotError,
>)
    ensures
        r is Ok <==> (count >= 0 && count + new_users_count <= MAX_SUBSCRIBERS_PER_TOPIC),
        r is Err ==> (r matches Err(BotError::SubscriberLimitReached { limit, topic: t })
            && limit == MAX_SUBSCRIBERS_PER_TOPIC && t@ == topic@),
{
    if count < 0 || count as u128 + new_users_count as u128 > MAX_SUBSCRIBERS_PER_TOPIC as u128 {
        return Err(
            BotError::SubscriberLimitReached {
                limit: MAX_SUBSCRIBERS_PER_TOPIC,
                topic: topic.to_owned(),
            },
        );
    }
    Ok(())
}

/// The user ids to insert for a subscription of `users` to `topic`: the
/// placeholder alone when the general topic is set up without
/// subscribers, else the users.
pub fn subscription_rows(topic: &str, users: &[&str]) -> (r: Vec<String>)
    ensures
        (topic@ == GENERAL_TOPIC@ && users@.len() == 0) ==> (r@.len() == 1 && r@[0]@
            == SYSTEM_SENTINEL@),
        !(topic@ == GENERAL_TOPIC@ && users@.len() == 0) ==> views(r@) == str_views(users@),
{
    let mut rows: Vec<String> = Vec::new();
    if str_eq(topic, GENERAL_TOPIC) && users.len() == 0 {
        rows.push(SYSTEM_SENTINEL.to_owned());
        return rows;
    }
    let mut i: usize = 0;
    while i < users.len()
        invariant
            i <= users@.len(),
            rows@.len() == i,
            views(rows@) == str_views(users@).take(i as int),
        decreases users@.len() - i,
    {
        let ghost prev = rows@;
        rows.push(users[i].to_owned());
        assert(rows@ == prev.push(rows@[i as int]));
        assert(views(rows@) =~= views(prev).push(users@[i as int]@));
        assert(str_views(users@).take(i + 1) =~= str_views(users@).take(i as int).push(users@[i as int]@));
        i = i + 1;
    }
    assert(str_views(users@).take(users@.len() as int) =~= str_views(users@));
    rows
}

/// A topic's subscribers as reported: the placeholder left out, and
/// nothing when no one is left.
pub fn reported_subscribers(users: Option<Vec<String>>) -> (r: Option<Vec<String>>)
    ensures
        match users {
            Some(v) if without(views(v@), SYSTEM_SENTINEL@).len() > 0 => r matches Some(w)
                && views(w@) == without(views(v@), SYSTEM_SENTINEL@),
            _ => r is None,
        },
{
    match users {
        None => None,
        Some(v) => {
            let ghost all = views(v@);
            let mut out: Vec<String> = Vec::new();
            let mut i: usize = 0;
            while i < v.len()
                invariant
                    all == views(v@),
                    i <= v@.len(),
                    views(out@) == without(all.take(i as int), SYSTEM_SENTINEL@),
                decreases v@.len() - i,
            {
                assert(all.take(i + 1).drop_last() =~= all.take(i as int));
                if !str_eq(v[i].as_str(), SYSTEM_SENTINEL) {
                    out.push(v[i].clone());
                    assert(views(out@) =~= without(all.take(i + 1), SYSTEM_SENTINEL@));
                }
                i = i + 1;
            }
            assert(all.take(v@.len() as int) =~= all);
            if out.len() == 0 {
                None
            } else {
                Some(out)
            }
        },
    }
}

/// A list as reported: nothing when it is empty.
pub fn nonempty_or_none(v: Vec<String>) -> (r: Option<Vec<String>>)
    ensures
        v@.len() == 0 ==> r is None,
        v@.len() > 0 ==> r == Some(v),
{
    if v.len() == 0 {
        None
    } else {
        Some(v)
    }
}

/// Whether `topics` is a list that holds the general topic.
pub open spec fn general_listed(topics: Option<Vec<String>>) -> bool {
    match topics {
        Some(v) => views(v@).contains(GENERAL_TOPIC@),
        None => false,
    }
}

/// Whether a chat's topic list holds the general topic, which must then
/// have its placeholder row.
pub fn lists_general(topics: &Option<Vec<String>>) -> (r: bool)
    ensures
        r == general_listed(*topics),
{
    match topics {
        None => false,
        Some(v) => {
            let mut i: usize = 0;
            while i < v.len()
                invariant
                    i <= v@.len(),
                    general_listed(*topics) == views(v@).contains(GENERAL_TOPIC@),
                    forall|j: int| 0 <= j < i ==> v@[j]@ != GENERAL_TOPIC@,
                decreases v@.len() - i,
            {
                if str_eq(v[i].as_str(), GENERAL_TOPIC) {
                    assert(views(v@)[i as int] == GENERAL_TOPIC@);
                    assert(views(v@).contains(GENERAL_TOPIC@));
                    return true;
                }
                i = i + 1;
            }
            assert(!views(v@).contains(GENERAL_TOPIC@)) by {
                if views(v@).contains(GENERAL_TOPIC@) {
                    let j = choose|j: int| 0 <= j < views(v@).len() && views(v@)[j] == GENERAL_TOPIC@;
                    assert(v@[j]@ == GENERAL_TOPIC@);
                }
            }
            false
        },
    }
}

/// The storage statistics from the four counts that the store's queries
/// return.
pub fn stats_from_counts(
    total_chats: i64,
    total_topics: i64,
    total_subscriptions: i64,
    pending_requests: i64,
) -> (r: StorageStats)
    ensures
        r.total_chats == total_chats as usize,
        r.total_topics == total_topics as usize,
        r.total_subscriptions == total_subscriptions as usize,
        r.pending_requests == pending_requests as usize,
{
    StorageStats {
        total_chats: total_chats as usize,
        total_topics: total_topics as usize,
        total_subscriptions: total_subscriptions as usize,
        pending_requests: pending_requests as usize,
    }
}

/// Whether the general topic's placeholder row must be stored again: the
/// chat's topics list the general topic, but the placeholder does not
/// follow it.
pub fn placeholder_missing(topics: &Option<Vec<String>>, has_placeholder: bool) -> (r: bool)
    ensures
        r == (general_listed(*topics) && !has_placeholder),
{
    lists_general(topics) && !has_placeholder
}

/// Subscribing stores exactly the rows of the subscription: when the cache
/// held exactly the store's rows, adding the same rows to both keeps it so.
pub proof fn law_subscribe_rows_mirror(
    db: Set<(i64, Seq<char>, Seq<char>)>,
    m: CacheModel,
    c: i64,
    t: Seq<char>,
    rows: Seq<Seq<char>>,
)
    requires
        subscription_triples(m) == db,
    ensures
        subscription_triples(model_add(m, c, t, rows.to_set())) == db.union(
            rows.to_set().map(|r: Seq<char>| (c, t, r)),
        ),
{
    let added = rows.to_set().map(|r: Seq<char>| (c, t, r));
    assert forall|x: (i64, Seq<char>, Seq<char>)| #[trigger]
        subscription_triples(model_add(m, c, t, rows.to_set())).contains(x) <==> db.union(
            added,
        ).contains(x) by {
        lemma_add_membership(m, c, t, rows.to_set(), x.0, x.1, x.2);
        if x.0 == c && x.1 == t && rows.to_set().contains(x.2) {
            assert(added.contains((c, t, x.2)));
        }
        if added.contains(x) {
            let r = choose|r: Seq<char>| rows.to_set().contains(r) && (c, t, r) == x;
            assert(rows.to_set().contains(r));
        }
    }
    assert(subscription_triples(model_add(m, c, t, rows.to_set())) =~= db.union(added));
}

/// When the last subscriber of a topic leaves, the topic leaves the cache.
pub proof fn law_last_subscriber_leaves(m: CacheModel, c: i64, t: Seq<char>, u: Seq<char>)
    requires
        m.contains_key(c),
        m[c].contains_key(t),
        m[c][t] == set![u],
    ensures
        !(model_remove(m, c, t, u).contains_key(c) && model_remove(m, c, t, u)[c].contains_key(
            t,
        )),
{
    assert(m[c][t].remove(u) =~= Set::<Seq<char>>::empty());
    let topics = topics_remove(m[c], t, u);
    assert(!topics.contains_key(t));
}

/// The general topic outlives its last subscriber: its placeholder row
/// keeps it in the cache, and no subscriber of it is reported.
pub proof fn law_placeholder_keeps_topic(m: CacheModel, c: i64, u: Seq<char>)
    requires
        m.contains_key(c),
        m[c].contains_key(GENERAL_TOPIC@),
        u != SYSTEM_SENTINEL@,
        m[c][GENERAL_TOPIC@] == set![u, SYSTEM_SENTINEL@],
    ensures
        model_remove(m, c, GENERAL_TOPIC@, u).contains_key(c),
        model_remove(m, c, GENERAL_TOPIC@, u)[c].contains_key(GENERAL_TOPIC@),
        model_remove(m, c, GENERAL_TOPIC@, u)[c][GENERAL_TOPIC@] == set![SYSTEM_SENTINEL@],
        without(seq![SYSTEM_SENTINEL@], SYSTEM_SENTINEL@).len() == 0,
{
    let g = GENERAL_TOPIC@;
    assert(m[c][g].remove(u) =~= set![SYSTEM_SENTINEL@]);
    assert(set![SYSTEM_SENTINEL@].contains(SYSTEM_SENTINEL@));
    let topics = topics_remove(m[c], g, u);
    assert(topics.contains_key(g));
    assert(topics.dom().contains(g));
    let s = seq![SYSTEM_SENTINEL@];
    assert(s.drop_last() =~= Seq::<Seq<char>>::empty());
    assert(s.last() == SYSTEM_SENTINEL@);
    assert(without(s.drop_last(), SYSTEM_SENTINEL@).len() == 0);
}

} // verus!
