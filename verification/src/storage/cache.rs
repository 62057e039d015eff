//! In-memory mirror of the subscriptions that the persistent store holds,
//! for fast reads.
//!
//! Chats, each chat's topics and each topic's users are kept in lists
//! sorted without repetitions (chat ids by number, names by
//! `sorted::lex_lt`), so that every list the cache answers with comes out
//! sorted. A chat is kept only while it has a topic.

use vstd::prelude::*;

use crate::storage::chat_storage::str_views;
use crate::storage::sorted::{
    assoc, keys, lemma_assoc_dom, lemma_assoc_insert, lemma_assoc_lookup, lemma_assoc_remove,
    lemma_assoc_update, lemma_insert_to_set, lemma_lex_irreflexive, lemma_lex_total,
    lemma_lex_transitive, lemma_remove_to_set, lemma_sorted_insert, lemma_sorted_no_duplicates,
    lemma_sorted_remove, lex_lt, str_lt, strictly_sorted,
};
use crate::text::{str_eq, views};

verus! {

/// Each topic (in order) with its users (in order).
pub type TopicListing = Seq<(Seq<char>, Seq<Seq<char>>)>;

/// Each chat (in order) with its topics.
pub type Listing = Seq<(i64, TopicListing)>;

/// Each topic with the set of its users.
pub type TopicSubscribers = Map<Seq<char>, Set<Seq<char>>>;

/// Each chat with its topics and their users.
pub type CacheModel = Map<i64, TopicSubscribers>;

/// The topics of a chat are sorted without repetitions, and so are the
/// users of each topic.
pub open spec fn topics_ok(ts: TopicListing) -> bool {
    &&& strictly_sorted(keys(ts))
    &&& forall|i: int| 0 <= i < ts.len() ==> strictly_sorted(#[trigger] ts[i].1)
}

/// The chat ids come in increasing order.
pub open spec fn ids_sorted(l: Listing) -> bool {
    forall|i: int, j: int| 0 <= i < j < l.len() ==> #[trigger] l[i].0 < #[trigger] l[j].0
}

/// The listing is sorted without repetitions, and every chat has a topic.
pub open spec fn listing_ok(l: Listing) -> bool {
    &&& ids_sorted(l)
    &&& forall|i: int| 0 <= i < l.len() ==> (#[trigger] l[i]).1.len() > 0 && topics_ok(l[i].1)
}

/// Each topic with the set of its users.
pub open spec fn topic_pairs(ts: TopicListing) -> Seq<(Seq<char>, Set<Seq<char>>)> {
    ts.map_values(|p: (Seq<char>, Seq<Seq<char>>)| (p.0, p.1.to_set()))
}

/// The map from topics to their users that a topic listing stands for.
pub open spec fn topics_model(ts: TopicListing) -> TopicSubscribers {
    assoc(topic_pairs(ts))
}

/// Each chat with its topics' map.
pub open spec fn chat_pairs(l: Listing) -> Seq<(i64, TopicSubscribers)> {
    l.map_values(|p: (i64, TopicListing)| (p.0, topics_model(p.1)))
}

/// The map from chats to their topics that a listing stands for.
pub open spec fn listing_model(l: Listing) -> CacheModel {
    assoc(chat_pairs(l))
}

/// The users of `t` in `m`, or none when `t` is absent.
pub open spec fn users_of(m: TopicSubscribers, t: Seq<char>) -> Set<Seq<char>> {
    if m.contains_key(t) {
        m[t]
    } else {
        Set::empty()
    }
}

/// The topics of chat `c` in `m`, or none when `c` is absent.
pub open spec fn topics_of(m: CacheModel, c: i64) -> TopicSubscribers {
    if m.contains_key(c) {
        m[c]
    } else {
        Map::empty()
    }
}

/// `m` after adding `users` to topic `t` of chat `c` (creating both when
/// absent).
pub open spec fn model_add(m: CacheModel, c: i64, t: Seq<char>, users: Set<Seq<char>>) -> CacheModel {
    m.insert(c, topics_of(m, c).insert(t, users_of(topics_of(m, c), t).union(users)))
}

/// `m` after removing user `u` from topic `t` of chat `c`: a topic left
/// without users is dropped, and so is a chat left without topics.
pub open spec fn model_remove(m: CacheModel, c: i64, t: Seq<char>, u: Seq<char>) -> CacheModel {
    if m.contains_key(c) && m[c].contains_key(t) {
        let topics = topics_remove(m[c], t, u);
        if topics.dom() == Set::<Seq<char>>::empty() {
            m.remove(c)
        } else {
            m.insert(c, topics)
        }
    } else {
        m
    }
}

/// `m` after removing user `u` from topic `t`: a topic left without users
/// is dropped.
pub open spec fn topics_remove(m: TopicSubscribers, t: Seq<char>, u: Seq<char>) -> TopicSubscribers {
    if m.contains_key(t) {
        let users = m[t].remove(u);
        if users == Set::<Seq<char>>::empty() {
            m.remove(t)
        } else {
            m.insert(t, users)
        }
    } else {
        m
    }
}

/// The model built from subscription rows (chat, topic, user), one after
/// the other.
pub open spec fn rows_model(rows: Seq<(i64, Seq<char>, Seq<char>)>) -> CacheModel
    decreases rows.len(),
{
    if rows.len() == 0 {
        Map::empty()
    } else {
        let r = rows.last();
        model_add(rows_model(rows.drop_last()), r.0, r.1, set![r.2])
    }
}

/// Number of topics over all chats of a listing.
pub open spec fn count_topics(l: Listing) -> nat
    decreases l.len(),
{
    if l.len() == 0 {
        0
    } else {
        count_topics(l.drop_last()) + l.last().1.len()
    }
}

/// Number of (topic, user) pairs of a topic listing.
pub open spec fn count_users_in(ts: TopicListing) -> nat
    decreases ts.len(),
{
    if ts.len() == 0 {
        0
    } else {
        count_users_in(ts.drop_last()) + ts.last().1.len()
    }
}

/// Number of subscriptions over all chats of a listing.
pub open spec fn count_users(l: Listing) -> nat
    decreases l.len(),
{
    if l.len() == 0 {
        0
    } else {
        count_users(l.drop_last()) + count_users_in(l.last().1)
    }
}

/// Cache statistics
#[derive(Debug, Clone, Copy, PartialEq, Eq, Structural)]
pub struct CacheStats {
    /// Number of chats
    pub total_chats: usize,
    /// Number of topics over all chats
    pub total_topics: usize,
    /// Number of subscriptions over all topics
    pub total_subscriptions: usize,
}

/// A topic with its users, sorted.
struct TopicEntry {
    topic: String,
    users: Vec<String>,
}

/// A chat with its topics, sorted by name.
struct ChatEntry {
    chat_id: i64,
    topics: Vec<TopicEntry>,
}

spec fn topic_view(e: TopicEntry) -> (Seq<char>, Seq<Seq<char>>) {
    (e.topic@, views(e.users@))
}

spec fn topics_view(ts: Seq<TopicEntry>) -> TopicListing {
    ts.map_values(|e: TopicEntry| topic_view(e))
}

spec fn chat_view(c: ChatEntry) -> (i64, TopicListing) {
    (c.chat_id, topics_view(c.topics@))
}

spec fn listing_of(cs: Seq<ChatEntry>) -> Listing {
    cs.map_values(|c: ChatEntry| chat_view(c))
}

proof fn lemma_topic_keys(ts: TopicListing)
    ensures
        keys(topic_pairs(ts)) == keys(ts),
{
    assert(keys(topic_pairs(ts)) =~= keys(ts));
}

proof fn lemma_chat_keys(l: Listing)
    ensures
        keys(chat_pairs(l)) == keys(l),
{
    assert(keys(chat_pairs(l)) =~= keys(l));
}

proof fn lemma_ids_no_duplicates(l: Listing)
    requires
        ids_sorted(l),
    ensures
        keys(l).no_duplicates(),
{
    assert forall|a: int, b: int| 0 <= a < keys(l).len() && 0 <= b < keys(l).len() && a != b
        implies keys(l)[a] != keys(l)[b] by {
        if a < b {
            assert(l[a].0 < l[b].0);
        } else {
            assert(l[b].0 < l[a].0);
        }
    }
}

/// Where `u` stands or would stand in the sorted `users`.
fn find_user(users: &Vec<String>, u: &str) -> (r: (usize, bool))
    requires
        strictly_sorted(views(users@)),
    ensures
        r.0 <= users@.len(),
        forall|k: int| 0 <= k < r.0 ==> lex_lt(#[trigger] views(users@)[k], u@),
        r.1 ==> r.0 < users@.len() && users@[r.0 as int]@ == u@,
        !r.1 ==> r.0 == users@.len() || lex_lt(u@, views(users@)[r.0 as int]),
        r.1 == views(users@).contains(u@),
{
    let ghost s = views(users@);
    let mut j: usize = 0;
    while j < users.len() && str_lt(users[j].as_str(), u)
        invariant
            s == views(users@),
            j <= users@.len(),
            forall|k: int| 0 <= k < j ==> lex_lt(#[trigger] s[k], u@),
        decreases users@.len() - j,
    {
        j = j + 1;
    }
    let found = j < users.len() && str_eq(users[j].as_str(), u);
    proof {
        if !found && j < users@.len() {
            assert(s[j as int] == users@[j as int]@);
            lemma_lex_total(s[j as int], u@);
        }
        if found {
            assert(s[j as int] == u@);
        } else {
            lemma_sorted_insert(s, j as int, u@);
        }
    }
    (j, found)
}

/// Adds `u` to the sorted `users`, keeping them sorted.
fn insert_user(users: &mut Vec<String>, u: &str)
    requires
        strictly_sorted(views(old(users)@)),
    ensures
        strictly_sorted(views(final(users)@)),
        views(final(users)@).to_set() == views(old(users)@).to_set().insert(u@),
        final(users)@.len() <= old(users)@.len() + 1,
{
    let ghost s = views(users@);
    let (j, found) = find_user(users, u);
    if !found {
        users.insert(j, u.to_owned());
        proof {
            assert(views(users@) =~= s.insert(j as int, u@));
            lemma_sorted_insert(s, j as int, u@);
            lemma_insert_to_set(s, j as int, u@);
        }
    } else {
        assert(s.to_set().insert(u@) =~= s.to_set());
    }
}

/// Where `t` stands or would stand among the sorted `topics`.
fn find_topic(topics: &Vec<TopicEntry>, t: &str) -> (r: (usize, bool))
    requires
        topics_ok(topics_view(topics@)),
    ensures
        r.0 <= topics@.len(),
        forall|k: int| 0 <= k < r.0 ==> lex_lt(#[trigger] keys(topics_view(topics@))[k], t@),
        r.1 ==> r.0 < topics@.len() && topics@[r.0 as int].topic@ == t@,
        !r.1 ==> r.0 == topics@.len() || lex_lt(t@, keys(topics_view(topics@))[r.0 as int]),
        r.1 == keys(topics_view(topics@)).contains(t@),
{
    let ghost s = keys(topics_view(topics@));
    let mut j: usize = 0;
    while j < topics.len() && str_lt(topics[j].topic.as_str(), t)
        invariant
            s == keys(topics_view(topics@)),
            j <= topics@.len(),
            forall|k: int| 0 <= k < j ==> lex_lt(#[trigger] s[k], t@),
        decreases topics@.len() - j,
    {
        j = j + 1;
    }
    let found = j < topics.len() && str_eq(topics[j].topic.as_str(), t);
    proof {
        if !found && j < topics@.len() {
            assert(s[j as int] == topics@[j as int].topic@);
            lemma_lex_total(s[j as int], t@);
        }
        if found {
            assert(s[j as int] == t@);
        } else {
            lemma_sorted_insert(s, j as int, t@);
        }
    }
    (j, found)
}

/// Where chat `c` stands or would stand among the sorted `chats`.
fn find_chat(chats: &Vec<ChatEntry>, c: i64) -> (r: (usize, bool))
    requires
        ids_sorted(listing_of(chats@)),
    ensures
        r.0 <= chats@.len(),
        forall|k: int| 0 <= k < r.0 ==> #[trigger] chats@[k].chat_id < c,
        r.1 ==> r.0 < chats@.len() && chats@[r.0 as int].chat_id == c,
        !r.1 ==> r.0 == chats@.len() || c < chats@[r.0 as int].chat_id,
        r.1 == keys(listing_of(chats@)).contains(c),
{
    let ghost l = listing_of(chats@);
    let mut j: usize = 0;
    while j < chats.len() && chats[j].chat_id < c
        invariant
            l == listing_of(chats@),
            j <= chats@.len(),
            forall|k: int| 0 <= k < j ==> #[trigger] chats@[k].chat_id < c,
        decreases chats@.len() - j,
    {
        j = j + 1;
    }
    let found = j < chats.len() && chats[j].chat_id == c;
    proof {
        if found {
            assert(keys(l)[j as int] == c);
        } else if keys(l).contains(c) {
            let k = choose|k: int| 0 <= k < keys(l).len() && keys(l)[k] == c;
            assert(l[k].0 == chats@[k].chat_id);
            if k >= j {
                if k > j {
                    assert(l[j as int].0 < l[k].0);
                }
                assert(l[j as int].0 == chats@[j as int].chat_id);
            }
        }
    }
    (j, found)
}

/// Adds `users` to topic `t` of the sorted `topics`, creating the topic
/// when absent.
fn add_users_to_topics(topics: &mut Vec<TopicEntry>, t: &str, users: &[&str])
    requires
        topics_ok(topics_view(old(topics)@)),
    ensures
        topics_ok(topics_view(final(topics)@)),
        final(topics)@.len() > 0,
        topics_model(topics_view(final(topics)@)) == topics_model(topics_view(old(topics)@)).insert(
            t@,
            users_of(topics_model(topics_view(old(topics)@)), t@).union(str_views(users@).to_set()),
        ),
{
    let ghost ts0 = topics_view(topics@);
    let ghost m0 = topics_model(ts0);
    let ghost added = str_views(users@).to_set();
    proof {
        lemma_topic_keys(ts0);
        lemma_sorted_no_duplicates(keys(ts0));
        lemma_assoc_dom(topic_pairs(ts0));
    }
    let (j, found) = find_topic(topics, t);
    let mut entry = if found {
        topics.remove(j)
    } else {
        TopicEntry { topic: t.to_owned(), users: Vec::new() }
    };
    let ghost base = views(entry.users@);
    proof {
        if found {
            assert(ts0[j as int] == topic_view(entry));
            assert(strictly_sorted(ts0[j as int].1));
            lemma_assoc_lookup(topic_pairs(ts0), j as int);
            assert(users_of(m0, t@) == base.to_set());
        } else {
            assert(!m0.contains_key(t@));
            assert(base.to_set() =~= Set::<Seq<char>>::empty());
        }
    }
    let mut i: usize = 0;
    while i < users.len()
        invariant
            i <= users@.len(),
            entry.topic@ == t@,
            strictly_sorted(views(entry.users@)),
            views(entry.users@).to_set() == base.to_set().union(
                str_views(users@).take(i as int).to_set(),
            ),
        decreases users@.len() - i,
    {
        let ghost before = str_views(users@).take(i as int);
        insert_user(&mut entry.users, users[i]);
        i = i + 1;
        proof {
            assert(str_views(users@).take(i as int) =~= before.push(users@[i - 1]@));
            before.lemma_push_to_set_commute(users@[i - 1]@);
            assert(views(entry.users@).to_set() =~= base.to_set().union(
                str_views(users@).take(i as int).to_set(),
            ));
        }
    }
    assert(str_views(users@).take(users@.len() as int) =~= str_views(users@));
    let ghost v = topic_view(entry);
    assert(v.1.to_set() == users_of(m0, t@).union(added));
    topics.insert(j, entry);
    proof {
        if found {
            let ts1 = topics_view(topics@);
            assert(ts1 =~= ts0.update(j as int, v));
            assert(topic_pairs(ts1) =~= topic_pairs(ts0).update(
                j as int,
                (topic_pairs(ts0)[j as int].0, v.1.to_set()),
            ));
            lemma_assoc_update(topic_pairs(ts0), j as int, v.1.to_set());
            assert(keys(ts1) =~= keys(ts0));
            assert forall|k: int| 0 <= k < ts1.len() implies strictly_sorted(#[trigger] ts1[k].1) by {
                if k != j {
                    assert(ts1[k] == ts0[k]);
                }
            }
        } else {
            let ts1 = topics_view(topics@);
            assert(ts1 =~= ts0.insert(j as int, v));
            assert(topic_pairs(ts1) =~= topic_pairs(ts0).insert(j as int, (t@, v.1.to_set())));
            lemma_assoc_insert(topic_pairs(ts0), j as int, (t@, v.1.to_set()));
            assert(keys(ts1) =~= keys(ts0).insert(j as int, t@));
            lemma_sorted_insert(keys(ts0), j as int, t@);
            assert forall|k: int| 0 <= k < ts1.len() implies strictly_sorted(#[trigger] ts1[k].1) by {
                if k < j {
                    assert(ts1[k] == ts0[k]);
                } else if k > j {
                    assert(ts1[k] == ts0[k - 1]);
                }
            }
        }
    }
}

/// Removes `u` from the sorted `users`.
fn remove_user(users: &mut Vec<String>, u: &str) -> (r: bool)
    requires
        strictly_sorted(views(old(users)@)),
    ensures
        strictly_sorted(views(final(users)@)),
        views(final(users)@).to_set() == views(old(users)@).to_set().remove(u@),
        r == views(old(users)@).contains(u@),
{
    let ghost s = views(users@);
    let (j, found) = find_user(users, u);
    if found {
        let _gone = users.remove(j);
        proof {
            assert(views(users@) =~= s.remove(j as int));
            assert(s[j as int] == u@);
            lemma_sorted_remove(s, j as int);
            lemma_sorted_no_duplicates(s);
            lemma_remove_to_set(s, j as int);
        }
    } else {
        assert(s.to_set().remove(u@) =~= s.to_set());
    }
    found
}

/// Removes `u` from topic `t` of the sorted `topics`, dropping the topic
/// when no user is left in it.
fn remove_user_from_topics(topics: &mut Vec<TopicEntry>, t: &str, u: &str) -> (r: bool)
    requires
        topics_ok(topics_view(old(topics)@)),
    ensures
        topics_ok(topics_view(final(topics)@)),
        topics_model(topics_view(final(topics)@)) == topics_remove(
            topics_model(topics_view(old(topics)@)),
            t@,
            u@,
        ),
        final(topics)@.len() == 0 <==> topics_model(topics_view(final(topics)@)).dom() == Set::<
            Seq<char>,
        >::empty(),
        r == (topics_model(topics_view(old(topics)@)).contains_key(t@) && topics_model(
            topics_view(old(topics)@),
        )[t@].contains(u@)),
{
    let ghost ts0 = topics_view(topics@);
    let ghost m0 = topics_model(ts0);
    proof {
        lemma_topic_keys(ts0);
        lemma_sorted_no_duplicates(keys(ts0));
        lemma_assoc_dom(topic_pairs(ts0));
    }
    let (j, found) = find_topic(topics, t);
    if !found {
        proof {
            assert(!m0.contains_key(t@));
            lemma_topic_dom(ts0);
            if ts0.len() > 0 {
                assert(keys(ts0).to_set().contains(keys(ts0)[0]));
            } else {
                assert(keys(ts0).to_set() =~= Set::<Seq<char>>::empty());
            }
        }
        return false;
    }
    let mut entry = topics.remove(j);
    proof {
        lemma_topic_lookup(ts0, j as int);
        assert(ts0[j as int] == topic_view(entry));
        assert(strictly_sorted(ts0[j as int].1));
    }
    let ghost base = views(entry.users@);
    let removed = remove_user(&mut entry.users, u);
    proof {
        assert(base.to_set().contains(u@) == base.contains(u@));
    }
    if entry.users.len() > 0 {
        let ghost v = topic_view(entry);
        topics.insert(j, entry);
        proof {
            let ts1 = topics_view(topics@);
            assert(ts1 =~= ts0.update(j as int, v));
            assert(topic_pairs(ts1) =~= topic_pairs(ts0).update(
                j as int,
                (topic_pairs(ts0)[j as int].0, v.1.to_set()),
            ));
            lemma_assoc_update(topic_pairs(ts0), j as int, v.1.to_set());
            assert(keys(ts1) =~= keys(ts0));
            assert forall|k: int| 0 <= k < ts1.len() implies strictly_sorted(#[trigger] ts1[k].1) by {
                if k != j {
                    assert(ts1[k] == ts0[k]);
                }
            }
            assert(v.1.to_set().contains(v.1[0]));
            assert(v.1.to_set() != Set::<Seq<char>>::empty());
            lemma_topic_dom(ts1);
            assert(keys(ts1).to_set().contains(keys(ts1)[0]));
        }
    } else {
        proof {
            let ts1 = topics_view(topics@);
            assert(ts1 =~= ts0.remove(j as int));
            assert(topic_pairs(ts1) =~= topic_pairs(ts0).remove(j as int));
            lemma_assoc_remove(topic_pairs(ts0), j as int);
            assert(keys(ts1) =~= keys(ts0).remove(j as int));
            lemma_sorted_remove(keys(ts0), j as int);
            assert forall|k: int| 0 <= k < ts1.len() implies strictly_sorted(#[trigger] ts1[k].1) by {
                if k < j {
                    assert(ts1[k] == ts0[k]);
                } else {
                    assert(ts1[k] == ts0[k + 1]);
                }
            }
            assert(views(entry.users@).to_set() =~= Set::<Seq<char>>::empty());
            lemma_topic_dom(ts1);
            if ts1.len() > 0 {
                assert(keys(ts1).to_set().contains(keys(ts1)[0]));
            } else {
                assert(keys(ts1).to_set() =~= Set::<Seq<char>>::empty());
            }
        }
    }
    removed
}

/// The topics (in order) whose users include `u`.
pub open spec fn topics_with(ts: TopicListing, u: Seq<char>) -> Seq<Seq<char>>
    decreases ts.len(),
{
    if ts.len() == 0 {
        Seq::empty()
    } else if ts.last().1.contains(u) {
        topics_with(ts.drop_last(), u).push(ts.last().0)
    } else {
        topics_with(ts.drop_last(), u)
    }
}

proof fn lemma_topics_with_contains(ts: TopicListing, u: Seq<char>, x: Seq<char>)
    ensures
        topics_with(ts, u).contains(x) <==> exists|k: int|
            0 <= k < ts.len() && ts[k].0 == x && #[trigger] ts[k].1.contains(u),
    decreases ts.len(),
{
    if ts.len() > 0 {
        let d = ts.drop_last();
        lemma_topics_with_contains(d, u, x);
        if topics_with(ts, u).contains(x) {
            if ts.last().1.contains(u) && x == ts.last().0 {
                assert(ts[ts.len() - 1].1.contains(u));
            } else {
                if ts.last().1.contains(u) {
                    assert(topics_with(ts, u) == topics_with(d, u).push(ts.last().0));
                    let i = choose|i: int| 0 <= i < topics_with(ts, u).len() && topics_with(ts, u)[i] == x;
                    assert(topics_with(d, u)[i] == x);
                }
                assert(topics_with(d, u).contains(x));
                let k = choose|k: int| 0 <= k < d.len() && d[k].0 == x && #[trigger] d[k].1.contains(u);
                assert(ts[k] == d[k]);
            }
        }
        if exists|k: int| 0 <= k < ts.len() && ts[k].0 == x && #[trigger] ts[k].1.contains(u) {
            let k = choose|k: int| 0 <= k < ts.len() && ts[k].0 == x && #[trigger] ts[k].1.contains(u);
            if k == ts.len() - 1 {
                assert(topics_with(ts, u)[topics_with(ts, u).len() - 1] == x);
            } else {
                assert(d[k] == ts[k]);
                assert(d[k].1.contains(u));
                assert(topics_with(d, u).contains(x));
                let i = choose|i: int| 0 <= i < topics_with(d, u).len() && topics_with(d, u)[i] == x;
                if ts.last().1.contains(u) {
                    assert(topics_with(ts, u)[i] == x);
                }
            }
        }
    }
}

proof fn lemma_topics_with_sorted(ts: TopicListing, u: Seq<char>)
    requires
        strictly_sorted(keys(ts)),
    ensures
        strictly_sorted(topics_with(ts, u)),
    decreases ts.len(),
{
    if ts.len() > 0 {
        let d = ts.drop_last();
        assert(keys(d) =~= keys(ts).drop_last());
        lemma_topics_with_sorted(d, u);
        if ts.last().1.contains(u) {
            let w = topics_with(d, u);
            let w2 = w.push(ts.last().0);
            assert forall|a: int, b: int| 0 <= a < b < w2.len() implies lex_lt(#[trigger] w2[a], #[trigger] w2[b]) by {
                if b == w.len() {
                    assert(w.contains(w[a]));
                    lemma_topics_with_contains(d, u, w[a]);
                    let k = choose|k: int| 0 <= k < d.len() && d[k].0 == w[a] && #[trigger] d[k].1.contains(u);
                    assert(keys(ts)[k] == w[a]);
                    assert(keys(ts)[ts.len() - 1] == ts.last().0);
                }
            }
        }
    }
}

proof fn lemma_chat_lookup(l: Listing, i: int)
    requires
        listing_ok(l),
        0 <= i < l.len(),
    ensures
        listing_model(l).contains_key(l[i].0),
        listing_model(l)[l[i].0] == topics_model(l[i].1),
{
    lemma_chat_keys(l);
    lemma_ids_no_duplicates(l);
    lemma_assoc_lookup(chat_pairs(l), i);
}

proof fn lemma_chat_dom(l: Listing)
    ensures
        listing_model(l).dom() == keys(l).to_set(),
{
    lemma_chat_keys(l);
    lemma_assoc_dom(chat_pairs(l));
}

proof fn lemma_topic_lookup(ts: TopicListing, j: int)
    requires
        topics_ok(ts),
        0 <= j < ts.len(),
    ensures
        topics_model(ts).contains_key(ts[j].0),
        topics_model(ts)[ts[j].0] == ts[j].1.to_set(),
{
    lemma_topic_keys(ts);
    lemma_sorted_no_duplicates(keys(ts));
    lemma_assoc_lookup(topic_pairs(ts), j);
}

proof fn lemma_topic_dom(ts: TopicListing)
    ensures
        topics_model(ts).dom() == keys(ts).to_set(),
{
    lemma_topic_keys(ts);
    lemma_assoc_dom(topic_pairs(ts));
}

/// Adding `b` (below `big`) to a sum kept modulo `big` in a machine word
/// that wraps at `big`.
proof fn lemma_wrap_step(x: nat, b: nat, big: nat)
    requires
        big > 0,
        b < big,
    ensures
        ((x % big) + b < big ==> (x + b) % big == (x % big) + b),
        ((x % big) + b >= big ==> (x + b) % big == (x % big) + b - big),
{
    vstd::arithmetic::div_mod::lemma_add_mod_noop(x as int, b as int, big as int);
    vstd::arithmetic::div_mod::lemma_small_mod(b, big);
    let a = x % big;
    if a + b < big {
        vstd::arithmetic::div_mod::lemma_small_mod((a + b) as nat, big);
    } else {
        vstd::arithmetic::div_mod::lemma_mod_sub_multiples_vanish((a + b) as int, big as int);
        vstd::arithmetic::div_mod::lemma_small_mod((a + b - big) as nat, big);
    }
}

/// The (chat, topic, user) subscriptions of chat `c`, whose topics are
/// `tm`.
spec fn chat_triples(c: i64, tm: TopicSubscribers) -> Set<(i64, Seq<char>, Seq<char>)> {
    Set::new(
        |x: (i64, Seq<char>, Seq<char>)| x.0 == c && tm.contains_key(x.1) && tm[x.1].contains(x.2),
    )
}

proof fn lemma_topics_ok_prefix(ts: TopicListing)
    requires
        topics_ok(ts),
        ts.len() > 0,
    ensures
        topics_ok(ts.drop_last()),
        !keys(ts.drop_last()).contains(ts.last().0),
        strictly_sorted(ts.last().1),
        topics_model(ts) == topics_model(ts.drop_last()).insert(ts.last().0, ts.last().1.to_set()),
{
    let d = ts.drop_last();
    let n = ts.len() - 1;
    assert(keys(d) =~= keys(ts).drop_last());
    assert forall|i: int| 0 <= i < d.len() implies strictly_sorted(#[trigger] d[i].1) by {
        assert(d[i] == ts[i]);
    }
    assert(ts[n] == ts.last());
    if keys(d).contains(ts.last().0) {
        let k = choose|k: int| 0 <= k < keys(d).len() && keys(d)[k] == ts.last().0;
        assert(lex_lt(keys(ts)[k], keys(ts)[n]));
        lemma_lex_irreflexive(ts.last().0);
    }
    assert(topic_pairs(ts).drop_last() =~= topic_pairs(d));
}

proof fn lemma_listing_ok_prefix(l: Listing)
    requires
        listing_ok(l),
        l.len() > 0,
    ensures
        listing_ok(l.drop_last()),
        !keys(l.drop_last()).contains(l.last().0),
        topics_ok(l.last().1),
        l.last().1.len() > 0,
        listing_model(l) == listing_model(l.drop_last()).insert(l.last().0, topics_model(l.last().1)),
{
    let d = l.drop_last();
    let n = l.len() - 1;
    assert forall|a: int, b: int| 0 <= a < b < d.len() implies #[trigger] d[a].0 < #[trigger] d[b].0 by {
        assert(d[a] == l[a] && d[b] == l[b]);
    }
    assert forall|i: int| 0 <= i < d.len() implies (#[trigger] d[i]).1.len() > 0 && topics_ok(
        d[i].1,
    ) by {
        assert(d[i] == l[i]);
    }
    assert(l[n] == l.last());
    if keys(d).contains(l.last().0) {
        let k = choose|k: int| 0 <= k < keys(d).len() && keys(d)[k] == l.last().0;
        assert(d[k] == l[k]);
        assert(l[k].0 < l[n].0);
    }
    assert(chat_pairs(l).drop_last() =~= chat_pairs(d));
}

proof fn lemma_chat_triples_count(c: i64, ts: TopicListing)
    requires
        topics_ok(ts),
    ensures
        chat_triples(c, topics_model(ts)).finite(),
        chat_triples(c, topics_model(ts)).len() == count_users_in(ts),
    decreases ts.len(),
{
    if ts.len() == 0 {
        assert(chat_triples(c, topics_model(ts)) =~= Set::empty());
    } else {
        let d = ts.drop_last();
        let t = ts.last().0;
        let us = ts.last().1;
        lemma_topics_ok_prefix(ts);
        lemma_chat_triples_count(c, d);
        let tm = topics_model(d);
        lemma_topic_dom(d);
        assert(!tm.contains_key(t));
        let a = chat_triples(c, tm);
        let uset = us.to_set();
        let f = |u: Seq<char>| (c, t, u);
        let b = uset.map(f);
        assert forall|x: (i64, Seq<char>, Seq<char>)| #[trigger]
            chat_triples(c, tm.insert(t, uset)).contains(x) <==> (a + b).contains(x) by {
            if x.0 == c && x.1 == t && uset.contains(x.2) {
                assert(f(x.2) == x);
                assert(b.contains(x));
            }
            if b.contains(x) {
                let u = choose|u: Seq<char>| uset.contains(u) && f(u) == x;
                assert(x.2 == u);
            }
        }
        assert(chat_triples(c, tm.insert(t, uset)) =~= a + b);
        lemma_sorted_no_duplicates(us);
        us.unique_seq_to_set();
        assert(vstd::relations::injective_on(f, uset));
        vstd::set_lib::lemma_map_size(uset, b, f);
        assert(a.disjoint(b));
        vstd::set_lib::lemma_set_disjoint_lens(a, b);
    }
}

proof fn lemma_listing_counts(l: Listing)
    requires
        listing_ok(l),
    ensures
        topic_pairs_in(listing_model(l)).finite(),
        topic_pairs_in(listing_model(l)).len() == count_topics(l),
        subscription_triples(listing_model(l)).finite(),
        subscription_triples(listing_model(l)).len() == count_users(l),
    decreases l.len(),
{
    if l.len() == 0 {
        assert(topic_pairs_in(listing_model(l)) =~= Set::empty());
        assert(subscription_triples(listing_model(l)) =~= Set::empty());
    } else {
        let d = l.drop_last();
        let c = l.last().0;
        let ts = l.last().1;
        lemma_listing_ok_prefix(l);
        lemma_listing_counts(d);
        let m = listing_model(d);
        let tm = topics_model(ts);
        lemma_chat_dom(d);
        assert(!m.contains_key(c));
        let m1 = m.insert(c, tm);
        // topics
        let pa = topic_pairs_in(m);
        let f = |t: Seq<char>| (c, t);
        let pb = tm.dom().map(f);
        assert forall|p: (i64, Seq<char>)| #[trigger] topic_pairs_in(m1).contains(p) <==> (pa
            + pb).contains(p) by {
            if p.0 == c && tm.contains_key(p.1) {
                assert(f(p.1) == p);
                assert(pb.contains(p));
            }
            if pb.contains(p) {
                let t = choose|t: Seq<char>| tm.dom().contains(t) && f(t) == p;
                assert(p.1 == t);
            }
        }
        assert(topic_pairs_in(m1) =~= pa + pb);
        lemma_topic_dom(ts);
        lemma_topic_keys(ts);
        lemma_sorted_no_duplicates(keys(ts));
        keys(ts).unique_seq_to_set();
        assert(vstd::relations::injective_on(f, tm.dom()));
        vstd::set_lib::lemma_map_size(tm.dom(), pb, f);
        assert(pa.disjoint(pb));
        vstd::set_lib::lemma_set_disjoint_lens(pa, pb);
        // subscriptions
        let sa = subscription_triples(m);
        let sb = chat_triples(c, tm);
        lemma_chat_triples_count(c, ts);
        assert(subscription_triples(m1) =~= sa + sb);
        assert(sa.disjoint(sb));
        vstd::set_lib::lemma_set_disjoint_lens(sa, sb);
    }
}

impl SubscriptionCache {
    /// Everything the cache holds: each chat in increasing order with its
    /// topics in order, each with its users in order.
    pub closed spec fn listing(&self) -> Listing {
        listing_of(self.chats@)
    }

    /// Each chat with its topics and their users.
    pub open spec fn model(&self) -> CacheModel {
        listing_model(self.listing())
    }

    /// Well-formedness: everything sorted without repetitions, and every
    /// chat with a topic.
    pub open spec fn wf(&self) -> bool {
        listing_ok(self.listing())
    }

    /// Create a new empty cache
    pub fn new() -> (r: SubscriptionCache)
        ensures
            r.wf(),
            r.listing().len() == 0,
            r.model().dom() == Set::<i64>::empty(),
    {
        let r = SubscriptionCache { chats: Vec::new() };
        assert(r.model().dom() =~= Set::<i64>::empty());
        r
    }

    /// Add multiple subscriptions to the cache: `user_ids` join topic
    /// `topic` of chat `chat_id`, which are created when absent (the topic
    /// without users when `user_ids` is empty).
    pub fn add_subscriptions(&mut self, chat_id: i64, topic: &str, user_ids: &[&str])
        requires
            old(self).wf(),
        ensures
            final(self).wf(),
            final(self).model() == model_add(
                old(self).model(),
                chat_id,
                topic@,
                str_views(user_ids@).to_set(),
            ),
    {
        let ghost l0 = self.listing();
        let ghost m0 = self.model();
        proof {
            lemma_chat_dom(l0);
            lemma_chat_keys(l0);
            lemma_ids_no_duplicates(l0);
        }
        let (ci, found) = find_chat(&self.chats, chat_id);
        let mut entry = if found {
            self.chats.remove(ci)
        } else {
            ChatEntry { chat_id, topics: Vec::new() }
        };
        proof {
            if found {
                assert(l0[ci as int] == chat_view(entry));
                lemma_chat_lookup(l0, ci as int);
                assert(topics_of(m0, chat_id) == topics_model(topics_view(entry.topics@)));
            } else {
                assert(!m0.contains_key(chat_id));
                assert(topics_model(topics_view(entry.topics@)) =~= Map::empty());
            }
        }
        add_users_to_topics(&mut entry.topics, topic, user_ids);
        let ghost v = chat_view(entry);
        self.chats.insert(ci, entry);
        proof {
            let l1 = self.listing();
            let newm = topics_of(m0, chat_id).insert(
                topic@,
                users_of(topics_of(m0, chat_id), topic@).union(str_views(user_ids@).to_set()),
            );
            if found {
                assert(l1 =~= l0.update(ci as int, v));
                assert(chat_pairs(l1) =~= chat_pairs(l0).update(
                    ci as int,
                    (chat_pairs(l0)[ci as int].0, newm),
                ));
                lemma_assoc_update(chat_pairs(l0), ci as int, newm);
                assert forall|a: int, b: int| 0 <= a < b < l1.len() implies #[trigger] l1[a].0
                    < #[trigger] l1[b].0 by {
                    assert(l1[a].0 == l0[a].0 && l1[b].0 == l0[b].0);
                }
                assert forall|k: int| 0 <= k < l1.len() implies (#[trigger] l1[k]).1.len() > 0
                    && topics_ok(l1[k].1) by {
                    if k != ci {
                        assert(l1[k] == l0[k]);
                    }
                }
            } else {
                assert(l1 =~= l0.insert(ci as int, v));
                assert(chat_pairs(l1) =~= chat_pairs(l0).insert(ci as int, (chat_id, newm)));
                lemma_assoc_insert(chat_pairs(l0), ci as int, (chat_id, newm));
                assert forall|a: int, b: int| 0 <= a < b < l1.len() implies #[trigger] l1[a].0
                    < #[trigger] l1[b].0 by {
                    if b < ci {
                        assert(l1[a] == l0[a] && l1[b] == l0[b]);
                    } else if b == ci {
                        assert(l1[a] == l0[a]);
                        assert(l0[a].0 == self.chats@[a].chat_id);
                    } else if a == ci {
                        assert(l1[b] == l0[b - 1]);
                        assert(l0[ci as int].0 == old(self).chats@[ci as int].chat_id);
                        if b - 1 > ci {
                            assert(l0[ci as int].0 < l0[b - 1].0);
                        }
                    } else if a < ci {
                        assert(l1[a] == l0[a] && l1[b] == l0[b - 1]);
                    } else {
                        assert(l1[a] == l0[a - 1] && l1[b] == l0[b - 1]);
                    }
                }
                assert forall|k: int| 0 <= k < l1.len() implies (#[trigger] l1[k]).1.len() > 0
                    && topics_ok(l1[k].1) by {
                    if k < ci {
                        assert(l1[k] == l0[k]);
                    } else if k > ci {
                        assert(l1[k] == l0[k - 1]);
                    }
                }
            }
        }
    }

    /// Add a subscription to the cache: `user_id` joins topic `topic` of
    /// chat `chat_id`, which are created when absent.
    pub fn add_subscription(&mut self, chat_id: i64, topic: &str, user_id: &str)
        requires
            old(self).wf(),
        ensures
            final(self).wf(),
            final(self).model() == model_add(old(self).model(), chat_id, topic@, set![user_id@]),
    {
        let users = vec![user_id];
        assert(str_views(users@).to_set() =~= set![user_id@]) by {
            assert(str_views(users@)[0] == user_id@);
        }
        self.add_subscriptions(chat_id, topic, users.as_slice());
    }

    /// Get all topics for a chat, sorted
    pub fn get_topics(&self, chat_id: i64) -> (r: Option<Vec<String>>)
        requires
            self.wf(),
        ensures
            r is Some <==> self.model().contains_key(chat_id),
            r matches Some(v) ==> strictly_sorted(views(v@)) && views(v@).to_set()
                == self.model()[chat_id].dom(),
    {
        proof {
            lemma_chat_dom(self.listing());
        }
        let (ci, found) = find_chat(&self.chats, chat_id);
        if !found {
            return None;
        }
        let topics = &self.chats[ci].topics;
        let ghost ts = topics_view(topics@);
        proof {
            assert(self.listing()[ci as int] == chat_view(self.chats@[ci as int]));
            lemma_chat_lookup(self.listing(), ci as int);
            lemma_topic_dom(ts);
        }
        let mut out: Vec<String> = Vec::new();
        let mut i: usize = 0;
        while i < topics.len()
            invariant
                ts == topics_view(topics@),
                i <= topics@.len(),
                views(out@) == keys(ts).take(i as int),
            decreases topics@.len() - i,
        {
            let ghost prev = views(out@);
            out.push(topics[i].topic.clone());
            assert(ts[i as int] == topic_view(topics@[i as int]));
            assert(views(out@) =~= prev.push(keys(ts)[i as int]));
            i = i + 1;
            assert(views(out@) =~= keys(ts).take(i as int));
        }
        assert(keys(ts).take(topics@.len() as int) =~= keys(ts));
        Some(out)
    }

    /// Get all subscribers for a specific topic in a chat, sorted
    pub fn get_subscribers_from_topic(&self, chat_id: i64, topic: &str) -> (r: Option<Vec<String>>)
        requires
            self.wf(),
        ensures
            r is Some <==> (self.model().contains_key(chat_id) && self.model()[chat_id].contains_key(
                topic@,
            )),
            r matches Some(v) ==> strictly_sorted(views(v@)) && views(v@).to_set()
                == self.model()[chat_id][topic@],
    {
        proof {
            lemma_chat_dom(self.listing());
        }
        let (ci, found) = find_chat(&self.chats, chat_id);
        if !found {
            return None;
        }
        let topics = &self.chats[ci].topics;
        let ghost ts = topics_view(topics@);
        proof {
            assert(self.listing()[ci as int] == chat_view(self.chats@[ci as int]));
            lemma_chat_lookup(self.listing(), ci as int);
            lemma_topic_dom(ts);
        }
        let (ti, tfound) = find_topic(topics, topic);
        if !tfound {
            return None;
        }
        proof {
            lemma_topic_lookup(ts, ti as int);
            assert(ts[ti as int].0 == topic@);
        }
        Some(topics[ti].users.clone())
    }

    /// Get all topics a user is subscribed to in a chat, sorted; nothing
    /// when the chat is unknown or the user follows no topic in it
    pub fn get_topics_from_subscriber(&self, chat_id: i64, user_id: &str) -> (r: Option<Vec<String>>)
        requires
            self.wf(),
        ensures
            r is Some <==> (self.model().contains_key(chat_id) && exists|t: Seq<char>|
                self.model()[chat_id].contains_key(t) && #[trigger] self.model()[chat_id][t].contains(
                    user_id@,
                )),
            r matches Some(v) ==> strictly_sorted(views(v@)) && views(v@).to_set()
                == self.model()[chat_id].dom().filter(
                |t: Seq<char>| self.model()[chat_id][t].contains(user_id@),
            ),
    {
        proof {
            lemma_chat_dom(self.listing());
        }
        let (ci, found) = find_chat(&self.chats, chat_id);
        if !found {
            return None;
        }
        let topics = &self.chats[ci].topics;
        let ghost ts = topics_view(topics@);
        let ghost m = self.model()[chat_id];
        proof {
            assert(self.listing()[ci as int] == chat_view(self.chats@[ci as int]));
            lemma_chat_lookup(self.listing(), ci as int);
            lemma_topic_dom(ts);
        }
        let mut out: Vec<String> = Vec::new();
        let mut i: usize = 0;
        while i < topics.len()
            invariant
                ts == topics_view(topics@),
                topics_ok(ts),
                i <= topics@.len(),
                views(out@) == topics_with(ts.take(i as int), user_id@),
            decreases topics@.len() - i,
        {
            assert(ts[i as int] == topic_view(topics@[i as int]));
            assert(strictly_sorted(ts[i as int].1));
            let (_, ufound) = find_user(&topics[i].users, user_id);
            assert(ts.take(i + 1).drop_last() =~= ts.take(i as int));
            if ufound {
                out.push(topics[i].topic.clone());
            }
            i = i + 1;
            assert(views(out@) =~= topics_with(ts.take(i as int), user_id@));
        }
        assert(ts.take(topics@.len() as int) =~= ts);
        let ghost w = topics_with(ts, user_id@);
        let ghost f = m.dom().filter(|t: Seq<char>| m[t].contains(user_id@));
        proof {
            lemma_topics_with_sorted(ts, user_id@);
            assert forall|x: Seq<char>| w.to_set().contains(x) <==> f.contains(x) by {
                lemma_topics_with_contains(ts, user_id@, x);
                if w.contains(x) {
                    let k = choose|k: int| 0 <= k < ts.len() && ts[k].0 == x && #[trigger] ts[k].1.contains(user_id@);
                    lemma_topic_lookup(ts, k);
                }
                if f.contains(x) {
                    assert(keys(ts).to_set().contains(x));
                    let k = choose|k: int| 0 <= k < keys(ts).len() && keys(ts)[k] == x;
                    lemma_topic_lookup(ts, k);
                    assert(ts[k].1.to_set().contains(user_id@));
                    assert(ts[k].1.contains(user_id@));
                }
            }
            assert(w.to_set() =~= f);
        }
        if out.len() == 0 {
            proof {
                if exists|t: Seq<char>| m.contains_key(t) && #[trigger] m[t].contains(user_id@) {
                    let t = choose|t: Seq<char>| m.contains_key(t) && #[trigger] m[t].contains(user_id@);
                    assert(f.contains(t));
                    assert(w.to_set().contains(t));
                }
            }
            None
        } else {
            proof {
                assert(w.to_set().contains(w[0]));
                assert(f.contains(w[0]));
            }
            Some(out)
        }
    }

    /// Check if a topic exists in a chat
    pub fn does_group_have_topic(&self, chat_id: i64, topic: &str) -> (r: bool)
        requires
            self.wf(),
        ensures
            r == (self.model().contains_key(chat_id) && self.model()[chat_id].contains_key(topic@)),
    {
        proof {
            lemma_chat_dom(self.listing());
        }
        let (ci, found) = find_chat(&self.chats, chat_id);
        if !found {
            return false;
        }
        let topics = &self.chats[ci].topics;
        proof {
            assert(self.listing()[ci as int] == chat_view(self.chats@[ci as int]));
            lemma_chat_lookup(self.listing(), ci as int);
            lemma_topic_dom(topics_view(topics@));
        }
        let (_, tfound) = find_topic(topics, topic);
        tfound
    }

    /// Check if a user is subscribed to a topic
    pub fn is_subscriber_in_topic(&self, chat_id: i64, user_id: &str, topic: &str) -> (r: bool)
        requires
            self.wf(),
        ensures
            r == (self.model().contains_key(chat_id) && self.model()[chat_id].contains_key(topic@)
                && self.model()[chat_id][topic@].contains(user_id@)),
    {
        proof {
            lemma_chat_dom(self.listing());
        }
        let (ci, found) = find_chat(&self.chats, chat_id);
        if !found {
            return false;
        }
        let topics = &self.chats[ci].topics;
        let ghost ts = topics_view(topics@);
        proof {
            assert(self.listing()[ci as int] == chat_view(self.chats@[ci as int]));
            lemma_chat_lookup(self.listing(), ci as int);
            lemma_topic_dom(ts);
        }
        let (ti, tfound) = find_topic(topics, topic);
        if !tfound {
            return false;
        }
        proof {
            lemma_topic_lookup(ts, ti as int);
            assert(ts[ti as int] == topic_view(topics@[ti as int]));
            assert(strictly_sorted(ts[ti as int].1));
        }
        let (_, ufound) = find_user(&topics[ti].users, user_id);
        ufound
    }

    /// Remove a subscription from the cache: `user_id` leaves topic `topic`
    /// of chat `chat_id`; a topic left without users is dropped, and so is
    /// a chat left without topics. Tells whether the user was subscribed.
    pub fn remove_subscription(&mut self, chat_id: i64, topic: &str, user_id: &str) -> (r: bool)
        requires
            old(self).wf(),
        ensures
            final(self).wf(),
            final(self).model() == model_remove(old(self).model(), chat_id, topic@, user_id@),
            r == (old(self).model().contains_key(chat_id) && old(self).model()[chat_id].contains_key(
                topic@,
            ) && old(self).model()[chat_id][topic@].contains(user_id@)),
    {
        let ghost l0 = self.listing();
        let ghost m0 = self.model();
        proof {
            lemma_chat_dom(l0);
            lemma_chat_keys(l0);
            lemma_ids_no_duplicates(l0);
        }
        let (ci, found) = find_chat(&self.chats, chat_id);
        if !found {
            return false;
        }
        let mut entry = self.chats.remove(ci);
        let ghost tm0 = topics_model(topics_view(entry.topics@));
        proof {
            assert(l0[ci as int] == chat_view(entry));
            lemma_chat_lookup(l0, ci as int);
            assert(tm0 == m0[chat_id]);
        }
        let removed = remove_user_from_topics(&mut entry.topics, topic, user_id);
        let ghost newm = topics_remove(tm0, topic@, user_id@);
        if entry.topics.len() > 0 {
            let ghost v = chat_view(entry);
            self.chats.insert(ci, entry);
            proof {
                let l1 = self.listing();
                assert(l1 =~= l0.update(ci as int, v));
                assert(chat_pairs(l1) =~= chat_pairs(l0).update(
                    ci as int,
                    (chat_pairs(l0)[ci as int].0, newm),
                ));
                lemma_assoc_update(chat_pairs(l0), ci as int, newm);
                assert forall|a: int, b: int| 0 <= a < b < l1.len() implies #[trigger] l1[a].0
                    < #[trigger] l1[b].0 by {
                    assert(l1[a].0 == l0[a].0 && l1[b].0 == l0[b].0);
                }
                assert forall|k: int| 0 <= k < l1.len() implies (#[trigger] l1[k]).1.len() > 0
                    && topics_ok(l1[k].1) by {
                    if k != ci {
                        assert(l1[k] == l0[k]);
                    }
                }
                if !tm0.contains_key(topic@) {
                    assert(m0.insert(chat_id, tm0) =~= m0);
                }
            }
        } else {
            proof {
                let l1 = self.listing();
                assert(l1 =~= l0.remove(ci as int));
                assert(chat_pairs(l1) =~= chat_pairs(l0).remove(ci as int));
                lemma_assoc_remove(chat_pairs(l0), ci as int);
                assert forall|a: int, b: int| 0 <= a < b < l1.len() implies #[trigger] l1[a].0
                    < #[trigger] l1[b].0 by {
                    let a2 = if a < ci { a } else { a + 1 };
                    let b2 = if b < ci { b } else { b + 1 };
                    assert(l1[a] == l0[a2] && l1[b] == l0[b2]);
                }
                assert forall|k: int| 0 <= k < l1.len() implies (#[trigger] l1[k]).1.len() > 0
                    && topics_ok(l1[k].1) by {
                    if k < ci {
                        assert(l1[k] == l0[k]);
                    } else {
                        assert(l1[k] == l0[k + 1]);
                    }
                }
                if !tm0.contains_key(topic@) {
                    assert(tm0.dom().contains(keys(topics_view(entry.topics@))[0])) by {
                        assert(l0[ci as int].1.len() > 0);
                        lemma_topic_dom(l0[ci as int].1);
                        assert(keys(l0[ci as int].1).to_set().contains(keys(l0[ci as int].1)[0]));
                    }
                }
            }
        }
        removed
    }

    /// Get cache statistics: the number of chats, of (chat, topic) pairs
    /// and of (chat, topic, user) subscriptions. The totals are summed in
    /// `usize` and wrap around past `usize::MAX`.
    pub fn get_stats(&self) -> (r: CacheStats)
        requires
            self.wf(),
        ensures
            r.total_chats == self.model().dom().len(),
            r.total_topics == topic_pairs_in(self.model()).len() % (usize::MAX as nat + 1),
            r.total_subscriptions == subscription_triples(self.model()).len() % (usize::MAX as nat
                + 1),
    {
        let ghost l = self.listing();
        let ghost big: nat = usize::MAX as nat + 1;
        let mut total_topics: usize = 0;
        let mut total_subscriptions: usize = 0;
        let mut i: usize = 0;
        assert(l.take(0) =~= Seq::<(i64, TopicListing)>::empty());
        while i < self.chats.len()
            invariant
                l == self.listing(),
                l == listing_of(self.chats@),
                big == usize::MAX as nat + 1,
                i <= self.chats@.len(),
                total_topics == count_topics(l.take(i as int)) % big,
                total_subscriptions == count_users(l.take(i as int)) % big,
            decreases self.chats@.len() - i,
        {
            let topics = &self.chats[i].topics;
            let ghost ts = topics_view(topics@);
            let n_topics = topics.len();
            proof {
                assert(l[i as int] == chat_view(self.chats@[i as int]));
                assert(l.take(i + 1).drop_last() =~= l.take(i as int));
                assert(l.take(i + 1).last() == l[i as int]);
                lemma_wrap_step(count_topics(l.take(i as int)), n_topics as nat, big);
            }
            total_topics = total_topics.wrapping_add(n_topics);
            let ghost base = count_users(l.take(i as int));
            let mut j: usize = 0;
            assert(ts.take(0) =~= Seq::<(Seq<char>, Seq<Seq<char>>)>::empty());
            while j < topics.len()
                invariant
                    ts == topics_view(topics@),
                    big == usize::MAX as nat + 1,
                    j <= topics@.len(),
                    total_subscriptions == (base + count_users_in(ts.take(j as int))) % big,
                decreases topics@.len() - j,
            {
                let n_users = topics[j].users.len();
                proof {
                    assert(ts[j as int] == topic_view(topics@[j as int]));
                    assert(ts.take(j + 1).drop_last() =~= ts.take(j as int));
                    assert(ts.take(j + 1).last() == ts[j as int]);
                    lemma_wrap_step(base + count_users_in(ts.take(j as int)), n_users as nat, big);
                }
                total_subscriptions = total_subscriptions.wrapping_add(n_users);
                j = j + 1;
            }
            assert(ts.take(topics@.len() as int) =~= ts);
            i = i + 1;
        }
        assert(l.take(self.chats@.len() as int) =~= l);
        proof {
            lemma_listing_counts(l);
            lemma_chat_dom(l);
            lemma_ids_no_duplicates(l);
            let ks = keys(l);
            assert(ks.no_duplicates());
            ks.unique_seq_to_set();
            assert(ks.len() == self.chats@.len());
        }
        CacheStats {
            total_chats: self.chats.len(),
            total_topics,
            total_subscriptions,
        }
    }

    /// Clear the entire cache
    pub fn clear(&mut self)
        ensures
            final(self).wf(),
            final(self).model().dom() == Set::<i64>::empty(),
    {
        self.chats = Vec::new();
        assert(self.model().dom() =~= Set::<i64>::empty());
    }

    /// Load all subscriptions from database rows (chat, topic, user) into
    /// the cache, replacing what it held
    pub fn warm_from_db(&mut self, subscriptions: Vec<(i64, String, String)>)
        ensures
            final(self).wf(),
            final(self).model() == rows_model(
                subscriptions@.map_values(|r: (i64, String, String)| (r.0, r.1@, r.2@)),
            ),
    {
        let ghost rows = subscriptions@.map_values(|r: (i64, String, String)| (r.0, r.1@, r.2@));
        self.clear();
        assert(self.model() =~= rows_model(rows.take(0)));
        let mut i: usize = 0;
        while i < subscriptions.len()
            invariant
                rows == subscriptions@.map_values(|r: (i64, String, String)| (r.0, r.1@, r.2@)),
                i <= subscriptions@.len(),
                self.wf(),
                self.model() == rows_model(rows.take(i as int)),
            decreases subscriptions@.len() - i,
        {
            let (chat_id, topic, user_id) = &subscriptions[i];
            self.add_subscription(*chat_id, topic.as_str(), user_id.as_str());
            assert(rows.take(i + 1).drop_last() =~= rows.take(i as int));
            i = i + 1;
        }
        assert(rows.take(subscriptions@.len() as int) =~= rows);
    }
}

/// Whether user `u` is in topic `t` of chat `c` in `m`.
pub open spec fn subscribed_in(m: CacheModel, c: i64, t: Seq<char>, u: Seq<char>) -> bool {
    m.contains_key(c) && m[c].contains_key(t) && m[c][t].contains(u)
}

/// Adding users to a topic adds exactly those memberships.
pub proof fn lemma_add_membership(
    m: CacheModel,
    c0: i64,
    t0: Seq<char>,
    users: Set<Seq<char>>,
    c: i64,
    t: Seq<char>,
    u: Seq<char>,
)
    ensures
        subscribed_in(model_add(m, c0, t0, users), c, t, u) <==> ((c == c0 && t == t0
            && users.contains(u)) || subscribed_in(m, c, t, u)),
{
}

/// Removing a user from a topic removes exactly that membership.
pub proof fn lemma_remove_membership(
    m: CacheModel,
    c0: i64,
    t0: Seq<char>,
    u0: Seq<char>,
    c: i64,
    t: Seq<char>,
    u: Seq<char>,
)
    ensures
        subscribed_in(model_remove(m, c0, t0, u0), c, t, u) <==> (subscribed_in(m, c, t, u) && !(c
            == c0 && t == t0 && u == u0)),
{
    if m.contains_key(c0) && m[c0].contains_key(t0) && c == c0 {
        let users = m[c0][t0].remove(u0);
        let topics = topics_remove(m[c0], t0, u0);
        if t == t0 {
            if users == Set::<Seq<char>>::empty() {
                assert(!users.contains(u));
            }
        } else {
            assert(topics.contains_key(t) == m[c0].contains_key(t));
            if m[c0].contains_key(t) {
                assert(topics[t] == m[c0][t]);
                assert(topics.dom().contains(t));
            }
        }
        if topics.dom() == Set::<Seq<char>>::empty() {
            assert(!topics.dom().contains(t));
        }
    }
}

/// Each (chat, topic) pair that `m` holds.
pub open spec fn topic_pairs_in(m: CacheModel) -> Set<(i64, Seq<char>)> {
    Set::new(|p: (i64, Seq<char>)| m.contains_key(p.0) && m[p.0].contains_key(p.1))
}

/// Each (chat, topic, user) subscription that `m` holds.
pub open spec fn subscription_triples(m: CacheModel) -> Set<(i64, Seq<char>, Seq<char>)> {
    Set::new(|x: (i64, Seq<char>, Seq<char>)| subscribed_in(m, x.0, x.1, x.2))
}

/// After a user joins a topic of a chat, the cache holds the chat, the
/// topic and the user in it, and every other chat is as it was.
pub proof fn law_cache_add_then_query(m: CacheModel, c: i64, t: Seq<char>, u: Seq<char>)
    ensures
        subscribed_in(model_add(m, c, t, set![u]), c, t, u),
        forall|d: i64| #![trigger model_add(m, c, t, set![u]).contains_key(d)]
            d != c ==> (model_add(m, c, t, set![u]).contains_key(d) == m.contains_key(d)),
        forall|d: i64| #![trigger model_add(m, c, t, set![u])[d]]
            d != c && m.contains_key(d) ==> model_add(m, c, t, set![u])[d] == m[d],
        forall|t2: Seq<char>, v: Seq<char>|
            #![trigger subscribed_in(model_add(m, c, t, set![u]), c, t2, v)]
            subscribed_in(m, c, t2, v) ==> subscribed_in(model_add(m, c, t, set![u]), c, t2, v),
{
    assert forall|t2: Seq<char>, v: Seq<char>| subscribed_in(m, c, t2, v) implies subscribed_in(
        model_add(m, c, t, set![u]),
        c,
        t2,
        v,
    ) by {
        lemma_add_membership(m, c, t, set![u], c, t2, v);
    }
}

/// After a user leaves a topic of a chat, the cache no longer has them
/// there, and every other user of that topic stays.
pub proof fn law_cache_remove_then_query(m: CacheModel, c: i64, t: Seq<char>, u: Seq<char>)
    ensures
        !subscribed_in(model_remove(m, c, t, u), c, t, u),
        forall|v: Seq<char>| #![trigger subscribed_in(model_remove(m, c, t, u), c, t, v)]
            v != u && subscribed_in(m, c, t, v) ==> subscribed_in(model_remove(m, c, t, u), c, t, v),
{
    if m.contains_key(c) && m[c].contains_key(t) {
        assert forall|v: Seq<char>| v != u && subscribed_in(m, c, t, v) implies subscribed_in(
            model_remove(m, c, t, u),
            c,
            t,
            v,
        ) by {
            let users = m[c][t].remove(u);
            assert(users.contains(v));
            assert(users != Set::<Seq<char>>::empty());
            let topics = topics_remove(m[c], t, u);
            assert(topics.contains_key(t));
            assert(topics.dom() != Set::<Seq<char>>::empty());
        }
    }
}

/// A user who joins a topic and leaves it again leaves the cache as it
/// was, when they were not in the topic before (and the chat, if known,
/// has a topic, and the topic, if known, has a user).
pub proof fn law_cache_add_remove_roundtrip(m: CacheModel, c: i64, t: Seq<char>, u: Seq<char>)
    requires
        !users_of(topics_of(m, c), t).contains(u),
        m.contains_key(c) ==> m[c].dom() != Set::<Seq<char>>::empty(),
        m.contains_key(c) && m[c].contains_key(t) ==> m[c][t] != Set::<Seq<char>>::empty(),
    ensures
        model_remove(model_add(m, c, t, set![u]), c, t, u) == m,
{
    let tm = topics_of(m, c);
    let us = users_of(tm, t);
    let m1 = model_add(m, c, t, set![u]);
    assert(us.union(set![u]).remove(u) =~= us);
    let topics = topics_remove(m1[c], t, u);
    if tm.contains_key(t) {
        assert(topics =~= tm);
        assert(m.contains_key(c));
        assert(topics.contains_key(t));
        assert(m1.insert(c, topics) =~= m);
    } else {
        assert(us =~= Set::<Seq<char>>::empty());
        assert(topics =~= tm);
        if m.contains_key(c) {
            assert(m1.insert(c, topics) =~= m);
        } else {
            assert(tm.dom() =~= Set::<Seq<char>>::empty());
            assert(m1.remove(c) =~= m);
        }
    }
}

/// The cache loaded from subscription rows holds a user in a topic of a
/// chat exactly when that row was loaded.
pub proof fn law_rows_membership(
    rows: Seq<(i64, Seq<char>, Seq<char>)>,
    c: i64,
    t: Seq<char>,
    u: Seq<char>,
)
    ensures
        subscribed_in(rows_model(rows), c, t, u) <==> rows.contains((c, t, u)),
    decreases rows.len(),
{
    if rows.len() > 0 {
        let d = rows.drop_last();
        let r = rows.last();
        law_rows_membership(d, c, t, u);
        lemma_add_membership(rows_model(d), r.0, r.1, set![r.2], c, t, u);
        if d.contains((c, t, u)) {
            let k = choose|k: int| 0 <= k < d.len() && d[k] == (c, t, u);
            assert(rows[k] == (c, t, u));
        }
        if rows.contains((c, t, u)) {
            let k = choose|k: int| 0 <= k < rows.len() && rows[k] == (c, t, u);
            if k < rows.len() - 1 {
                assert(d[k] == (c, t, u));
            }
        }
        if r == (c, t, u) {
            assert(rows[rows.len() - 1] == (c, t, u));
        }
    }
}

/// Every chat that the cache holds has at least one topic.
pub proof fn law_cache_chats_have_topics(cache: SubscriptionCache)
    requires
        cache.wf(),
    ensures
        forall|c: i64| #[trigger] cache.model().contains_key(c) ==> cache.model()[c].dom() != Set::<
            Seq<char>,
        >::empty(),
{
    let l = cache.listing();
    assert forall|c: i64| #[trigger] cache.model().contains_key(c) implies cache.model()[c].dom()
        != Set::<Seq<char>>::empty() by {
        lemma_chat_dom(l);
        assert(keys(l).to_set().contains(c));
        let i = choose|i: int| 0 <= i < keys(l).len() && keys(l)[i] == c;
        lemma_chat_lookup(l, i);
        lemma_topic_dom(l[i].1);
        assert(keys(l[i].1).to_set().contains(keys(l[i].1)[0]));
    }
}

/// In-memory cache for subscription data
pub struct SubscriptionCache {
    chats: Vec<ChatEntry>,
}

} // verus!
