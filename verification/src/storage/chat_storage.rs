//! In-memory storage of chats, their topics and subscribers.
//!
//! Each chat keeps two maps that mirror each other: topic to subscribers
//! and subscriber to topics. Every operation keeps them in step, keeps no
//! subscriber without a topic, and keeps a chat within
//! `MAX_TOPICS_PER_CHAT` topics and each topic within
//! `MAX_SUBSCRIBERS_PER_TOPIC` subscribers.

use vstd::prelude::*;

use crate::constants::{MAX_SUBSCRIBERS_PER_TOPIC, MAX_TOPICS_PER_CHAT};
use crate::error::BotError;
use crate::storage::collections::{
    group_map_contents, id_set_contents, id_set_map_contents, string_set_contents,
    string_set_map_contents, GroupMap, IdSet, IdSetMap, StringSet, StringSetMap,
};
use crate::storage::{SubscriberInfo, TopicInfo};
use crate::text::{concat3, decimal, usize_text, views};

verus! {

/// Topic names (or user references) mapped to sets of user references (or
/// topic names).
pub type Subscriptions = Map<Seq<char>, Set<Seq<char>>>;

/// The view of a chat: topic to subscribers, and subscriber to topics.
pub type GroupView = (Subscriptions, Subscriptions);

/// Data structure for a single chat group
pub struct Group {
    /// Maps user_id -> set of topics they're subscribed to
    pub(crate) user_topics: StringSetMap,
    /// Maps topic -> set of user_ids subscribed to it
    pub(crate) topic_users: StringSetMap,
}

impl View for Group {
    type V = GroupView;

    closed spec fn view(&self) -> GroupView {
        (string_set_map_contents(self.topic_users), string_set_map_contents(self.user_topics))
    }
}

/// The set under `k`, or the empty set when `k` is absent.
pub open spec fn lookup(m: Subscriptions, k: Seq<char>) -> Set<Seq<char>> {
    if m.contains_key(k) {
        m[k]
    } else {
        Set::empty()
    }
}

/// User `u` is subscribed to topic `t` in the topic-to-users map of `g`.
pub open spec fn subscribed(g: GroupView, t: Seq<char>, u: Seq<char>) -> bool {
    g.0.contains_key(t) && g.0[t].contains(u)
}

/// Topic `t` is listed for user `u` in the user-to-topics map of `g`.
pub open spec fn listed(g: GroupView, u: Seq<char>, t: Seq<char>) -> bool {
    g.1.contains_key(u) && g.1[u].contains(t)
}

/// A chat without topics and subscribers.
pub open spec fn empty_group() -> GroupView {
    (Map::empty(), Map::empty())
}

/// Well-formedness of a chat: finite, the two maps mirror each other, no
/// subscriber without topics, and within the limits.
pub open spec fn group_wf(g: GroupView) -> bool {
    &&& g.0.dom().finite()
    &&& g.1.dom().finite()
    &&& forall|t: Seq<char>| #[trigger] g.0.contains_key(t) ==> g.0[t].finite()
    &&& forall|u: Seq<char>| #[trigger] g.1.contains_key(u) ==> g.1[u].finite()
    &&& forall|t: Seq<char>, u: Seq<char>|
        #![trigger subscribed(g, t, u)]
        #![trigger listed(g, u, t)]
        subscribed(g, t, u) <==> listed(g, u, t)
    &&& forall|u: Seq<char>| #[trigger] g.1.contains_key(u) ==> g.1[u] != Set::<Seq<char>>::empty()
    &&& g.0.dom().len() <= MAX_TOPICS_PER_CHAT
    &&& forall|t: Seq<char>| #[trigger] g.0.contains_key(t) ==> g.0[t].len()
        <= MAX_SUBSCRIBERS_PER_TOPIC
}

/// `g` with topic `t` present (created without subscribers when absent).
pub open spec fn with_topic(g: GroupView, t: Seq<char>) -> GroupView {
    (g.0.insert(t, lookup(g.0, t)), g.1)
}

/// `g` after subscribing every user of `users` to topic `t`.
pub open spec fn add_subscribers(g: GroupView, t: Seq<char>, users: Set<Seq<char>>) -> GroupView {
    (
        g.0.insert(t, lookup(g.0, t).union(users)),
        g.1.union_prefer_right(users.mk_map(|u: Seq<char>| lookup(g.1, u).insert(t))),
    )
}

/// `g` after unsubscribing user `u` from topic `t`; a topic or a user left
/// with an empty set is dropped.
pub open spec fn remove_subscriber(g: GroupView, t: Seq<char>, u: Seq<char>) -> GroupView {
    (drop_pair(g.0, t, u), drop_pair(g.1, u, t))
}

/// `m` with `v` removed from the set under `k`, dropping `k` when its set
/// becomes empty.
pub open spec fn drop_pair(m: Subscriptions, k: Seq<char>, v: Seq<char>) -> Subscriptions {
    if m.contains_key(k) {
        if m[k].remove(v) == Set::<Seq<char>>::empty() {
            m.remove(k)
        } else {
            m.insert(k, m[k].remove(v))
        }
    } else {
        m
    }
}

/// The chat's view in `chats`, or an empty chat when it is absent.
pub open spec fn group_of(chats: Map<i64, GroupView>, chat_id: i64) -> GroupView {
    if chats.contains_key(chat_id) {
        chats[chat_id]
    } else {
        empty_group()
    }
}

/// Whether a chat still holds anything: a topic or a subscriber.
pub open spec fn group_in_use(g: GroupView) -> bool {
    g.0.dom() != Set::<Seq<char>>::empty() || g.1.dom() != Set::<Seq<char>>::empty()
}

/// The ids under `k`, or the empty set when `k` is absent.
pub open spec fn id_lookup(m: Map<i64, Set<i32>>, k: i64) -> Set<i32> {
    if m.contains_key(k) {
        m[k]
    } else {
        Set::empty()
    }
}

/// Text of the error for a chat at its topic limit.
pub open spec fn topic_limit_text() -> Seq<char> {
    "Maximum number of topics ("@ + decimal(MAX_TOPICS_PER_CHAT as nat) + ") reached"@
}

/// Text of the error for a topic whose subscriber limit would be passed.
pub open spec fn subscriber_limit_text() -> Seq<char> {
    "Maximum number of subscribers ("@ + decimal(MAX_SUBSCRIBERS_PER_TOPIC as nat)
        + ") would be exceeded"@
}

/// How subscribing users to a topic ends.
#[derive(Debug, Clone, Copy, PartialEq, Eq, Structural)]
pub enum SubscribeOutcome {
    /// The users are subscribed
    Subscribed,
    /// The chat is at its topic limit and the topic is new
    TopicLimit,
    /// The topic's subscriber limit would be passed
    SubscriberLimit,
}

/// How subscribing `n` users (counted with repetitions) to topic `t` of
/// chat `g` ends.
pub open spec fn subscribe_outcome(g: GroupView, t: Seq<char>, n: nat) -> SubscribeOutcome {
    if g.0.dom().len() >= MAX_TOPICS_PER_CHAT && !g.0.contains_key(t) {
        SubscribeOutcome::TopicLimit
    } else if lookup(g.0, t).len() + n > MAX_SUBSCRIBERS_PER_TOPIC {
        SubscribeOutcome::SubscriberLimit
    } else {
        SubscribeOutcome::Subscribed
    }
}

/// Chat `g` after an attempt to subscribe `users` to topic `t`: unchanged
/// at the topic limit; with the topic created (but no one subscribed) at
/// the subscriber limit; otherwise with every user subscribed.
pub open spec fn group_after_subscribe(g: GroupView, t: Seq<char>, users: Seq<Seq<char>>) -> GroupView {
    match subscribe_outcome(g, t, users.len()) {
        SubscribeOutcome::TopicLimit => g,
        SubscribeOutcome::SubscriberLimit => with_topic(g, t),
        SubscribeOutcome::Subscribed => add_subscribers(g, t, users.to_set()),
    }
}

/// The views of a slice of string slices.
pub open spec fn str_views(items: Seq<&str>) -> Seq<Seq<char>> {
    items.map_values(|s: &str| s@)
}

/// The list `v` holds the strings of `s`, each once.
pub open spec fn lists(v: Seq<String>, s: Set<Seq<char>>) -> bool {
    views(v).no_duplicates() && views(v).to_set() == s
}

/// Represents topic and subscriber information for a chat
#[derive(Debug, Clone)]
pub struct ChatTopics {
    /// Each topic with its subscribers
    pub topics: Vec<TopicInfo>,
    /// Each subscriber with their topics
    pub subscribers: Vec<SubscriberInfo>,
}

/// `c` describes the chat `g`: each topic once with its subscribers, and
/// each subscriber once with their topics.
pub open spec fn describes(c: ChatTopics, g: GroupView) -> bool {
    &&& c.topics@.map_values(|i: TopicInfo| i.name@).no_duplicates()
    &&& c.topics@.map_values(|i: TopicInfo| i.name@).to_set() == g.0.dom()
    &&& forall|i: int|
        0 <= i < c.topics@.len() ==> #[trigger] lists(c.topics@[i].subscribers@, g.0[c.topics@[i].name@])
    &&& c.subscribers@.map_values(|i: SubscriberInfo| i.user_id@).no_duplicates()
    &&& c.subscribers@.map_values(|i: SubscriberInfo| i.user_id@).to_set() == g.1.dom()
    &&& forall|i: int|
        0 <= i < c.subscribers@.len() ==> #[trigger] lists(
            c.subscribers@[i].topics@,
            g.1[c.subscribers@[i].user_id@],
        )
}

proof fn lemma_add_subscribers_wf(g: GroupView, t: Seq<char>, p: Set<Seq<char>>, n: nat)
    requires
        group_wf(g),
        p.finite(),
        p.len() <= n,
        subscribe_outcome(g, t, n) == SubscribeOutcome::Subscribed,
    ensures
        group_wf(add_subscribers(g, t, p)),
{
    let h = add_subscribers(g, t, p);
    let f = |u: Seq<char>| lookup(g.1, u).insert(t);
    assert(h.1.dom() =~= g.1.dom().union(p));
    assert(lookup(g.0, t).finite());
    vstd::set_lib::lemma_len_union(lookup(g.0, t), p);
    assert forall|t2: Seq<char>| #[trigger] h.0.contains_key(t2) implies h.0[t2].finite()
        && h.0[t2].len() <= MAX_SUBSCRIBERS_PER_TOPIC by {
        if t2 != t {
            assert(g.0.contains_key(t2));
        }
    }
    assert forall|u: Seq<char>| #[trigger] h.1.contains_key(u) implies h.1[u].finite() && h.1[u]
        != Set::<Seq<char>>::empty() by {
        if p.contains(u) {
            assert(h.1[u] == f(u));
            assert(h.1[u].contains(t));
        } else {
            assert(g.1.contains_key(u));
        }
    }
    assert forall|t2: Seq<char>, u: Seq<char>|
        subscribed(h, t2, u) <==> listed(h, u, t2) by {
        if p.contains(u) {
            assert(h.1[u] == f(u));
            if t2 == t {
                assert(subscribed(h, t2, u));
                assert(listed(h, u, t2));
            } else {
                assert(subscribed(h, t2, u) <==> subscribed(g, t2, u));
                assert(listed(h, u, t2) <==> listed(g, u, t2));
            }
        } else {
            if t2 == t {
                assert(subscribed(h, t2, u) <==> subscribed(g, t2, u));
            } else {
                assert(subscribed(h, t2, u) <==> subscribed(g, t2, u));
            }
            assert(listed(h, u, t2) <==> listed(g, u, t2));
        }
    }
    if !g.0.contains_key(t) {
        assert(h.0.dom() =~= g.0.dom().insert(t));
    } else {
        assert(h.0.dom() =~= g.0.dom());
    }
}

proof fn lemma_with_topic_wf(g: GroupView, t: Seq<char>)
    requires
        group_wf(g),
        !(g.0.dom().len() >= MAX_TOPICS_PER_CHAT && !g.0.contains_key(t)),
    ensures
        group_wf(with_topic(g, t)),
{
    let h = with_topic(g, t);
    assert forall|t2: Seq<char>, u: Seq<char>|
        subscribed(h, t2, u) <==> listed(h, u, t2) by {
        assert(subscribed(h, t2, u) <==> subscribed(g, t2, u));
    }
    if !g.0.contains_key(t) {
        assert(h.0.dom() =~= g.0.dom().insert(t));
    } else {
        assert(h.0.dom() =~= g.0.dom());
    }
}

proof fn lemma_drop_pair(m: Subscriptions, k: Seq<char>, v: Seq<char>, k2: Seq<char>, v2: Seq<char>)
    ensures
        (drop_pair(m, k, v).contains_key(k2) && drop_pair(m, k, v)[k2].contains(v2)) <==> (
        m.contains_key(k2) && m[k2].contains(v2) && !(k2 == k && v2 == v)),
{
    if m.contains_key(k) && k2 == k {
        assert(m[k].remove(v).contains(v2) == (m[k].contains(v2) && v2 != v));
        if m[k].remove(v) == Set::<Seq<char>>::empty() {
            assert(!m[k].remove(v).contains(v2));
        }
    }
}

proof fn lemma_remove_subscriber_wf(g: GroupView, t: Seq<char>, u: Seq<char>)
    requires
        group_wf(g),
    ensures
        group_wf(remove_subscriber(g, t, u)),
{
    let h = remove_subscriber(g, t, u);
    assert forall|t2: Seq<char>, u2: Seq<char>|
        subscribed(h, t2, u2) <==> listed(h, u2, t2) by {
        lemma_drop_pair(g.0, t, u, t2, u2);
        lemma_drop_pair(g.1, u, t, u2, t2);
        assert(subscribed(g, t2, u2) <==> listed(g, u2, t2));
    }
    assert(h.0.dom().subset_of(g.0.dom()));
    vstd::set_lib::lemma_len_subset(h.0.dom(), g.0.dom());
    assert(h.1.dom().subset_of(g.1.dom()));
    assert forall|t2: Seq<char>| #[trigger] h.0.contains_key(t2) implies h.0[t2].finite()
        && h.0[t2].len() <= MAX_SUBSCRIBERS_PER_TOPIC by {
        assert(g.0.contains_key(t2));
        vstd::set_lib::lemma_len_subset(h.0[t2], g.0[t2]);
    }
}

impl Group {
    /// A chat without topics and subscribers.
    pub fn new() -> (r: Group)
        ensures
            r@ == empty_group(),
    {
        let g = Group { user_topics: StringSetMap::new(), topic_users: StringSetMap::new() };
        assert(g@.0 =~= Map::empty());
        assert(g@.1 =~= Map::empty());
        g
    }

    /// The chat's topics with their subscribers and its subscribers with
    /// their topics.
    pub fn to_chat_topics(&self) -> (r: ChatTopics)
        ensures
            describes(r, self@),
    {
        let ghost g = self@;
        let names = self.topic_users.keys();
        let mut topics: Vec<TopicInfo> = Vec::new();
        let mut i: usize = 0;
        while i < names.len()
            invariant
                g == self@,
                i <= names@.len(),
                topics@.len() == i,
                lists(names@, g.0.dom()),
                forall|j: int| 0 <= j < i ==> (#[trigger] topics@[j]).name@ == names@[j]@,
                forall|j: int|
                    0 <= j < i ==> lists(#[trigger] topics@[j].subscribers@, g.0[topics@[j].name@]),
            decreases names@.len() - i,
        {
            let name = &names[i];
            assert(views(names@)[i as int] == names@[i as int]@);
            assert(g.0.dom().contains(name@));
            let subscribers = match self.topic_users.get(name.as_str()) {
                Some(set) => set.to_vec(),
                None => {
                    proof {
                        assert(false);
                    }
                    Vec::new()
                },
            };
            let ghost prev = topics@;
            topics.push(TopicInfo { name: name.clone(), subscribers });
            assert(topics@ == prev.push(topics@[i as int]));
            assert(topics@[i as int].name@ == names@[i as int]@);
            assert(lists(topics@[i as int].subscribers@, g.0[topics@[i as int].name@]));
            assert forall|j: int| 0 <= j < i + 1 implies lists(
                #[trigger] topics@[j].subscribers@,
                g.0[topics@[j].name@],
            ) by {
                if j < i {
                    assert(topics@[j] == prev[j]);
                    assert(lists(prev[j].subscribers@, g.0[prev[j].name@]));
                }
            }
            i = i + 1;
        }
        assert(topics@.map_values(|t: TopicInfo| t.name@) =~= views(names@));
        let users = self.user_topics.keys();
        let mut subscribers: Vec<SubscriberInfo> = Vec::new();
        let mut i: usize = 0;
        while i < users.len()
            invariant
                g == self@,
                i <= users@.len(),
                subscribers@.len() == i,
                lists(users@, g.1.dom()),
                forall|j: int| 0 <= j < i ==> (#[trigger] subscribers@[j]).user_id@ == users@[j]@,
                forall|j: int|
                    0 <= j < i ==> lists(
                        #[trigger] subscribers@[j].topics@,
                        g.1[subscribers@[j].user_id@],
                    ),
            decreases users@.len() - i,
        {
            let user = &users[i];
            assert(views(users@)[i as int] == users@[i as int]@);
            assert(g.1.dom().contains(user@));
            let user_topics = match self.user_topics.get(user.as_str()) {
                Some(set) => set.to_vec(),
                None => {
                    proof {
                        assert(false);
                    }
                    Vec::new()
                },
            };
            let ghost prev = subscribers@;
            subscribers.push(SubscriberInfo { user_id: user.clone(), topics: user_topics });
            assert(subscribers@ == prev.push(subscribers@[i as int]));
            assert(subscribers@[i as int].user_id@ == users@[i as int]@);
            assert(lists(subscribers@[i as int].topics@, g.1[subscribers@[i as int].user_id@]));
            i = i + 1;
        }
        assert(subscribers@.map_values(|t: SubscriberInfo| t.user_id@) =~= views(users@));
        ChatTopics { topics, subscribers }
    }
}

/// Finitely many chats, each well-formed.
pub open spec fn chats_wf(chats: Map<i64, GroupView>) -> bool {
    &&& chats.dom().finite()
    &&& forall|c: i64| #[trigger] chats.contains_key(c) ==> group_wf(chats[c])
}

/// No chat kept with an empty set of waiting messages.
pub open spec fn pending_wf(pending: Map<i64, Set<i32>>) -> bool {
    forall|c: i64| #[trigger] pending.contains_key(c) ==> pending[c] != Set::<i32>::empty()
}

/// Main storage structure managing all chat data
pub struct ChatStorage {
    /// Maps chat_id -> Group data
    chats: GroupMap,
    /// Tracks message IDs that are waiting for topic creation responses
    creating_topics: IdSetMap,
}

impl ChatStorage {
    /// Each chat with its topics and subscribers.
    pub closed spec fn chats(&self) -> Map<i64, GroupView> {
        group_map_contents(self.chats)
    }

    /// Each chat with the ids of its messages that wait for a topic name.
    pub closed spec fn pending(&self) -> Map<i64, Set<i32>> {
        id_set_map_contents(self.creating_topics)
    }

    /// Well-formedness: finitely many chats, each well-formed, and no chat
    /// kept with an empty set of waiting messages.
    pub open spec fn wf(&self) -> bool {
        chats_wf(self.chats()) && pending_wf(self.pending())
    }

    /// An empty storage.
    pub fn new() -> (r: ChatStorage)
        ensures
            r.wf(),
            r.chats().dom() == Set::<i64>::empty(),
            r.pending().dom() == Set::<i64>::empty(),
    {
        ChatStorage { chats: GroupMap::new(), creating_topics: IdSetMap::new() }
    }

    /// Get all chat data: each chat once, with its topics and subscribers
    pub fn get_all_chats(&self) -> (r: Vec<(i64, ChatTopics)>)
        ensures
            r@.map_values(|e: (i64, ChatTopics)| e.0).no_duplicates(),
            r@.map_values(|e: (i64, ChatTopics)| e.0).to_set() == self.chats().dom(),
            forall|i: int|
                0 <= i < r@.len() ==> describes(#[trigger] r@[i].1, self.chats()[r@[i].0]),
    {
        let ids = self.chats.keys();
        let mut out: Vec<(i64, ChatTopics)> = Vec::new();
        let mut i: usize = 0;
        while i < ids.len()
            invariant
                i <= ids@.len(),
                out@.len() == i,
                ids@.no_duplicates(),
                ids@.to_set() == self.chats().dom(),
                forall|j: int| 0 <= j < i ==> (#[trigger] out@[j]).0 == ids@[j],
                forall|j: int|
                    0 <= j < i ==> describes(#[trigger] out@[j].1, self.chats()[out@[j].0]),
            decreases ids@.len() - i,
        {
            let id = ids[i];
            assert(self.chats().dom().contains(id));
            let topics = match self.chats.get(id) {
                Some(g) => g.to_chat_topics(),
                None => {
                    proof {
                        assert(false);
                    }
                    ChatTopics { topics: Vec::new(), subscribers: Vec::new() }
                },
            };
            out.push((id, topics));
            i = i + 1;
        }
        assert(out@.map_values(|e: (i64, ChatTopics)| e.0) =~= ids@);
        out
    }

    /// Get complete chat information
    pub fn get_chat(&self, chat_id: i64) -> (r: Option<ChatTopics>)
        ensures
            r is None <==> !self.chats().contains_key(chat_id),
            r matches Some(c) ==> describes(c, self.chats()[chat_id]),
    {
        match self.chats.get(chat_id) {
            Some(g) => Some(g.to_chat_topics()),
            None => None,
        }
    }

    /// Get all topics in a chat
    pub fn get_topics(&self, chat_id: i64) -> (r: Option<Vec<String>>)
        ensures
            r is None <==> !self.chats().contains_key(chat_id),
            r matches Some(v) ==> lists(v@, self.chats()[chat_id].0.dom()),
    {
        match self.chats.get(chat_id) {
            Some(g) => Some(g.topic_users.keys()),
            None => None,
        }
    }

    /// Get all subscribers in a chat
    pub fn get_subscribers(&self, chat_id: i64) -> (r: Option<Vec<String>>)
        ensures
            r is None <==> !self.chats().contains_key(chat_id),
            r matches Some(v) ==> lists(v@, self.chats()[chat_id].1.dom()),
    {
        match self.chats.get(chat_id) {
            Some(g) => Some(g.user_topics.keys()),
            None => None,
        }
    }

    /// Get subscribers for a specific topic
    pub fn get_subscribers_from_topic(&self, chat_id: i64, topic: &str) -> (r: Option<Vec<String>>)
        ensures
            r is Some <==> self.chats().contains_key(chat_id) && self.chats()[chat_id].0.contains_key(topic@),
            r matches Some(v) ==> lists(v@, self.chats()[chat_id].0[topic@]),
    {
        match self.chats.get(chat_id) {
            Some(g) => match g.topic_users.get(topic) {
                Some(users) => Some(users.to_vec()),
                None => None,
            },
            None => None,
        }
    }

    /// Get topics for a specific subscriber
    pub fn get_topics_from_subscriber(&self, chat_id: i64, user: &str) -> (r: Option<Vec<String>>)
        ensures
            r is Some <==> self.chats().contains_key(chat_id) && self.chats()[chat_id].1.contains_key(user@),
            r matches Some(v) ==> lists(v@, self.chats()[chat_id].1[user@]),
    {
        match self.chats.get(chat_id) {
            Some(g) => match g.user_topics.get(user) {
                Some(topics) => Some(topics.to_vec()),
                None => None,
            },
            None => None,
        }
    }

    /// Check if a chat has a specific topic
    pub fn does_group_have_topic(&self, chat_id: i64, topic: &str) -> (r: bool)
        ensures
            r == (self.chats().contains_key(chat_id) && self.chats()[chat_id].0.contains_key(topic@)),
    {
        match self.chats.get(chat_id) {
            Some(g) => g.topic_users.contains_key(topic),
            None => false,
        }
    }

    /// Check if a user is subscribed to a topic
    pub fn is_subscriber_in_topic(&self, chat_id: i64, user_id: &str, topic: &str) -> (r: bool)
        ensures
            r == (self.chats().contains_key(chat_id) && subscribed(self.chats()[chat_id], topic@, user_id@)),
    {
        match self.chats.get(chat_id) {
            Some(g) => match g.topic_users.get(topic) {
                Some(users) => users.contains(user_id),
                None => false,
            },
            None => false,
        }
    }

    /// Subscribe users to a topic, creating the topic if it doesn't exist.
    ///
    /// The chat is created when absent. A new topic is refused in a chat
    /// that has `MAX_TOPICS_PER_CHAT` topics; the subscription is refused
    /// when the topic's subscribers plus `users.len()` would pass
    /// `MAX_SUBSCRIBERS_PER_TOPIC`, and the topic is then left created.
    pub fn set_topic_and_subscribers(&mut self, chat_id: i64, topic: &str, users: &[&str]) -> (r:
        Result<(), BotError>)
        requires
            old(self).wf(),
        ensures
            final(self).wf(),
            final(self).pending() == old(self).pending(),
            final(self).chats() == old(self).chats().insert(
                chat_id,
                group_after_subscribe(group_of(old(self).chats(), chat_id), topic@, str_views(users@)),
            ),
            match subscribe_outcome(group_of(old(self).chats(), chat_id), topic@, users@.len()) {
                SubscribeOutcome::Subscribed => r is Ok,
                SubscribeOutcome::TopicLimit => r matches Err(BotError::Config(m)) && m@
                    == topic_limit_text(),
                SubscribeOutcome::SubscriberLimit => r matches Err(BotError::Config(m)) && m@
                    == subscriber_limit_text(),
            },
    {
        let ghost chats0 = self.chats();
        let ghost g0 = group_of(chats0, chat_id);
        let ghost names = str_views(users@);
        let mut group = match self.chats.take(chat_id) {
            Some(g) => g,
            None => Group::new(),
        };
        assert(group@ == g0);
        assert(group_wf(g0));
        if group.topic_users.len() >= MAX_TOPICS_PER_CHAT && !group.topic_users.contains_key(topic) {
            self.chats.put(chat_id, group);
            assert(self.chats() =~= chats0.insert(chat_id, g0));
            let limit = usize_text(MAX_TOPICS_PER_CHAT);
            return Err(BotError::Config(concat3("Maximum number of topics (", limit.as_str(), ") reached")));
        }
        let mut subscribers = match group.topic_users.take(topic) {
            Some(s) => s,
            None => StringSet::new(),
        };
        let ghost base = lookup(g0.0, topic@);
        assert(string_set_contents(subscribers) == base);
        let count = subscribers.len();
        if users.len() > MAX_SUBSCRIBERS_PER_TOPIC || count > MAX_SUBSCRIBERS_PER_TOPIC - users.len() {
            group.topic_users.put(topic.to_owned(), subscribers);
            assert(group@.0 =~= with_topic(g0, topic@).0);
            proof {
                lemma_with_topic_wf(g0, topic@);
            }
            self.chats.put(chat_id, group);
            assert(self.chats() =~= chats0.insert(chat_id, with_topic(g0, topic@)));
            let limit = usize_text(MAX_SUBSCRIBERS_PER_TOPIC);
            return Err(
                BotError::Config(
                    concat3("Maximum number of subscribers (", limit.as_str(), ") would be exceeded"),
                ),
            );
        }
        let mut i: usize = 0;
        while i < users.len()
            invariant
                names == str_views(users@),
                i <= users@.len(),
                self.chats() == chats0.remove(chat_id),
                self.pending() == old(self).pending(),
                group_wf(g0),
                base == lookup(g0.0, topic@),
                base.finite(),
                string_set_map_contents(group.topic_users) == g0.0.remove(topic@),
                string_set_contents(subscribers) == base.union(names.take(i as int).to_set()),
                string_set_map_contents(group.user_topics) == add_subscribers(
                    g0,
                    topic@,
                    names.take(i as int).to_set(),
                ).1,
            decreases users@.len() - i,
        {
            let u = users[i];
            let ghost before = names.take(i as int).to_set();
            assert(names.take(i + 1) =~= names.take(i as int).push(u@));
            proof {
                names.take(i as int).lemma_push_to_set_commute(u@);
            }
            let _ = subscribers.insert(u.to_owned());
            let mut topics = match group.user_topics.take(u) {
                Some(s) => s,
                None => StringSet::new(),
            };
            let _ = topics.insert(topic.to_owned());
            group.user_topics.put(u.to_owned(), topics);
            i = i + 1;
            let ghost after = names.take(i as int).to_set();
            assert(after == before.insert(u@));
            assert(string_set_contents(subscribers) =~= base.union(after));
            assert(lookup(g0.1, u@).insert(topic@).insert(topic@) =~= lookup(g0.1, u@).insert(topic@));
            assert(string_set_map_contents(group.user_topics) =~= add_subscribers(g0, topic@, after).1);
        }
        assert(names.take(users@.len() as int) =~= names);
        group.topic_users.put(topic.to_owned(), subscribers);
        let ghost added = names.to_set();
        assert(group@.0 =~= add_subscribers(g0, topic@, added).0);
        assert(group@ == add_subscribers(g0, topic@, added));
        proof {
            names.lemma_cardinality_of_set();
            lemma_add_subscribers_wf(g0, topic@, added, users@.len() as nat);
        }
        self.chats.put(chat_id, group);
        assert(self.chats() =~= chats0.insert(chat_id, add_subscribers(g0, topic@, added)));
        Ok(())
    }

    /// Unsubscribe a user from a topic; a topic left without subscribers
    /// and a user left without topics are dropped. Always succeeds.
    pub fn unset_subscriber_from_topic(&mut self, chat_id: i64, topic: &str, user_id: &str) -> (r:
        Result<(), BotError>)
        requires
            old(self).wf(),
        ensures
            r is Ok,
            final(self).wf(),
            final(self).pending() == old(self).pending(),
            final(self).chats() == (if old(self).chats().contains_key(chat_id) {
                old(self).chats().insert(
                    chat_id,
                    remove_subscriber(old(self).chats()[chat_id], topic@, user_id@),
                )
            } else {
                old(self).chats()
            }),
    {
        let ghost chats0 = self.chats();
        let ghost pending0 = self.pending();
        match self.chats.take(chat_id) {
            Some(mut group) => {
                let ghost g0 = group@;
                assert(group_wf(g0));
                if let Some(mut users) = group.topic_users.take(topic) {
                    let _ = users.remove(user_id);
                    if !users.is_empty() {
                        group.topic_users.put(topic.to_owned(), users);
                    }
                }
                assert(group@.0 =~= drop_pair(g0.0, topic@, user_id@));
                if let Some(mut topics) = group.user_topics.take(user_id) {
                    let _ = topics.remove(topic);
                    if !topics.is_empty() {
                        group.user_topics.put(user_id.to_owned(), topics);
                    }
                }
                assert(group@.1 =~= drop_pair(g0.1, user_id@, topic@));
                assert(group@ == remove_subscriber(g0, topic@, user_id@));
                proof {
                    lemma_remove_subscriber_wf(g0, topic@, user_id@);
                }
                self.chats.put(chat_id, group);
                assert(self.chats() =~= chats0.insert(chat_id, remove_subscriber(g0, topic@, user_id@)));
            },
            None => {
                assert(self.chats() =~= chats0);
            },
        }
        assert(self.pending() == pending0);
        Ok(())
    }

    /// Mark a message as waiting for topic creation response
    pub fn push_creating_message_id(&mut self, chat_id: i64, msg_id: i32)
        requires
            old(self).wf(),
        ensures
            final(self).wf(),
            final(self).chats() == old(self).chats(),
            final(self).pending() == old(self).pending().insert(
                chat_id,
                id_lookup(old(self).pending(), chat_id).insert(msg_id),
            ),
    {
        let ghost p0 = self.pending();
        let mut messages = match self.creating_topics.take(chat_id) {
            Some(m) => m,
            None => IdSet::new(),
        };
        let _ = messages.insert(msg_id);
        self.creating_topics.put(chat_id, messages);
        assert(self.pending() =~= p0.insert(chat_id, id_lookup(p0, chat_id).insert(msg_id)));
        assert(self.pending()[chat_id].contains(msg_id));
    }

    /// Remove a message from the topic creation waiting list; a chat left
    /// without waiting messages is dropped
    pub fn pop_creating_message_id(&mut self, chat_id: i64, msg_id: i32)
        requires
            old(self).wf(),
        ensures
            final(self).wf(),
            final(self).chats() == old(self).chats(),
            final(self).pending() == (if !old(self).pending().contains_key(chat_id) {
                old(self).pending()
            } else if old(self).pending()[chat_id].remove(msg_id) == Set::<i32>::empty() {
                old(self).pending().remove(chat_id)
            } else {
                old(self).pending().insert(chat_id, old(self).pending()[chat_id].remove(msg_id))
            }),
    {
        let ghost p0 = self.pending();
        if let Some(mut messages) = self.creating_topics.take(chat_id) {
            let _ = messages.remove(msg_id);
            if !messages.is_empty() {
                self.creating_topics.put(chat_id, messages);
            }
        } else {
            assert(self.pending() =~= p0);
        }
    }

    /// Clean up empty chats: drops every chat that holds neither a topic
    /// nor a subscriber, and returns how many were dropped
    pub fn cleanup_empty_chats(&mut self) -> (r: usize)
        requires
            old(self).wf(),
        ensures
            final(self).wf(),
            final(self).pending() == old(self).pending(),
            final(self).chats() == old(self).chats().restrict(
                old(self).chats().dom().filter(|c: i64| group_in_use(old(self).chats()[c])),
            ),
            r == old(self).chats().dom().len() - final(self).chats().dom().len(),
    {
        let ghost chats0 = self.chats();
        let ghost pending0 = self.pending();
        let before = self.chats.len();
        let ids = self.chats.keys();
        let mut i: usize = 0;
        while i < ids.len()
            invariant
                i <= ids@.len(),
                ids@.no_duplicates(),
                ids@.to_set() == chats0.dom(),
                chats_wf(chats0),
                self.pending() == pending0,
                self.chats() == chats0.restrict(
                    chats0.dom().filter(
                        |c: i64| !ids@.take(i as int).contains(c) || group_in_use(chats0[c]),
                    ),
                ),
            decreases ids@.len() - i,
        {
            let id = ids[i];
            let ghost kept = chats0.dom().filter(
                |c: i64| !ids@.take(i as int).contains(c) || group_in_use(chats0[c]),
            );
            assert(ids@.to_set().contains(id));
            assert(!ids@.take(i as int).contains(id)) by {
                if ids@.take(i as int).contains(id) {
                    let j = choose|j: int| 0 <= j < i && ids@.take(i as int)[j] == id;
                    assert(ids@[j] == ids@[i as int]);
                }
            }
            assert(kept.contains(id));
            let ghost cur = self.chats();
            match self.chats.take(id) {
                Some(g) => {
                    assert(g@ == chats0[id]);
                    if !g.topic_users.is_empty() || !g.user_topics.is_empty() {
                        self.chats.put(id, g);
                        assert(self.chats() =~= cur);
                    } else {
                        assert(!group_in_use(chats0[id]));
                    }
                },
                None => {},
            }
            i = i + 1;
            assert(ids@.take(i as int) =~= ids@.take(i - 1).push(id));
            assert forall|c: i64| ids@.take(i as int).contains(c) <==> (ids@.take(i - 1).contains(c)
                || c == id) by {
                broadcast use vstd::seq_lib::group_seq_properties;
            }
            assert(self.chats() =~= chats0.restrict(
                chats0.dom().filter(
                    |c: i64| !ids@.take(i as int).contains(c) || group_in_use(chats0[c]),
                ),
            ));
        }
        assert(ids@.take(ids@.len() as int) =~= ids@);
        assert(self.chats() =~= chats0.restrict(chats0.dom().filter(|c: i64| group_in_use(chats0[c]))));
        let after = self.chats.len();
        proof {
            vstd::set_lib::lemma_len_subset(self.chats().dom(), chats0.dom());
        }
        before - after
    }

    /// Check if a message ID is waiting for topic creation
    pub fn has_create_message_id(&self, chat_id: i64, msg_id: i32) -> (r: bool)
        ensures
            r == id_lookup(self.pending(), chat_id).contains(msg_id),
    {
        match self.creating_topics.get(chat_id) {
            Some(messages) => messages.contains(msg_id),
            None => false,
        }
    }
}

} // verus!

verus! {

/// In a well-formed chat, a user is subscribed to a topic exactly when the
/// topic is among the user's topics.
pub proof fn law_subscriptions_mirror(g: GroupView, t: Seq<char>, u: Seq<char>)
    requires
        group_wf(g),
    ensures
        subscribed(g, t, u) <==> listed(g, u, t),
{
}

/// After a successful subscription, every given user is subscribed to the
/// topic and has it among their topics; every earlier subscription stays,
/// and no other is added.
pub proof fn law_subscribe_then_query(g: GroupView, t: Seq<char>, users: Seq<Seq<char>>)
    requires
        group_wf(g),
        subscribe_outcome(g, t, users.len()) == SubscribeOutcome::Subscribed,
    ensures
        forall|i: int|
            0 <= i < users.len() ==> subscribed(group_after_subscribe(g, t, users), t, #[trigger] users[i])
                && listed(group_after_subscribe(g, t, users), users[i], t),
        forall|t2: Seq<char>, u2: Seq<char>|
            #[trigger] subscribed(group_after_subscribe(g, t, users), t2, u2) <==> (subscribed(
                g,
                t2,
                u2,
            ) || (t2 == t && users.contains(u2))),
{
    let h = group_after_subscribe(g, t, users);
    assert forall|i: int| 0 <= i < users.len() implies subscribed(h, t, #[trigger] users[i])
        && listed(h, users[i], t) by {
        assert(users.to_set().contains(users[i]));
    }
}

/// Subscribing the same users to the same topic a second time changes
/// nothing.
pub proof fn law_subscribe_idempotent(g: GroupView, t: Seq<char>, users: Seq<Seq<char>>)
    requires
        group_wf(g),
        subscribe_outcome(g, t, users.len()) == SubscribeOutcome::Subscribed,
    ensures
        add_subscribers(group_after_subscribe(g, t, users), t, users.to_set())
            == group_after_subscribe(g, t, users),
{
    let h = group_after_subscribe(g, t, users);
    let h2 = add_subscribers(h, t, users.to_set());
    assert(lookup(h.0, t).union(users.to_set()) =~= h.0[t]);
    assert(h2.0 =~= h.0);
    assert forall|u: Seq<char>| h2.1.contains_key(u) implies h2.1[u] == h.1[u] by {
        if users.to_set().contains(u) {
            assert(h2.1[u] =~= h.1[u]);
        }
    }
    assert(h2.1 =~= h.1);
}

/// Unsubscribing a user from a topic removes exactly that subscription,
/// from both directions.
pub proof fn law_unsubscribe_removes_pair(
    g: GroupView,
    t: Seq<char>,
    u: Seq<char>,
    t2: Seq<char>,
    u2: Seq<char>,
)
    requires
        group_wf(g),
    ensures
        subscribed(remove_subscriber(g, t, u), t2, u2) <==> (subscribed(g, t2, u2) && !(t2 == t
            && u2 == u)),
        listed(remove_subscriber(g, t, u), u2, t2) <==> (listed(g, u2, t2) && !(t2 == t && u2
            == u)),
{
    lemma_drop_pair(g.0, t, u, t2, u2);
    lemma_drop_pair(g.1, u, t, u2, t2);
}

/// A message marked as waiting for a topic name is found waiting; once
/// removed it is no longer found.
pub proof fn law_pending_push_pop(pending: Map<i64, Set<i32>>, chat_id: i64, msg_id: i32)
    ensures
        id_lookup(
            pending.insert(chat_id, id_lookup(pending, chat_id).insert(msg_id)),
            chat_id,
        ).contains(msg_id),
        ({
            let p = pending.insert(chat_id, id_lookup(pending, chat_id).insert(msg_id));
            let popped = if p[chat_id].remove(msg_id) == Set::<i32>::empty() {
                p.remove(chat_id)
            } else {
                p.insert(chat_id, p[chat_id].remove(msg_id))
            };
            !id_lookup(popped, chat_id).contains(msg_id)
        }),
{
}

/// Cleaning up empty chats keeps every subscription of a well-formed
/// storage.
pub proof fn law_cleanup_keeps_subscriptions(
    chats: Map<i64, GroupView>,
    c: i64,
    t: Seq<char>,
    u: Seq<char>,
)
    requires
        chats_wf(chats),
        chats.contains_key(c),
        subscribed(chats[c], t, u),
    ensures
        ({
            let kept = chats.restrict(chats.dom().filter(|x: i64| group_in_use(chats[x])));
            kept.contains_key(c) && kept[c] == chats[c]
        }),
{
    assert(chats[c].0.dom().contains(t));
}

/// A user who subscribes to a topic and unsubscribes again leaves the chat
/// as it was, when they were not subscribed before and the topic, if it
/// exists, has a subscriber.
pub proof fn law_subscribe_unsubscribe_roundtrip(g: GroupView, t: Seq<char>, u: Seq<char>)
    requires
        group_wf(g),
        subscribe_outcome(g, t, 1) == SubscribeOutcome::Subscribed,
        !subscribed(g, t, u),
        g.0.contains_key(t) ==> g.0[t] != Set::<Seq<char>>::empty(),
    ensures
        remove_subscriber(group_after_subscribe(g, t, seq![u]), t, u) == g,
{
    let users = seq![u];
    assert(users.to_set() =~= set![u]) by {
        assert(users[0] == u);
    }
    let h = add_subscribers(g, t, set![u]);
    assert(group_after_subscribe(g, t, users) == h);
    let l = lookup(g.0, t);
    let m = lookup(g.1, u);
    assert(!listed(g, u, t));
    assert(!m.contains(t));
    assert(h.0[t] == l.union(set![u]));
    assert(l.union(set![u]).remove(u) =~= l);
    assert(h.1.contains_key(u));
    assert(h.1[u] == m.insert(t));
    assert(m.insert(t).remove(t) =~= m);
    let r = remove_subscriber(h, t, u);
    if g.0.contains_key(t) {
        assert(r.0 =~= g.0);
    } else {
        assert(l =~= Set::<Seq<char>>::empty());
        assert(r.0 =~= g.0);
    }
    if g.1.contains_key(u) {
        assert(r.1 =~= g.1);
    } else {
        assert(m =~= Set::<Seq<char>>::empty());
        assert(r.1 =~= g.1);
    }
}

/// Cleaning up keeps exactly the chats that have a topic or a subscriber,
/// each unchanged: a chat with a topic (with or without subscribers)
/// always stays, and only a chat with neither is dropped.
pub proof fn law_cleanup_keeps_chats_with_topics(chats: Map<i64, GroupView>, c: i64)
    requires
        chats_wf(chats),
    ensures
        ({
            let kept = chats.restrict(chats.dom().filter(|x: i64| group_in_use(chats[x])));
            &&& kept.contains_key(c) <==> (chats.contains_key(c) && (chats[c].0.dom().len() > 0
                || chats[c].1.dom().len() > 0))
            &&& kept.contains_key(c) ==> kept[c] == chats[c]
            &&& (chats.contains_key(c) && chats[c].0.dom().len() > 0) ==> (kept.contains_key(c)
                && kept[c] == chats[c])
        }),
{
    if chats.contains_key(c) {
        let g = chats[c];
        assert(group_wf(g));
        vstd::set_lib::lemma_set_empty_equivalency_len(g.0.dom());
        vstd::set_lib::lemma_set_empty_equivalency_len(g.1.dom());
    }
}

/// Every chat of a storage keeps within the limits: at most
/// `MAX_TOPICS_PER_CHAT` topics, each with at most
/// `MAX_SUBSCRIBERS_PER_TOPIC` subscribers (every operation keeps the
/// storage well formed, so this holds in every reachable state).
pub proof fn law_limits_hold(s: ChatStorage, c: i64, t: Seq<char>)
    requires
        s.wf(),
        s.chats().contains_key(c),
    ensures
        s.chats()[c].0.dom().len() <= MAX_TOPICS_PER_CHAT,
        s.chats()[c].0.contains_key(t) ==> s.chats()[c].0[t].len() <= MAX_SUBSCRIBERS_PER_TOPIC,
{
}

} // verus!
