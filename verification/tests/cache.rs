use ping_buddy_lib::storage::cache::{CacheStats, SubscriptionCache};

fn strings(items: &[&str]) -> Option<Vec<String>> {
    Some(items.iter().map(|s| s.to_string()).collect())
}

fn row(chat: i64, topic: &str, user: &str) -> (i64, String, String) {
    (chat, topic.to_string(), user.to_string())
}

#[test]
fn new_cache_is_empty() {
    let c = SubscriptionCache::new();
    assert!(c.get_topics(1).is_none());
    assert!(c.get_subscribers_from_topic(1, "dev").is_none());
    assert!(c.get_topics_from_subscriber(1, "ann").is_none());
    assert!(!c.does_group_have_topic(1, "dev"));
    assert!(!c.is_subscriber_in_topic(1, "ann", "dev"));
    assert_eq!(
        c.get_stats(),
        CacheStats { total_chats: 0, total_topics: 0, total_subscriptions: 0 }
    );
}

#[test]
fn lists_come_out_sorted() {
    let mut c = SubscriptionCache::new();
    c.add_subscription(1, "zeta", "bob");
    c.add_subscription(1, "alpha", "carl");
    c.add_subscription(1, "zeta", "ann");
    c.add_subscription(1, "mid", "ann");
    assert_eq!(c.get_topics(1), strings(&["alpha", "mid", "zeta"]));
    assert_eq!(c.get_subscribers_from_topic(1, "zeta"), strings(&["ann", "bob"]));
    assert_eq!(c.get_topics_from_subscriber(1, "ann"), strings(&["mid", "zeta"]));
    assert!(c.get_topics_from_subscriber(1, "nobody").is_none());
    assert!(c.does_group_have_topic(1, "mid"));
    assert!(c.is_subscriber_in_topic(1, "carl", "alpha"));
    assert!(!c.is_subscriber_in_topic(1, "carl", "zeta"));
}

#[test]
fn sort_order_is_by_code_point() {
    let mut c = SubscriptionCache::new();
    c.add_subscriptions(1, "t", &["b", "B", "a", "ab", "é", "Z"]);
    assert_eq!(c.get_subscribers_from_topic(1, "t"), strings(&["B", "Z", "a", "ab", "b", "é"]));
}

#[test]
fn add_subscriptions_merges_without_repeats() {
    let mut c = SubscriptionCache::new();
    c.add_subscriptions(5, "dev", &["ann", "bob"]);
    c.add_subscriptions(5, "dev", &["bob", "carl", "carl"]);
    assert_eq!(c.get_subscribers_from_topic(5, "dev"), strings(&["ann", "bob", "carl"]));
    c.add_subscriptions(5, "empty", &[]);
    assert_eq!(c.get_topics(5), strings(&["dev", "empty"]));
    assert_eq!(c.get_subscribers_from_topic(5, "empty"), Some(Vec::new()));
}

#[test]
fn remove_cleans_up() {
    let mut c = SubscriptionCache::new();
    c.add_subscription(1, "dev", "ann");
    c.add_subscription(1, "dev", "bob");
    c.add_subscription(1, "ops", "ann");
    assert!(c.remove_subscription(1, "dev", "ann"));
    assert!(!c.remove_subscription(1, "dev", "ann"));
    assert_eq!(c.get_subscribers_from_topic(1, "dev"), strings(&["bob"]));
    assert!(c.remove_subscription(1, "dev", "bob"));
    assert!(!c.does_group_have_topic(1, "dev"));
    assert_eq!(c.get_topics(1), strings(&["ops"]));
    assert!(c.remove_subscription(1, "ops", "ann"));
    assert!(c.get_topics(1).is_none());
    assert!(!c.remove_subscription(1, "ops", "ann"));
    assert!(!c.remove_subscription(2, "ops", "ann"));
}

#[test]
fn remove_from_empty_topic_drops_it() {
    let mut c = SubscriptionCache::new();
    c.add_subscriptions(1, "quiet", &[]);
    assert!(!c.remove_subscription(1, "quiet", "ann"));
    assert!(c.get_topics(1).is_none());
}

#[test]
fn add_then_remove_restores() {
    let mut c = SubscriptionCache::new();
    c.add_subscription(1, "dev", "ann");
    let before = c.get_stats();
    c.add_subscription(1, "dev", "bob");
    assert!(c.remove_subscription(1, "dev", "bob"));
    assert_eq!(c.get_stats(), before);
    assert_eq!(c.get_subscribers_from_topic(1, "dev"), strings(&["ann"]));
}

#[test]
fn chats_are_separate() {
    let mut c = SubscriptionCache::new();
    c.add_subscription(-7, "dev", "ann");
    c.add_subscription(3, "dev", "bob");
    assert_eq!(c.get_subscribers_from_topic(-7, "dev"), strings(&["ann"]));
    assert_eq!(c.get_subscribers_from_topic(3, "dev"), strings(&["bob"]));
}

#[test]
fn stats_count_everything() {
    let mut c = SubscriptionCache::new();
    c.add_subscriptions(1, "a", &["x", "y"]);
    c.add_subscriptions(1, "b", &["x"]);
    c.add_subscriptions(2, "a", &["z"]);
    assert_eq!(
        c.get_stats(),
        CacheStats { total_chats: 2, total_topics: 3, total_subscriptions: 4 }
    );
}

#[test]
fn warm_replaces_content() {
    let mut c = SubscriptionCache::new();
    c.add_subscription(9, "old", "gone");
    c.warm_from_db(vec![
        row(1, "dev", "ann"),
        row(1, "dev", "bob"),
        row(1, "dev", "ann"),
        row(2, "general", "__SYSTEM__"),
    ]);
    assert!(c.get_topics(9).is_none());
    assert_eq!(c.get_subscribers_from_topic(1, "dev"), strings(&["ann", "bob"]));
    assert_eq!(c.get_topics(2), strings(&["general"]));
    assert_eq!(
        c.get_stats(),
        CacheStats { total_chats: 2, total_topics: 2, total_subscriptions: 3 }
    );
}

#[test]
fn clear_empties() {
    let mut c = SubscriptionCache::new();
    c.add_subscription(1, "dev", "ann");
    c.clear();
    assert!(c.get_topics(1).is_none());
    assert_eq!(c.get_stats().total_chats, 0);
}

#[test]
fn stats_count_repeated_rows_once() {
    let mut c = SubscriptionCache::new();
    c.add_subscriptions(1, "a", &["x", "y"]);
    c.add_subscription(2, "b", "x");
    c.add_subscription(1, "a", "x");
    assert_eq!(
        c.get_stats(),
        CacheStats { total_chats: 2, total_topics: 2, total_subscriptions: 3 }
    );
}
