use ping_buddy_lib::error::BotError;
use ping_buddy_lib::storage::sqlite::{
    check_subscriber_limit, check_topic_limit, lists_general, nonempty_or_none,
    placeholder_missing, reported_subscribers, stats_from_counts, subscription_rows,
};
use ping_buddy_lib::storage::cache::SubscriptionCache;
use ping_buddy_lib::storage::StorageStats;

fn strings(items: &[&str]) -> Vec<String> {
    items.iter().map(|s| s.to_string()).collect()
}

#[test]
fn topic_limit_rule() {
    assert!(check_topic_limit(1, 0, false).is_ok());
    assert!(check_topic_limit(1, 99, false).is_ok());
    assert!(check_topic_limit(1, 100, true).is_ok());
    match check_topic_limit(-3, 100, false) {
        Err(BotError::TopicLimitReached { limit, chat_id }) => {
            assert_eq!(limit, 100);
            assert_eq!(chat_id, -3);
        }
        other => panic!("unexpected {:?}", other),
    }
}

#[test]
fn subscriber_limit_rule() {
    assert!(check_subscriber_limit("dev", 0, 1000).is_ok());
    assert!(check_subscriber_limit("dev", 999, 1).is_ok());
    match check_subscriber_limit("dev", 999, 2) {
        Err(e) => assert_eq!(e.message(), "Subscriber limit reached: 1000 subscribers for topic 'dev'"),
        Ok(()) => panic!("accepted"),
    }
    assert!(check_subscriber_limit("dev", 0, usize::MAX).is_err());
}

#[test]
fn rows_for_general_setup() {
    assert_eq!(subscription_rows("general", &[]), strings(&["__SYSTEM__"]));
    assert_eq!(subscription_rows("general", &["ann"]), strings(&["ann"]));
    assert_eq!(subscription_rows("dev", &[]), Vec::<String>::new());
    assert_eq!(subscription_rows("dev", &["a", "b"]), strings(&["a", "b"]));
}

#[test]
fn placeholder_not_reported() {
    assert_eq!(reported_subscribers(None), None);
    assert_eq!(reported_subscribers(Some(strings(&["__SYSTEM__"]))), None);
    assert_eq!(reported_subscribers(Some(Vec::new())), None);
    assert_eq!(
        reported_subscribers(Some(strings(&["a", "__SYSTEM__", "b"]))),
        Some(strings(&["a", "b"]))
    );
}

#[test]
fn empty_lists_are_none() {
    assert_eq!(nonempty_or_none(Vec::new()), None);
    assert_eq!(nonempty_or_none(strings(&["x"])), Some(strings(&["x"])));
}

#[test]
fn general_detection() {
    assert!(!lists_general(&None));
    assert!(!lists_general(&Some(strings(&["dev"]))));
    assert!(lists_general(&Some(strings(&["dev", "general"]))));
}

#[test]
fn stats_from_query_counts() {
    assert_eq!(
        stats_from_counts(2, 3, 4, 1),
        StorageStats { total_chats: 2, total_topics: 3, total_subscriptions: 4, pending_requests: 1 }
    );
}

#[test]
fn placeholder_needed_only_when_missing() {
    assert!(!placeholder_missing(&None, false));
    assert!(!placeholder_missing(&Some(strings(&["dev"])), false));
    assert!(placeholder_missing(&Some(strings(&["dev", "general"])), false));
    assert!(!placeholder_missing(&Some(strings(&["general"])), true));
}

#[test]
fn subscription_rows_reach_the_cache() {
    let mut c = SubscriptionCache::new();
    let rows = subscription_rows("general", &[]);
    let refs: Vec<&str> = rows.iter().map(|r| r.as_str()).collect();
    c.add_subscriptions(4, "general", &refs);
    assert!(c.is_subscriber_in_topic(4, "__SYSTEM__", "general"));
    assert_eq!(reported_subscribers(c.get_subscribers_from_topic(4, "general")), None);
    let rows = subscription_rows("dev", &["ann", "bob"]);
    let refs: Vec<&str> = rows.iter().map(|r| r.as_str()).collect();
    c.add_subscriptions(4, "dev", &refs);
    assert_eq!(c.get_subscribers_from_topic(4, "dev"), Some(strings(&["ann", "bob"])));
}

#[test]
fn last_subscriber_takes_topic_away() {
    let mut c = SubscriptionCache::new();
    c.add_subscription(1, "dev", "ann");
    c.add_subscription(1, "ops", "bob");
    c.remove_subscription(1, "dev", "ann");
    assert_eq!(c.get_topics(1), Some(strings(&["ops"])));
}

#[test]
fn placeholder_keeps_general_topic() {
    let mut c = SubscriptionCache::new();
    c.add_subscriptions(1, "general", &["__SYSTEM__", "ann"]);
    c.remove_subscription(1, "general", "ann");
    assert_eq!(c.get_topics(1), Some(strings(&["general"])));
    assert_eq!(reported_subscribers(c.get_subscribers_from_topic(1, "general")), None);
}

#[test]
fn negative_subscriber_count_is_refused() {
    assert!(matches!(
        check_subscriber_limit("dev", -1, 0),
        Err(BotError::SubscriberLimitReached { limit: 1000, .. })
    ));
}
