use ping_buddy_lib::error::BotError;
use ping_buddy_lib::storage::chat_storage::ChatStorage;

fn sorted(v: Option<Vec<String>>) -> Option<Vec<String>> {
    v.map(|mut x| {
        x.sort();
        x
    })
}

fn strings(items: &[&str]) -> Option<Vec<String>> {
    Some(items.iter().map(|s| s.to_string()).collect())
}

#[test]
fn empty_storage_knows_nothing() {
    let s = ChatStorage::new();
    assert!(s.get_all_chats().is_empty());
    assert!(s.get_chat(1).is_none());
    assert!(s.get_topics(1).is_none());
    assert!(s.get_subscribers(1).is_none());
    assert!(s.get_subscribers_from_topic(1, "dev").is_none());
    assert!(s.get_topics_from_subscriber(1, "ann").is_none());
    assert!(!s.does_group_have_topic(1, "dev"));
    assert!(!s.is_subscriber_in_topic(1, "ann", "dev"));
    assert!(!s.has_create_message_id(1, 5));
}

#[test]
fn subscribe_then_query() {
    let mut s = ChatStorage::new();
    s.set_topic_and_subscribers(1, "dev", &["ann", "bob"]).unwrap();
    s.set_topic_and_subscribers(1, "ops", &["ann"]).unwrap();
    assert_eq!(sorted(s.get_topics(1)), strings(&["dev", "ops"]));
    assert_eq!(sorted(s.get_subscribers(1)), strings(&["ann", "bob"]));
    assert_eq!(sorted(s.get_subscribers_from_topic(1, "dev")), strings(&["ann", "bob"]));
    assert_eq!(sorted(s.get_topics_from_subscriber(1, "ann")), strings(&["dev", "ops"]));
    assert_eq!(sorted(s.get_topics_from_subscriber(1, "bob")), strings(&["dev"]));
    assert!(s.does_group_have_topic(1, "dev"));
    assert!(s.is_subscriber_in_topic(1, "bob", "dev"));
    assert!(!s.is_subscriber_in_topic(1, "bob", "ops"));
    assert!(s.get_topics(2).is_none());
}

#[test]
fn subscribe_is_idempotent() {
    let mut s = ChatStorage::new();
    s.set_topic_and_subscribers(1, "dev", &["ann"]).unwrap();
    s.set_topic_and_subscribers(1, "dev", &["ann", "ann"]).unwrap();
    assert_eq!(s.get_subscribers_from_topic(1, "dev"), strings(&["ann"]));
}

#[test]
fn topic_without_subscribers() {
    let mut s = ChatStorage::new();
    s.set_topic_and_subscribers(3, "general", &[]).unwrap();
    assert_eq!(s.get_topics(3), strings(&["general"]));
    assert_eq!(s.get_subscribers_from_topic(3, "general"), Some(Vec::new()));
    assert_eq!(s.get_subscribers(3), Some(Vec::new()));
}

#[test]
fn chat_description() {
    let mut s = ChatStorage::new();
    s.set_topic_and_subscribers(1, "dev", &["ann"]).unwrap();
    let chat = s.get_chat(1).unwrap();
    assert_eq!(chat.topics.len(), 1);
    assert_eq!(chat.topics[0].name, "dev");
    assert_eq!(chat.topics[0].subscribers, vec!["ann".to_string()]);
    assert_eq!(chat.subscribers.len(), 1);
    assert_eq!(chat.subscribers[0].user_id, "ann");
    assert_eq!(chat.subscribers[0].topics, vec!["dev".to_string()]);
    let all = s.get_all_chats();
    assert_eq!(all.len(), 1);
    assert_eq!(all[0].0, 1);
}

#[test]
fn unsubscribe_drops_empty_entries() {
    let mut s = ChatStorage::new();
    s.set_topic_and_subscribers(1, "dev", &["ann", "bob"]).unwrap();
    s.unset_subscriber_from_topic(1, "dev", "ann").unwrap();
    assert_eq!(s.get_subscribers_from_topic(1, "dev"), strings(&["bob"]));
    assert!(s.get_topics_from_subscriber(1, "ann").is_none());
    s.unset_subscriber_from_topic(1, "dev", "bob").unwrap();
    assert!(!s.does_group_have_topic(1, "dev"));
    assert_eq!(s.get_topics(1), Some(Vec::new()));
    // Unknown chat, topic or user: nothing happens, and it is no error.
    s.unset_subscriber_from_topic(9, "dev", "bob").unwrap();
    s.unset_subscriber_from_topic(1, "none", "bob").unwrap();
    assert_eq!(s.cleanup_empty_chats(), 1);
    assert!(s.get_chat(1).is_none());
    assert_eq!(s.cleanup_empty_chats(), 0);
}

#[test]
fn cleanup_keeps_chats_in_use() {
    let mut s = ChatStorage::new();
    s.set_topic_and_subscribers(1, "dev", &["ann"]).unwrap();
    s.set_topic_and_subscribers(2, "ops", &["bob"]).unwrap();
    s.unset_subscriber_from_topic(2, "ops", "bob").unwrap();
    assert_eq!(s.cleanup_empty_chats(), 1);
    assert!(s.is_subscriber_in_topic(1, "ann", "dev"));
    assert!(s.get_chat(2).is_none());
}

#[test]
fn pending_topic_requests() {
    let mut s = ChatStorage::new();
    s.push_creating_message_id(1, 10);
    s.push_creating_message_id(1, 11);
    assert!(s.has_create_message_id(1, 10));
    assert!(s.has_create_message_id(1, 11));
    assert!(!s.has_create_message_id(2, 10));
    s.pop_creating_message_id(1, 10);
    assert!(!s.has_create_message_id(1, 10));
    assert!(s.has_create_message_id(1, 11));
    s.pop_creating_message_id(1, 11);
    s.pop_creating_message_id(1, 11);
    assert!(!s.has_create_message_id(1, 11));
}

#[test]
fn topic_limit_per_chat() {
    let mut s = ChatStorage::new();
    for i in 0..100 {
        let name = format!("t{}", i);
        s.set_topic_and_subscribers(1, &name, &[]).unwrap();
    }
    match s.set_topic_and_subscribers(1, "one_more", &["ann"]) {
        Err(BotError::Config(m)) => assert_eq!(m, "Maximum number of topics (100) reached"),
        other => panic!("unexpected {:?}", other),
    }
    assert!(!s.does_group_have_topic(1, "one_more"));
    // An existing topic can still take subscribers.
    s.set_topic_and_subscribers(1, "t5", &["ann"]).unwrap();
    assert!(s.is_subscriber_in_topic(1, "ann", "t5"));
    // Another chat has its own limit.
    s.set_topic_and_subscribers(2, "one_more", &["ann"]).unwrap();
}

#[test]
fn subscriber_limit_per_topic() {
    let mut s = ChatStorage::new();
    let names: Vec<String> = (0..1000).map(|i| format!("u{}", i)).collect();
    let refs: Vec<&str> = names.iter().map(|n| n.as_str()).collect();
    s.set_topic_and_subscribers(1, "big", &refs).unwrap();
    assert_eq!(s.get_subscribers_from_topic(1, "big").unwrap().len(), 1000);
    match s.set_topic_and_subscribers(1, "big", &["late"]) {
        Err(BotError::Config(m)) => {
            assert_eq!(m, "Maximum number of subscribers (1000) would be exceeded")
        }
        other => panic!("unexpected {:?}", other),
    }
    assert!(!s.is_subscriber_in_topic(1, "late", "big"));
}

#[test]
fn subscriber_limit_creates_topic() {
    let mut s = ChatStorage::new();
    let names: Vec<String> = (0..1001).map(|i| format!("u{}", i)).collect();
    let refs: Vec<&str> = names.iter().map(|n| n.as_str()).collect();
    assert!(s.set_topic_and_subscribers(1, "huge", &refs).is_err());
    assert!(s.does_group_have_topic(1, "huge"));
    assert_eq!(s.get_subscribers_from_topic(1, "huge"), Some(Vec::new()));
}

#[test]
fn subscribe_then_unsubscribe_restores() {
    let mut s = ChatStorage::new();
    s.set_topic_and_subscribers(1, "dev", &["ann"]).unwrap();
    s.set_topic_and_subscribers(1, "dev", &["carl"]).unwrap();
    s.unset_subscriber_from_topic(1, "dev", "carl").unwrap();
    assert_eq!(s.get_subscribers_from_topic(1, "dev"), strings(&["ann"]));
    assert_eq!(s.get_subscribers(1), strings(&["ann"]));
    assert!(s.get_topics_from_subscriber(1, "carl").is_none());
    // A new topic is gone again too.
    s.set_topic_and_subscribers(1, "tmp", &["carl"]).unwrap();
    s.unset_subscriber_from_topic(1, "tmp", "carl").unwrap();
    assert_eq!(s.get_topics(1), strings(&["dev"]));
}
