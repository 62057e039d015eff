//! Storage of topic subscriptions.
//!
//! `chat_storage` is the in-memory store of chats, topics and
//! subscribers; `cache` is the in-memory mirror that the persistent store
//! reads from; `sqlite` holds the rules that the persistent store applies
//! around its queries.

pub mod cache;
pub mod chat_storage;
pub mod collections;
pub mod sorted;
pub mod sqlite;

use vstd::prelude::*;

verus! {

/// Information about a topic and its subscribers
#[derive(Debug, Clone)]
pub struct TopicInfo {
    /// The topic's name
    pub name: String,
    /// The user references subscribed to it
    pub subscribers: Vec<String>,
}

/// Information about a subscriber and their topics
#[derive(Debug, Clone)]
pub struct SubscriberInfo {
    /// The subscriber's user reference
    pub user_id: String,
    /// The topics the subscriber follows
    pub topics: Vec<String>,
}

/// Statistics about storage usage
#[derive(Debug, Clone, Copy, PartialEq, Eq, Structural)]
pub struct StorageStats {
    /// Number of chats with at least one subscription row
    pub total_chats: usize,
    /// Number of distinct (chat, topic) pairs
    pub total_topics: usize,
    /// Number of subscriptions, the general topic's placeholder excluded
    pub total_subscriptions: usize,
    /// Number of messages waiting for a topic name
    pub pending_requests: usize,
}

} // verus!
