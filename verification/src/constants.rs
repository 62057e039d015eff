//! Application-wide constants.

use vstd::prelude::*;

verus! {

/// Default topic name for new groups
pub const GENERAL_TOPIC: &'static str = "general";

/// Bot username for self-identification
pub const BOT_USERNAME: &'static str = "PingBuddyBot";

/// Time to live for bot messages before auto-deletion (in seconds)
pub const BOT_MSG_TTL: u64 = 30;

/// Maximum length for topic names (in characters)
pub const MAX_TOPIC_LENGTH: usize = 50;

/// Maximum number of topics per chat
pub const MAX_TOPICS_PER_CHAT: usize = 100;

/// Maximum number of subscribers per topic
pub const MAX_SUBSCRIBERS_PER_TOPIC: usize = 1000;

/// Character used to wrap topic names in personalized callbacks
pub const TOPIC_WRAPPER: char = '#';

/// Callback data for creating a new topic
pub const NEW_TOPIC_CALLBACK: &'static str = "new_topic";

/// Message prefix for topic commands
pub const MSG_PREFIX: char = '/';

/// Maximum length for user references
pub const MAX_USER_REF_LENGTH: usize = 200;

/// User id under which the persistent store keeps the general topic alive.
pub const SYSTEM_SENTINEL: &'static str = "__SYSTEM__";

/// Reserved topic names that cannot be used
pub const RESERVED_TOPICS: [&'static str; 4] = ["all", "everyone", "here", "channel"];

/// Whether `name` is one of the reserved topic names.
pub open spec fn is_reserved_name(name: Seq<char>) -> bool {
    ||| name == "all"@
    ||| name == "everyone"@
    ||| name == "here"@
    ||| name == "channel"@
}

} // verus!
