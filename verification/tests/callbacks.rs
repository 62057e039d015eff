use ping_buddy_lib::error::BotError;
use ping_buddy_lib::handler::callback::{
    callback_access, classify_callback, denied_text, subscribe_failed_text, subscribed_notice,
    direct_reply, toggle_action, toggle_keyboard, toggle_reply, unsubscribed_notice, Access,
    CallbackKind, ToggleAction,
};
use ping_buddy_lib::handler::message::dynamic::common::{
    creation_failed_text, creation_reply, creation_step, CreationStep,
};
use ping_buddy_lib::handler::topic_buttons;
use ping_buddy_lib::storage::cache::SubscriptionCache;

#[test]
fn access_without_reply_is_granted() {
    assert_eq!(callback_access("ann", None), Access::Granted);
}

#[test]
fn access_to_unknown_owner_is_ignored() {
    assert_eq!(callback_access("ann", Some(None)), Access::Ignored);
}

#[test]
fn access_by_owner_only() {
    assert_eq!(callback_access("ann", Some(Some("ann"))), Access::Granted);
    assert_eq!(callback_access("bob", Some(Some("ann"))), Access::Denied);
}

#[test]
fn classify_new_topic() {
    assert!(matches!(classify_callback("new_topic"), CallbackKind::NewTopic));
}

#[test]
fn classify_toggle_trims_wrappers() {
    match classify_callback("#dev#") {
        CallbackKind::Toggle(t) => assert_eq!(t, "dev"),
        other => panic!("unexpected {:?}", other),
    }
    match classify_callback("##dev##") {
        CallbackKind::Toggle(t) => assert_eq!(t, "dev"),
        other => panic!("unexpected {:?}", other),
    }
    match classify_callback("#") {
        CallbackKind::Toggle(t) => assert_eq!(t, ""),
        other => panic!("unexpected {:?}", other),
    }
}

#[test]
fn classify_direct_topic() {
    match classify_callback("general") {
        CallbackKind::Direct(t) => assert_eq!(t, "general"),
        other => panic!("unexpected {:?}", other),
    }
    match classify_callback("#half") {
        CallbackKind::Direct(t) => assert_eq!(t, "#half"),
        other => panic!("unexpected {:?}", other),
    }
}

#[test]
fn personalized_button_roundtrip_on_values() {
    let rows = topic_buttons(&[("team_a".to_string(), false)], true);
    match classify_callback(&rows[0][0].data) {
        CallbackKind::Toggle(t) => assert_eq!(t, "team_a"),
        other => panic!("unexpected {:?}", other),
    }
    let rows = topic_buttons(&[("team_a".to_string(), false)], false);
    match classify_callback(&rows[0][0].data) {
        CallbackKind::Direct(t) => assert_eq!(t, "team_a"),
        other => panic!("unexpected {:?}", other),
    }
}

#[test]
fn callback_notices() {
    assert_eq!(denied_text(), "This is not your subscription list");
    assert_eq!(subscribed_notice("dev"), "Subscribed to dev");
    assert_eq!(unsubscribed_notice("dev"), "Unsubscribed from dev");
    assert_eq!(
        subscribe_failed_text(&BotError::Database("locked".to_string())),
        "Failed to subscribe: Database error: locked"
    );
}

fn reply_text(step: CreationStep) -> String {
    match step {
        CreationStep::Reply(t) => t,
        other => panic!("unexpected {:?}", other),
    }
}

#[test]
fn creation_expired_request() {
    assert_eq!(
        reply_text(creation_step(false, Some("dev"), Some("ann"))),
        "This request is no longer valid."
    );
}

#[test]
fn creation_without_text() {
    assert_eq!(
        reply_text(creation_step(true, None, Some("ann"))),
        "Invalid topic format, try another one :\\("
    );
}

#[test]
fn creation_with_invalid_name() {
    assert_eq!(
        reply_text(creation_step(true, Some("my topic"), Some("ann"))),
        "`my topic` is not a valid topic, try another one :\\("
    );
    assert_eq!(
        reply_text(creation_step(true, Some("everyone"), Some("ann"))),
        "`everyone` is not a valid topic, try another one :\\("
    );
}

#[test]
fn creation_without_sender_is_ignored() {
    assert!(matches!(creation_step(true, Some("dev"), None), CreationStep::Ignore));
}

#[test]
fn creation_creates_topic() {
    match creation_step(true, Some("dev_team"), Some("ann")) {
        CreationStep::Create { topic, user } => {
            assert_eq!(topic, "dev_team");
            assert_eq!(user, "ann");
        }
        other => panic!("unexpected {:?}", other),
    }
}

#[test]
fn creation_failure_text() {
    let err = BotError::TopicLimitReached { limit: 100, chat_id: -42 };
    assert_eq!(
        creation_failed_text(&err),
        "Failed to create topic: Topic limit reached: 100 topics in chat -42"
    );
}

#[test]
fn keyboard_after_toggle() {
    let all = Some(vec!["dev".to_string(), "ops".to_string(), "qa".to_string()]);
    let subs = Some(vec!["qa".to_string()]);
    let rows = toggle_keyboard(all, subs);
    let labels: Vec<Vec<(String, String)>> = rows
        .iter()
        .map(|r| r.iter().map(|b| (b.text.clone(), b.data.clone())).collect())
        .collect();
    assert_eq!(
        labels,
        vec![
            vec![
                ("+ dev".to_string(), "#dev#".to_string()),
                ("+ ops".to_string(), "#ops#".to_string())
            ],
            vec![("qa ✓".to_string(), "#qa#".to_string())],
            vec![("Create New Topic".to_string(), "new_topic".to_string())],
        ]
    );
    let rows = toggle_keyboard(None, None);
    assert_eq!(rows.len(), 1);
    assert_eq!(rows[0][0].data, "new_topic");
    let rows = toggle_keyboard(Some(vec!["dev".to_string()]), None);
    assert_eq!(rows[0][0].text, "+ dev");
}

#[test]
fn toggle_chooses_by_subscription() {
    assert_eq!(toggle_action(true), ToggleAction::Unsubscribe);
    assert_eq!(toggle_action(false), ToggleAction::Subscribe);
}

#[test]
fn toggle_flips_subscription_in_cache() {
    let mut c = SubscriptionCache::new();
    c.add_subscription(1, "dev", "bob");
    for _ in 0..3 {
        let was = c.is_subscriber_in_topic(1, "ann", "dev");
        match toggle_action(was) {
            ToggleAction::Unsubscribe => {
                c.remove_subscription(1, "dev", "ann");
            }
            ToggleAction::Subscribe => c.add_subscription(1, "dev", "ann"),
        }
        assert_eq!(c.is_subscriber_in_topic(1, "ann", "dev"), !was);
        assert!(c.is_subscriber_in_topic(1, "bob", "dev"));
    }
}

#[test]
fn toggle_replies() {
    let failed: Result<(), BotError> = Err(BotError::Database("locked".to_string()));
    let r = toggle_reply("dev", ToggleAction::Unsubscribe, &failed);
    assert_eq!((r.notice, r.message, r.refresh), (None, None, false));
    let r = toggle_reply("dev", ToggleAction::Subscribe, &failed);
    assert_eq!(r.notice, None);
    assert_eq!(r.message.as_deref(), Some("Failed to subscribe: Database error: locked"));
    assert!(!r.refresh);
    let r = toggle_reply("dev", ToggleAction::Unsubscribe, &Ok(()));
    assert_eq!(r.notice.as_deref(), Some("Unsubscribed from dev"));
    assert_eq!(r.message, None);
    assert!(r.refresh);
    let r = toggle_reply("dev", ToggleAction::Subscribe, &Ok(()));
    assert_eq!(r.notice.as_deref(), Some("Subscribed to dev"));
    assert!(r.refresh);
}

#[test]
fn direct_replies() {
    let failed: Result<(), BotError> =
        Err(BotError::SubscriberLimitReached { limit: 1000, topic: "dev".to_string() });
    let r = direct_reply("ann", "dev", &failed);
    assert_eq!(r.notice, None);
    assert_eq!(
        r.message.as_deref(),
        Some("Failed to subscribe: Subscriber limit reached: 1000 subscribers for topic 'dev'")
    );
    let r = direct_reply("ann", "dev", &Ok(()));
    assert_eq!(r.notice.as_deref(), Some("Subscribed to dev"));
    assert_eq!(r.message.as_deref(), Some("ann subscribed topic `dev`"));
    assert!(!r.refresh);
}

#[test]
fn creation_replies() {
    let failed: Result<(), BotError> = Err(BotError::TopicLimitReached { limit: 100, chat_id: 7 });
    let r = creation_reply("ann", "dev", &failed);
    assert_eq!(r.message, "Failed to create topic: Topic limit reached: 100 topics in chat 7");
    assert!(!r.close_request);
    let r = creation_reply("ann", "dev", &Ok(()));
    assert_eq!(r.message, "ann subscribed topic `dev`");
    assert!(r.close_request);
}
