use ping_buddy_lib::handler::message::commands::list::{
    has_topics, mark_subscriptions, no_topics_reply, topics_reply,
};
use ping_buddy_lib::handler::message::dynamic::new_members::{
    general_only, member_kind, welcome_topics, MemberKind,
};
use ping_buddy_lib::handler::{build_footer, topic_buttons, Button};

fn strings(items: &[&str]) -> Vec<String> {
    items.iter().map(|s| s.to_string()).collect()
}

fn texts(rows: &[Vec<Button>]) -> Vec<Vec<(String, String)>> {
    rows.iter()
        .map(|row| row.iter().map(|b| (b.text.clone(), b.data.clone())).collect())
        .collect()
}

fn pair(a: &str, b: &str) -> (String, String) {
    (a.to_string(), b.to_string())
}

#[test]
fn footer_is_create_button() {
    let row = build_footer();
    assert_eq!(row.len(), 1);
    assert_eq!(row[0].text, "Create New Topic");
    assert_eq!(row[0].data, "new_topic");
}

#[test]
fn buttons_two_per_row_plain() {
    let topics = vec![
        ("general".to_string(), false),
        ("dev".to_string(), true),
        ("ops".to_string(), false),
    ];
    let rows = topic_buttons(&topics, false);
    assert_eq!(
        texts(&rows),
        vec![
            vec![pair("+ general", "general"), pair("dev ✓", "dev")],
            vec![pair("+ ops", "ops")],
            vec![pair("Create New Topic", "new_topic")],
        ]
    );
}

#[test]
fn buttons_personalized_are_wrapped() {
    let topics = vec![("dev".to_string(), true), ("qa".to_string(), false)];
    let rows = topic_buttons(&topics, true);
    assert_eq!(
        texts(&rows),
        vec![
            vec![pair("dev ✓", "#dev#"), pair("+ qa", "#qa#")],
            vec![pair("Create New Topic", "new_topic")],
        ]
    );
}

#[test]
fn buttons_without_topics_only_footer() {
    let rows = topic_buttons(&[], true);
    assert_eq!(texts(&rows), vec![vec![pair("Create New Topic", "new_topic")]]);
}

#[test]
fn marks_follow_subscriptions() {
    let all = strings(&["a", "b", "c"]);
    let subs = strings(&["c", "a"]);
    let marked = mark_subscriptions(&all, &subs);
    assert_eq!(
        marked,
        vec![("a".to_string(), true), ("b".to_string(), false), ("c".to_string(), true)]
    );
}

#[test]
fn list_reply_with_topics() {
    let all = strings(&["general", "dev"]);
    let subs = strings(&["dev"]);
    let reply = topics_reply(&all, &subs);
    assert_eq!(reply.text, "Your subscriptions");
    assert_eq!(
        texts(&reply.keyboard),
        vec![
            vec![pair("+ general", "#general#"), pair("dev ✓", "#dev#")],
            vec![pair("Create New Topic", "new_topic")],
        ]
    );
}

#[test]
fn list_reply_without_topics() {
    let reply = no_topics_reply();
    assert_eq!(reply.text, "No topics available yet\\. Create one\\!");
    assert_eq!(texts(&reply.keyboard), vec![vec![pair("Create New Topic", "new_topic")]]);
}

#[test]
fn has_topics_cases() {
    assert!(!has_topics(&None));
    assert!(!has_topics(&Some(Vec::new())));
    assert!(has_topics(&Some(strings(&["x"]))));
}

#[test]
fn member_kinds() {
    assert_eq!(member_kind(false, Some("PingBuddyBot")), MemberKind::Person);
    assert_eq!(member_kind(true, Some("PingBuddyBot")), MemberKind::ThisBot);
    assert_eq!(member_kind(true, Some("OtherBot")), MemberKind::OtherBot);
    assert_eq!(member_kind(true, None), MemberKind::OtherBot);
    assert_eq!(member_kind(false, None), MemberKind::Person);
}

#[test]
fn welcome_offers_chat_topics() {
    assert_eq!(general_only(), vec![("general".to_string(), false)]);
    assert_eq!(welcome_topics(None), vec![("general".to_string(), false)]);
    assert_eq!(
        welcome_topics(Some(strings(&["dev", "ops"]))),
        vec![("dev".to_string(), false), ("ops".to_string(), false)]
    );
    assert_eq!(welcome_topics(Some(Vec::new())), Vec::<(String, bool)>::new());
}
