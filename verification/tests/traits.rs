use ping_buddy_lib::text::{i64_text, join_with_spaces, usize_text};
use ping_buddy_lib::traits::message_ext::{topic_from_text, ChatIdExt, MessageInfo, TopicExt};
use ping_buddy_lib::traits::user_ext::{UserInfo, UserRefExt};

fn user(id: u64, first: &str, username: Option<&str>) -> UserInfo {
    UserInfo {
        id,
        is_bot: false,
        first_name: first.to_string(),
        username: username.map(|s| s.to_string()),
    }
}

#[test]
fn user_ref_prefers_username() {
    assert_eq!(user(42, "Ann", Some("ann_k")).user_ref(), "[ann_k](tg://user?id=42)");
}

#[test]
fn user_ref_falls_back_to_first_name() {
    assert_eq!(user(7, "Bob", None).user_ref(), "[Bob](tg://user?id=7)");
    assert_eq!(
        user(u64::MAX, "Max", None).user_ref(),
        "[Max](tg://user?id=18446744073709551615)"
    );
    assert_eq!(user(0, "Zero", None).user_ref(), "[Zero](tg://user?id=0)");
}

#[test]
fn topic_from_command_text() {
    assert_eq!(topic_from_text("/dev please look"), Some("dev"));
    assert_eq!(topic_from_text("/dev"), Some("dev"));
    assert_eq!(topic_from_text("//dev x"), Some("dev"));
    assert_eq!(topic_from_text("/dev\tnext"), Some("dev"));
    assert_eq!(topic_from_text("/"), Some(""));
    assert_eq!(topic_from_text("dev"), None);
    assert_eq!(topic_from_text(" /dev"), None);
    assert_eq!(topic_from_text(""), None);
}

fn message(text: Option<&str>) -> MessageInfo {
    MessageInfo {
        chat_id: -1001,
        id: 9,
        text: text.map(|s| s.to_string()),
        from: Some(user(1, "Ann", None)),
    }
}

#[test]
fn message_topic_and_chat() {
    let m = message(Some("/ops now"));
    assert_eq!(m.topic(), Some("ops"));
    assert_eq!(m.cid(), -1001);
    assert_eq!(message(None).topic(), None);
    assert_eq!(message(Some("hello")).topic(), None);
}

#[test]
fn number_texts() {
    assert_eq!(usize_text(0), "0");
    assert_eq!(usize_text(1000), "1000");
    assert_eq!(i64_text(-5), "-5");
    assert_eq!(i64_text(i64::MIN), "-9223372036854775808");
}

#[test]
fn joined_with_spaces() {
    let items = vec!["a".to_string(), "bc".to_string()];
    assert_eq!(join_with_spaces(&items), "a bc");
    assert_eq!(join_with_spaces(&[]), "");
}

#[test]
fn topic_split_matches_std_whitespace() {
    assert_eq!(topic_from_text("/dev\u{3000}x"), Some("dev"));
    assert_eq!(topic_from_text("/dev\u{a0}x"), Some("dev"));
    assert_eq!(topic_from_text("/dev\u{200b}x"), Some("dev\u{200b}x"));
    for code in 0u32..=0x10FFFF {
        if let Some(c) = char::from_u32(code) {
            let text = format!("/a{}b", c);
            let expected = text
                .split_whitespace()
                .next()
                .map(|t| t.trim_start_matches('/'));
            assert_eq!(topic_from_text(&text), expected, "at U+{:04X}", code);
        }
    }
}
