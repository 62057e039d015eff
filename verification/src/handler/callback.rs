//! Callback queries from inline buttons: topic subscriptions and topic
//! creation requests.

use vstd::prelude::*;

use crate::constants::{NEW_TOPIC_CALLBACK, TOPIC_WRAPPER};
use crate::error::BotError;
use crate::handler::message::commands::list::{mark_subscriptions, marks};
use crate::handler::ui::messages::Messages;
use crate::handler::{button_data, is_topic_keyboard, pair_views, topic_buttons, Button};
use crate::storage::cache::{
    lemma_add_membership, lemma_remove_membership, model_add, model_remove, subscribed_in,
    CacheModel,
};
use crate::text::{concat2, str_eq};
use crate::traits::message_ext::skip_char;

verus! {

/// Whether the user pressing a button may use it.
#[derive(Debug, Clone, Copy, PartialEq, Eq, Structural)]
pub enum Access {
    /// The button may be used
    Granted,
    /// The press is dropped without an answer
    Ignored,
    /// The press is refused with an alert
    Denied,
}

/// Access of `user` to a button on a message; `replied` is, when the
/// message replies to another, the reference of that message's sender
/// (`None` when the sender is unknown). A keyboard sent in reply to
/// someone is theirs alone.
pub fn callback_access(user: &str, replied: Option<Option<&str>>) -> (r: Access)
    ensures
        replied is None ==> r == Access::Granted,
        replied matches Some(None) ==> r == Access::Ignored,
        replied matches Some(Some(owner)) ==> r == (if owner@ == user@ {
            Access::Granted
        } else {
            Access::Denied
        }),
{
    match replied {
        None => Access::Granted,
        Some(None) => Access::Ignored,
        Some(Some(owner)) => if str_eq(owner, user) {
            Access::Granted
        } else {
            Access::Denied
        },
    }
}

/// What a button press asks for.
#[derive(Debug)]
pub enum CallbackKind {
    /// Create a new topic
    NewTopic,
    /// Toggle the sender's subscription to this topic (personalized list)
    Toggle(String),
    /// Subscribe the sender to this topic (welcome message)
    Direct(String),
}

/// The length of `s` without its trailing `c` characters.
pub open spec fn trimmed_end(s: Seq<char>, c: char) -> int
    decreases s.len(),
{
    if s.len() == 0 {
        0
    } else if s.last() == c {
        trimmed_end(s.drop_last(), c)
    } else {
        s.len() as int
    }
}

/// `s` without its leading and then its trailing `c` characters.
pub open spec fn trim_both(s: Seq<char>, c: char) -> Seq<char> {
    let rest = s.subrange(skip_char(s, 0, c), s.len() as int);
    rest.subrange(0, trimmed_end(rest, c))
}

/// Whether callback data is wrapped in `TOPIC_WRAPPER` on both ends.
pub open spec fn wrapped(data: Seq<char>) -> bool {
    data.len() > 0 && data[0] == TOPIC_WRAPPER && data.last() == TOPIC_WRAPPER
}

/// What the callback data `data` asks for: `NEW_TOPIC_CALLBACK` asks for a
/// new topic; data wrapped in `TOPIC_WRAPPER` toggles the topic inside
/// (all wrapper characters trimmed from both ends); anything else
/// subscribes to the topic it names.
pub fn classify_callback(data: &str) -> (r: CallbackKind)
    ensures
        data@ == NEW_TOPIC_CALLBACK@ ==> r is NewTopic,
        data@ != NEW_TOPIC_CALLBACK@ && wrapped(data@) ==> (r is Toggle && r->Toggle_0@ == trim_both(
            data@,
            TOPIC_WRAPPER,
        )),
        data@ != NEW_TOPIC_CALLBACK@ && !wrapped(data@) ==> (r is Direct && r->Direct_0@ == data@),
{
    if str_eq(data, NEW_TOPIC_CALLBACK) {
        return CallbackKind::NewTopic;
    }
    let n = data.unicode_len();
    if n > 0 && data.get_char(0) == TOPIC_WRAPPER && data.get_char(n - 1) == TOPIC_WRAPPER {
        let ghost s = data@;
        let mut a: usize = 0;
        while a < n && data.get_char(a) == TOPIC_WRAPPER
            invariant
                n == s.len(),
                s == data@,
                a <= n,
                skip_char(s, 0, TOPIC_WRAPPER) == skip_char(s, a as int, TOPIC_WRAPPER),
            decreases n - a,
        {
            a = a + 1;
        }
        let ghost rest = s.subrange(a as int, n as int);
        let mut b: usize = n;
        while b > a && data.get_char(b - 1) == TOPIC_WRAPPER
            invariant
                n == s.len(),
                s == data@,
                a <= b <= n,
                rest == s.subrange(a as int, n as int),
                trimmed_end(rest, TOPIC_WRAPPER) == trimmed_end(
                    s.subrange(a as int, b as int),
                    TOPIC_WRAPPER,
                ),
            decreases b,
        {
            assert(s.subrange(a as int, b - 1) =~= s.subrange(a as int, b as int).drop_last());
            b = b - 1;
        }
        proof {
            let part = s.subrange(a as int, b as int);
            if b > a {
                assert(part.last() != TOPIC_WRAPPER);
            }
            assert(trimmed_end(part, TOPIC_WRAPPER) == b - a);
            assert(rest.subrange(0, b - a) =~= part);
        }
        return CallbackKind::Toggle(data.substring_char(a, b).to_owned());
    }
    CallbackKind::Direct(data.to_owned())
}

/// What a press on a topic's personalized button does.
#[derive(Debug, Clone, Copy, PartialEq, Eq, Structural)]
pub enum ToggleAction {
    /// Unsubscribe the user from the topic
    Unsubscribe,
    /// Subscribe the user to the topic
    Subscribe,
}

/// The action of a press on a topic's button by a user who follows the
/// topic (`was_subscribed`) or not.
pub open spec fn toggle_choice(was_subscribed: bool) -> ToggleAction {
    if was_subscribed {
        ToggleAction::Unsubscribe
    } else {
        ToggleAction::Subscribe
    }
}

/// What a press on a topic's personalized button does: a follower of the
/// topic unsubscribes, anyone else subscribes.
pub fn toggle_action(was_subscribed: bool) -> (r: ToggleAction)
    ensures
        r == toggle_choice(was_subscribed),
{
    if was_subscribed {
        ToggleAction::Unsubscribe
    } else {
        ToggleAction::Subscribe
    }
}

/// The subscriptions after user `u` presses topic `t`'s button in chat `c`.
pub open spec fn after_toggle(m: CacheModel, c: i64, t: Seq<char>, u: Seq<char>) -> CacheModel {
    match toggle_choice(subscribed_in(m, c, t, u)) {
        ToggleAction::Unsubscribe => model_remove(m, c, t, u),
        ToggleAction::Subscribe => model_add(m, c, t, set![u]),
    }
}

/// Pressing a topic's button flips the user's subscription to that topic
/// and leaves every other subscription as it was.
pub proof fn law_toggle_flips(m: CacheModel, c: i64, t: Seq<char>, u: Seq<char>)
    ensures
        subscribed_in(after_toggle(m, c, t, u), c, t, u) == !subscribed_in(m, c, t, u),
        forall|c2: i64, t2: Seq<char>, u2: Seq<char>|
            !(c2 == c && t2 == t && u2 == u) ==> (#[trigger] subscribed_in(
                after_toggle(m, c, t, u),
                c2,
                t2,
                u2,
            ) == subscribed_in(m, c2, t2, u2)),
{
    if subscribed_in(m, c, t, u) {
        lemma_remove_membership(m, c, t, u, c, t, u);
        assert forall|c2: i64, t2: Seq<char>, u2: Seq<char>| !(c2 == c && t2 == t && u2 == u)
            implies #[trigger] subscribed_in(after_toggle(m, c, t, u), c2, t2, u2) == subscribed_in(
            m,
            c2,
            t2,
            u2,
        ) by {
            lemma_remove_membership(m, c, t, u, c2, t2, u2);
        }
    } else {
        lemma_add_membership(m, c, t, set![u], c, t, u);
        assert forall|c2: i64, t2: Seq<char>, u2: Seq<char>| !(c2 == c && t2 == t && u2 == u)
            implies #[trigger] subscribed_in(after_toggle(m, c, t, u), c2, t2, u2) == subscribed_in(
            m,
            c2,
            t2,
            u2,
        ) by {
            lemma_add_membership(m, c, t, set![u], c2, t2, u2);
        }
    }
}

/// The strings of a list that may be missing (none when it is).
pub open spec fn listed_or_none(v: Option<Vec<String>>) -> Seq<String> {
    match v {
        Some(items) => items@,
        None => Seq::empty(),
    }
}

/// The personalized keyboard shown again after a toggle: every topic of the
/// chat (none when the chat is unknown), each marked with whether the user
/// now follows it (none marked when their subscriptions are unknown).
pub fn toggle_keyboard(all_topics: Option<Vec<String>>, subscriptions: Option<Vec<String>>) -> (rows:
    Vec<Vec<Button>>)
    ensures
        is_topic_keyboard(
            rows@,
            marks(listed_or_none(all_topics), listed_or_none(subscriptions)),
            true,
        ),
{
    let all = match all_topics {
        Some(v) => v,
        None => Vec::new(),
    };
    let subs = match subscriptions {
        Some(v) => v,
        None => Vec::new(),
    };
    let marked = mark_subscriptions(all.as_slice(), subs.as_slice());
    assert(pair_views(marked@) =~= marks(all@, subs@));
    topic_buttons(marked.as_slice(), true)
}

/// What answering a press does once the storage was written.
#[derive(Debug)]
pub struct PressReply {
    /// The text the press is answered with (`None`: answered without text)
    pub notice: Option<String>,
    /// A message then sent to the chat, if any
    pub message: Option<String>,
    /// Whether the personalized keyboard is then shown again
    pub refresh: bool,
}

/// The reply to a press on topic `topic`'s personalized button, once the
/// chosen `action` was written with outcome `written`: a failed
/// unsubscription is answered without text; a failed subscription is
/// answered without text and reported in the chat; a success is answered
/// with its notice and the keyboard is shown again.
pub fn toggle_reply(topic: &str, action: ToggleAction, written: &Result<(), BotError>) -> (r:
    PressReply)
    ensures
        match (action, written) {
            (ToggleAction::Unsubscribe, Err(_)) => r.notice is None && r.message is None
                && !r.refresh,
            (ToggleAction::Subscribe, Err(e)) => r.notice is None && (r.message matches Some(m)
                && m@ == "Failed to subscribe: "@ + e.text()) && !r.refresh,
            (ToggleAction::Unsubscribe, Ok(_)) => (r.notice matches Some(n) && n@
                == "Unsubscribed from "@ + topic@) && r.message is None && r.refresh,
            (ToggleAction::Subscribe, Ok(_)) => (r.notice matches Some(n) && n@ == "Subscribed to "@
                + topic@) && r.message is None && r.refresh,
        },
{
    match (action, written) {
        (ToggleAction::Unsubscribe, Err(_)) => PressReply { notice: None, message: None, refresh: false },
        (ToggleAction::Subscribe, Err(e)) => PressReply {
            notice: None,
            message: Some(subscribe_failed_text(e)),
            refresh: false,
        },
        (ToggleAction::Unsubscribe, Ok(_)) => PressReply {
            notice: Some(unsubscribed_notice(topic)),
            message: None,
            refresh: true,
        },
        (ToggleAction::Subscribe, Ok(_)) => PressReply {
            notice: Some(subscribed_notice(topic)),
            message: None,
            refresh: true,
        },
    }
}

/// The reply to a press on topic `topic`'s button of the welcome keyboard,
/// which subscribes `user` directly, once written with outcome `written`:
/// a failure is answered without text and reported in the chat; a success
/// is answered with its notice and announced in the chat.
pub fn direct_reply(user: &str, topic: &str, written: &Result<(), BotError>) -> (r: PressReply)
    ensures
        match written {
            Err(e) => r.notice is None && (r.message matches Some(m) && m@ == "Failed to subscribe: "@
                + e.text()) && !r.refresh,
            Ok(_) => (r.notice matches Some(n) && n@ == "Subscribed to "@ + topic@) && (r.message matches Some(
                m,
            ) && m@ == user@ + " subscribed topic `"@ + topic@ + "`"@) && !r.refresh,
        },
{
    match written {
        Err(e) => PressReply { notice: None, message: Some(subscribe_failed_text(e)), refresh: false },
        Ok(_) => PressReply {
            notice: Some(subscribed_notice(topic)),
            message: Some(Messages::user_subscribed_topic(user, topic)),
            refresh: false,
        },
    }
}

/// The answer to a press on someone else's keyboard.
pub fn denied_text() -> (r: String)
    ensures
        r@ == "This is not your subscription list"@,
{
    "This is not your subscription list".to_owned()
}

/// The notice after subscribing to `topic`.
pub fn subscribed_notice(topic: &str) -> (r: String)
    ensures
        r@ == "Subscribed to "@ + topic@,
{
    concat2("Subscribed to ", topic)
}

/// The notice after unsubscribing from `topic`.
pub fn unsubscribed_notice(topic: &str) -> (r: String)
    ensures
        r@ == "Unsubscribed from "@ + topic@,
{
    concat2("Unsubscribed from ", topic)
}

/// The message sent when subscribing failed with `err`.
pub fn subscribe_failed_text(err: &BotError) -> (r: String)
    ensures
        r@ == "Failed to subscribe: "@ + err.text(),
{
    let m = err.message();
    concat2("Failed to subscribe: ", m.as_str())
}

} // verus!

verus! {

/// Pressing a topic's button on a personalized keyboard toggles exactly
/// that topic, for any topic that neither starts nor ends with
/// `TOPIC_WRAPPER`.
pub proof fn law_personalized_button_roundtrip(topic: Seq<char>)
    requires
        topic.len() == 0 || (topic[0] != TOPIC_WRAPPER && topic.last() != TOPIC_WRAPPER),
    ensures
        button_data(topic, true) != NEW_TOPIC_CALLBACK@,
        wrapped(button_data(topic, true)),
        trim_both(button_data(topic, true), TOPIC_WRAPPER) == topic,
{
    reveal_strlit("new_topic");
    let data = button_data(topic, true);
    assert(data[0] == TOPIC_WRAPPER);
    assert(NEW_TOPIC_CALLBACK@[0] == 'n');
    if topic.len() == 0 {
        assert(data.len() == 2);
        assert(skip_char(data, 2, TOPIC_WRAPPER) == 2);
        assert(skip_char(data, 1, TOPIC_WRAPPER) == 2);
        let rest = data.subrange(2, 2);
        assert(trimmed_end(rest, TOPIC_WRAPPER) == 0);
        assert(rest.subrange(0, 0) =~= topic);
    } else {
        assert(data[1] == topic[0]);
        assert(skip_char(data, 1, TOPIC_WRAPPER) == 1);
        let rest = data.subrange(1, data.len() as int);
        assert(rest =~= topic.push(TOPIC_WRAPPER));
        assert(rest.drop_last() =~= topic);
        assert(trimmed_end(topic, TOPIC_WRAPPER) == topic.len());
        assert(trimmed_end(rest, TOPIC_WRAPPER) == topic.len());
        assert(rest.subrange(0, topic.len() as int) =~= topic);
    }
}

} // verus!
