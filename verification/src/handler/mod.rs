//! The bot's handling of updates: message texts, keyboards and the
//! decisions that the update handlers take.

pub mod callback;
pub mod helper_messages;
pub mod message;
pub mod ui;

use vstd::prelude::*;

use crate::constants::{NEW_TOPIC_CALLBACK, TOPIC_WRAPPER};
use crate::text::{concat2, push_char};

verus! {

/// An inline keyboard button that sends callback data.
#[derive(Debug, Clone)]
pub struct Button {
    /// The label shown on the button
    pub text: String,
    /// The callback data sent when it is pressed
    pub data: String,
}

/// The label of a topic's button: the topic and a check mark when
/// subscribed, else a plus sign and the topic.
pub open spec fn button_label(topic: Seq<char>, subscribed: bool) -> Seq<char> {
    if subscribed {
        topic + " ✓"@
    } else {
        "+ "@ + topic
    }
}

/// The callback data of a topic's button: the topic, wrapped in
/// `TOPIC_WRAPPER` on both sides when the keyboard is personalized.
pub open spec fn button_data(topic: Seq<char>, personalized: bool) -> Seq<char> {
    if personalized {
        seq![TOPIC_WRAPPER] + topic + seq![TOPIC_WRAPPER]
    } else {
        topic
    }
}

/// `b` shows `text` and sends `data`.
pub open spec fn button_is(b: Button, text: Seq<char>, data: Seq<char>) -> bool {
    b.text@ == text && b.data@ == data
}

/// `row` is the footer: the single "Create New Topic" button.
pub open spec fn is_footer(row: Seq<Button>) -> bool {
    row.len() == 1 && button_is(row[0], "Create New Topic"@, NEW_TOPIC_CALLBACK@)
}

/// `rows` lays out `topics` two per row, each button labelled by
/// `button_label` and sending `button_data`, followed by the footer row.
pub open spec fn is_topic_keyboard(
    rows: Seq<Vec<Button>>,
    topics: Seq<(Seq<char>, bool)>,
    personalized: bool,
) -> bool {
    let n = topics.len() as int;
    &&& rows.len() == (n + 1) / 2 + 1
    &&& forall|k: int| 0 <= k < (n + 1) / 2 ==> (#[trigger] rows[k])@.len() == (if 2 * k + 1 < n {
        2int
    } else {
        1int
    })
    &&& forall|i: int|
        0 <= i < n ==> button_is(
            #[trigger] rows[i / 2]@[i % 2],
            button_label(topics[i].0, topics[i].1),
            button_data(topics[i].0, personalized),
        )
    &&& is_footer(rows[(n + 1) / 2]@)
}

/// The views of a list of (topic, subscribed) pairs.
pub open spec fn pair_views(topics: Seq<(String, bool)>) -> Seq<(Seq<char>, bool)> {
    topics.map_values(|p: (String, bool)| (p.0@, p.1))
}

/// The button of one topic.
fn topic_button(topic: &str, subscribed: bool, personalized: bool) -> (b: Button)
    ensures
        button_is(b, button_label(topic@, subscribed), button_data(topic@, personalized)),
{
    let text = if subscribed {
        concat2(topic, " ✓")
    } else {
        concat2("+ ", topic)
    };
    let data = if personalized {
        let mut d = String::new();
        push_char(&mut d, TOPIC_WRAPPER);
        d.append(topic);
        push_char(&mut d, TOPIC_WRAPPER);
        assert(d@ =~= seq![TOPIC_WRAPPER] + topic@ + seq![TOPIC_WRAPPER]);
        d
    } else {
        topic.to_owned()
    };
    Button { text, data }
}

/// Build inline keyboard buttons for topic subscription: the topics two
/// per row, then the footer row.
///
/// # Arguments
/// * `topics` - List of (topic_name, is_subscribed) tuples
/// * `is_personalized` - Whether to wrap topics with TOPIC_WRAPPER for personalized callbacks
pub fn topic_buttons(topics: &[(String, bool)], is_personalized: bool) -> (rows: Vec<Vec<Button>>)
    ensures
        is_topic_keyboard(rows@, pair_views(topics@), is_personalized),
{
    let n = topics.len();
    let mut rows: Vec<Vec<Button>> = Vec::new();
    let mut i: usize = 0;
    while i < n
        invariant
            n == topics@.len(),
            i <= n,
            i % 2 == 0 || i == n,
            rows@.len() == (i + 1) / 2,
            forall|k: int| 0 <= k < (i + 1) / 2 ==> (#[trigger] rows@[k])@.len() == (if 2 * k + 1
                < n {
                2int
            } else {
                1int
            }),
            forall|j: int|
                0 <= j < i ==> button_is(
                    #[trigger] rows@[j / 2]@[j % 2],
                    button_label(topics@[j].0@, topics@[j].1),
                    button_data(topics@[j].0@, is_personalized),
                ),
        decreases n - i,
    {
        let mut row: Vec<Button> = Vec::new();
        let (topic, subscribed) = &topics[i];
        row.push(topic_button(topic.as_str(), *subscribed, is_personalized));
        i = i + 1;
        if i < n {
            let (topic2, subscribed2) = &topics[i];
            row.push(topic_button(topic2.as_str(), *subscribed2, is_personalized));
            i = i + 1;
        }
        let ghost prev = rows@;
        rows.push(row);
        assert forall|j: int|
            0 <= j < i implies button_is(
            #[trigger] rows@[j / 2]@[j % 2],
            button_label(topics@[j].0@, topics@[j].1),
            button_data(topics@[j].0@, is_personalized),
        ) by {
            if j / 2 < prev.len() {
                assert(rows@[j / 2] == prev[j / 2]);
            }
        }
    }
    let ghost prev = rows@;
    rows.push(build_footer());
    assert forall|j: int|
        0 <= j < n implies button_is(
        #[trigger] rows@[j / 2]@[j % 2],
        button_label(pair_views(topics@)[j].0, pair_views(topics@)[j].1),
        button_data(pair_views(topics@)[j].0, is_personalized),
    ) by {
        assert(rows@[j / 2] == prev[j / 2]);
    }
    rows
}

/// Build footer row with "Create new topic" button
pub fn build_footer() -> (row: Vec<Button>)
    ensures
        is_footer(row@),
{
    let mut row: Vec<Button> = Vec::new();
    row.push(Button { text: "Create New Topic".to_owned(), data: NEW_TOPIC_CALLBACK.to_owned() });
    row
}

} // verus!
