//! Messages, their chat and the topic that a command names.

use vstd::prelude::*;

use crate::constants::MSG_PREFIX;
use crate::traits::user_ext::UserInfo;

verus! {

/// What the bot reads of a Telegram message.
#[derive(Debug, Clone)]
pub struct MessageInfo {
    /// The chat the message belongs to
    pub chat_id: i64,
    /// The message's id within its chat
    pub id: i32,
    /// The message's text, if it is a text message
    pub text: Option<String>,
    /// The message's sender, if known
    pub from: Option<UserInfo>,
}

/// Whether `c` has the Unicode `White_Space` property, which is what
/// `char::is_whitespace` tests and `str::split_whitespace` splits on: the
/// controls U+0009 to U+000D, the space, U+0085, the no-break space U+00A0,
/// U+1680, U+2000 to U+200A, the line and paragraph separators U+2028 and
/// U+2029, U+202F, U+205F and U+3000.
pub open spec fn whitespace(c: char) -> bool {
    let n = c as int;
    ||| 0x09 <= n <= 0x0D
    ||| n == 0x20
    ||| n == 0x85
    ||| n == 0xA0
    ||| n == 0x1680
    ||| 0x2000 <= n <= 0x200A
    ||| n == 0x2028
    ||| n == 0x2029
    ||| n == 0x202F
    ||| n == 0x205F
    ||| n == 0x3000
}

/// Whether `c` is whitespace (see `whitespace`).
fn is_whitespace(c: char) -> (r: bool)
    ensures
        r == whitespace(c),
{
    let n = c as u32;
    (0x09 <= n && n <= 0x0D) || n == 0x20 || n == 0x85 || n == 0xA0 || n == 0x1680 || (0x2000
        <= n && n <= 0x200A) || n == 0x2028 || n == 0x2029 || n == 0x202F || n == 0x205F || n
        == 0x3000
}

/// The first index at or after `i` whose character is not whitespace (the
/// length when there is none).
pub open spec fn skip_space(s: Seq<char>, i: int) -> int
    decreases s.len() - i,
{
    if i >= s.len() {
        s.len() as int
    } else if whitespace(s[i]) {
        skip_space(s, i + 1)
    } else {
        i
    }
}

/// The first index at or after `i` whose character is whitespace (the
/// length when there is none).
pub open spec fn skip_word(s: Seq<char>, i: int) -> int
    decreases s.len() - i,
{
    if i >= s.len() {
        s.len() as int
    } else if whitespace(s[i]) {
        i
    } else {
        skip_word(s, i + 1)
    }
}

/// The first index at or after `i` whose character is not `c` (the length
/// when there is none).
pub open spec fn skip_char(s: Seq<char>, i: int, c: char) -> int
    decreases s.len() - i,
{
    if i >= s.len() {
        s.len() as int
    } else if s[i] == c {
        skip_char(s, i + 1, c)
    } else {
        i
    }
}

/// The topic named by a message text: when the text starts with
/// `MSG_PREFIX`, its first whitespace-separated word without its leading
/// prefix characters.
pub open spec fn topic_of_text(text: Seq<char>) -> Option<Seq<char>> {
    if text.len() > 0 && text[0] == MSG_PREFIX {
        let start = skip_space(text, 0);
        if start < text.len() {
            let end = skip_word(text, start);
            let word = text.subrange(start, end);
            Some(word.subrange(skip_char(word, 0, MSG_PREFIX), word.len() as int))
        } else {
            None
        }
    } else {
        None
    }
}

/// Extract chat ID from a message
pub trait ChatIdExt {
    /// Get the chat ID as i64
    fn cid(&self) -> i64;
}

impl ChatIdExt for MessageInfo {
    /// The id of the message's chat.
    fn cid(&self) -> (r: i64)
        ensures
            r == self.chat_id,
    {
        self.chat_id
    }
}

/// Extract topic name from a message
pub trait TopicExt {
    /// Extract topic name from message text (if it starts with MSG_PREFIX)
    fn topic(&self) -> Option<&str>;
}

impl TopicExt for MessageInfo {
    /// The topic that the message's text names (see `topic_of_text`).
    fn topic(&self) -> (r: Option<&str>)
        ensures
            match self.text {
                Some(t) => match (r, topic_of_text(t@)) {
                    (Some(a), Some(b)) => a@ == b,
                    (None, None) => true,
                    _ => false,
                },
                None => r is None,
            },
    {
        match &self.text {
            Some(t) => topic_from_text(t.as_str()),
            None => None,
        }
    }
}

/// The topic that `text` names (see `topic_of_text`).
pub fn topic_from_text(text: &str) -> (r: Option<&str>)
    ensures
        match (r, topic_of_text(text@)) {
            (Some(a), Some(b)) => a@ == b,
            (None, None) => true,
            _ => false,
        },
{
    let n = text.unicode_len();
    if n == 0 || text.get_char(0) != MSG_PREFIX {
        return None;
    }
    let ghost s = text@;
    let mut start: usize = 0;
    while start < n && is_whitespace(text.get_char(start))
        invariant
            n == s.len(),
            s == text@,
            start <= n,
            skip_space(s, 0) == skip_space(s, start as int),
        decreases n - start,
    {
        start = start + 1;
    }
    if start >= n {
        return None;
    }
    let mut end: usize = start;
    while end < n && !is_whitespace(text.get_char(end))
        invariant
            n == s.len(),
            s == text@,
            start <= end <= n,
            skip_word(s, start as int) == skip_word(s, end as int),
        decreases n - end,
    {
        end = end + 1;
    }
    let ghost word = s.subrange(start as int, end as int);
    let mut k: usize = start;
    while k < end && text.get_char(k) == MSG_PREFIX
        invariant
            n == s.len(),
            s == text@,
            word == s.subrange(start as int, end as int),
            start <= k <= end <= n,
            skip_char(word, 0, MSG_PREFIX) == skip_char(word, k - start, MSG_PREFIX),
        decreases end - k,
    {
        k = k + 1;
    }
    assert(s.subrange(k as int, end as int) =~= word.subrange(k - start, word.len() as int));
    Some(text.substring_char(k, end))
}

} // verus!
