//! Input validation of topic names.

use vstd::prelude::*;

use crate::constants::{is_reserved_name, MAX_TOPIC_LENGTH, RESERVED_TOPICS};
use crate::error::TopicValidationError;
use crate::text::chars_of;

verus! {

/// What `char::is_alphanumeric` returns for `c` (the Unicode `Alphabetic`
/// or `Numeric` property).
pub uninterp spec fn alphanumeric(c: char) -> bool;

/// What `char::is_alphabetic` returns for `c` (the Unicode `Alphabetic`
/// property).
pub uninterp spec fn alphabetic(c: char) -> bool;

/// What `str::to_lowercase` returns for `s`: its Unicode lowercase mapping
/// (including the context rule for a word-final capital sigma).
pub uninterp spec fn lowercase(s: Seq<char>) -> Seq<char>;

/// Whether `c` is an ASCII character.
pub open spec fn ascii(c: char) -> bool {
    (c as int) < 128
}

/// Whether `c` is one of the ASCII letters `A` to `Z` and `a` to `z`.
pub open spec fn ascii_letter(c: char) -> bool {
    (65 <= (c as int) <= 90) || (97 <= (c as int) <= 122)
}

/// Whether `c` is one of the ASCII digits `0` to `9`.
pub open spec fn ascii_digit(c: char) -> bool {
    48 <= (c as int) <= 57
}

/// Whether `c` is alphabetic: among ASCII characters exactly the letters,
/// elsewhere as `alphabetic` says.
pub open spec fn letter(c: char) -> bool {
    if ascii(c) {
        ascii_letter(c)
    } else {
        alphabetic(c)
    }
}

/// Whether `c` is alphanumeric: among ASCII characters exactly the letters
/// and digits, elsewhere as `alphanumeric` says.
pub open spec fn letter_or_digit(c: char) -> bool {
    if ascii(c) {
        ascii_letter(c) || ascii_digit(c)
    } else {
        alphanumeric(c)
    }
}

/// The lowercase form of an ASCII character: `A` to `Z` become `a` to `z`.
pub open spec fn ascii_lower(c: char) -> char {
    if 65 <= (c as int) <= 90 {
        ((c as int) + 32) as char
    } else {
        c
    }
}

/// The lowercase form of `s`: for an all-ASCII text, each capital letter
/// made small; elsewhere as `lowercase` says.
pub open spec fn lower_text(s: Seq<char>) -> Seq<char> {
    if forall|i: int| 0 <= i < s.len() ==> ascii(#[trigger] s[i]) {
        s.map_values(|c: char| ascii_lower(c))
    } else {
        lowercase(s)
    }
}

/// `char::is_alphanumeric`; claimed: the result is `alphanumeric(c)`,
/// which among ASCII characters holds of the letters and digits alone (the
/// Unicode `Alphabetic` and `Numeric` properties there).
#[verifier::external_body]
fn char_is_alphanumeric(c: char) -> (r: bool)
    ensures
        r == alphanumeric(c),
        ascii(c) ==> (r == (ascii_letter(c) || ascii_digit(c))),
{
    c.is_alphanumeric()
}

/// `char::is_alphabetic`; claimed: the result is `alphabetic(c)`, which
/// among ASCII characters holds of the letters alone.
#[verifier::external_body]
fn char_is_alphabetic(c: char) -> (r: bool)
    ensures
        r == alphabetic(c),
        ascii(c) ==> (r == ascii_letter(c)),
{
    c.is_alphabetic()
}

/// `str::to_lowercase`; claimed: the result is `lowercase(s@)`, which for
/// an all-ASCII text is the text with `A` to `Z` made `a` to `z`.
#[verifier::external_body]
fn str_to_lowercase(s: &str) -> (r: String)
    ensures
        r@ == lowercase(s@),
        (forall|i: int| 0 <= i < s@.len() ==> ascii(#[trigger] s@[i])) ==> r@ == s@.map_values(
            |c: char| ascii_lower(c),
        ),
{
    s.to_lowercase()
}

/// A character allowed inside a topic name.
pub open spec fn topic_char(c: char) -> bool {
    letter_or_digit(c) || c == '_'
}

/// Which rule a topic name breaks first, checking in this order: not
/// empty, at most `MAX_TOPIC_LENGTH` characters, not reserved (ignoring case),
/// only alphanumeric characters and underscores, starting with a letter.
#[derive(Debug, Clone, Copy, PartialEq, Eq, Structural)]
pub enum TopicRule {
    /// The name is empty
    Empty,
    /// The name is longer than the limit
    TooLong,
    /// The name is reserved
    Reserved,
    /// The name holds a character that is not allowed
    InvalidCharacters,
    /// The name does not start with a letter
    InvalidStart,
    /// The name breaks no rule
    Valid,
}

/// The first rule that `topic` breaks.
pub open spec fn topic_rule(topic: Seq<char>) -> TopicRule {
    if topic.len() == 0 {
        TopicRule::Empty
    } else if topic.len() > MAX_TOPIC_LENGTH {
        TopicRule::TooLong
    } else if is_reserved_name(lower_text(topic)) {
        TopicRule::Reserved
    } else if !(forall|i: int| 0 <= i < topic.len() ==> #[trigger] topic_char(topic[i])) {
        TopicRule::InvalidCharacters
    } else if !letter(topic[0]) {
        TopicRule::InvalidStart
    } else {
        TopicRule::Valid
    }
}

/// Whether the outcome `r` of validating `topic` reports `rule`, with the
/// data that the error carries.
pub open spec fn reports(
    r: Result<(), TopicValidationError>,
    rule: TopicRule,
    topic: Seq<char>,
) -> bool {
    match rule {
        TopicRule::Empty => r matches Err(TopicValidationError::Empty),
        TopicRule::TooLong => r matches Err(TopicValidationError::TooLong { max, actual }) && max
            == MAX_TOPIC_LENGTH && actual == topic.len(),
        TopicRule::Reserved => r matches Err(TopicValidationError::Reserved(name)) && name@ == topic,
        TopicRule::InvalidCharacters => r matches Err(TopicValidationError::InvalidCharacters),
        TopicRule::InvalidStart => r matches Err(TopicValidationError::InvalidStart),
        TopicRule::Valid => r is Ok,
    }
}

/// Validates a topic name according to the following rules:
/// - Not empty
/// - Length <= MAX_TOPIC_LENGTH (in characters)
/// - Not a reserved name, ignoring case
/// - Contains only alphanumeric characters and underscores
/// - Starts with a letter
pub fn validate_topic(topic: &str) -> (r: Result<(), TopicValidationError>)
    ensures
        reports(r, topic_rule(topic@), topic@),
{
    if topic.is_empty() {
        return Err(TopicValidationError::Empty);
    }
    let len = topic.unicode_len();
    if len > MAX_TOPIC_LENGTH {
        return Err(TopicValidationError::TooLong { max: MAX_TOPIC_LENGTH, actual: len });
    }
    let lower = str_to_lowercase(topic);
    assert(RESERVED_TOPICS[0]@ == "all"@);
    assert(RESERVED_TOPICS[1]@ == "everyone"@);
    assert(RESERVED_TOPICS[2]@ == "here"@);
    assert(RESERVED_TOPICS[3]@ == "channel"@);
    let mut k: usize = 0;
    while k < 4
        invariant
            k <= 4,
            lower@ == lower_text(topic@),
            topic@.len() > 0,
            topic@.len() <= MAX_TOPIC_LENGTH,
            RESERVED_TOPICS[0]@ == "all"@,
            RESERVED_TOPICS[1]@ == "everyone"@,
            RESERVED_TOPICS[2]@ == "here"@,
            RESERVED_TOPICS[3]@ == "channel"@,
            forall|j: int| 0 <= j < k ==> lower@ != (#[trigger] RESERVED_TOPICS[j])@,
        decreases 4 - k,
    {
        let candidate = RESERVED_TOPICS[k].to_owned();
        if lower == candidate {
            assert(lower@ == RESERVED_TOPICS[k as int]@);
            assert(k == 0 || k == 1 || k == 2 || k == 3);
            assert(is_reserved_name(lower@));
            return Err(TopicValidationError::Reserved(topic.to_owned()));
        }
        k = k + 1;
    }
    assert(!is_reserved_name(lower@));
    let chars = chars_of(topic);
    let mut i: usize = 0;
    while i < chars.len()
        invariant
            chars@ == topic@,
            i <= chars@.len(),
            topic@.len() > 0,
            topic@.len() <= MAX_TOPIC_LENGTH,
            !is_reserved_name(lower_text(topic@)),
            forall|j: int| 0 <= j < i ==> #[trigger] topic_char(chars@[j]),
        decreases chars@.len() - i,
    {
        let c = chars[i];
        if !(char_is_alphanumeric(c) || c == '_') {
            assert(!topic_char(topic@[i as int]));
            return Err(TopicValidationError::InvalidCharacters);
        }
        i = i + 1;
    }
    assert(forall|j: int| 0 <= j < topic@.len() ==> #[trigger] topic_char(topic@[j]));
    if !char_is_alphabetic(chars[0]) {
        return Err(TopicValidationError::InvalidStart);
    }
    Ok(())
}

/// A topic name is accepted only when it is 1 to 50 characters long, not
/// reserved, and every character of it is an underscore, an ASCII letter or
/// digit, or (beyond ASCII) a character that `char::is_alphanumeric`
/// accepts, the first character being a letter. A name of allowed length
/// that is not reserved and holds any other character is refused for its
/// characters.
pub proof fn law_topic_characters(t: Seq<char>, r: Result<(), TopicValidationError>)
    requires
        reports(r, topic_rule(t), t),
    ensures
        r is Ok ==> 1 <= t.len() <= 50 && !is_reserved_name(lower_text(t)),
        r is Ok ==> forall|i: int|
            0 <= i < t.len() ==> (#[trigger] t[i] == '_' || (if (t[i] as int) < 128 {
                (48 <= (t[i] as int) <= 57) || (65 <= (t[i] as int) <= 90) || (97 <= (t[i] as int)
                    <= 122)
            } else {
                alphanumeric(t[i])
            })),
        r is Ok ==> (if (t[0] as int) < 128 {
            (65 <= (t[0] as int) <= 90) || (97 <= (t[0] as int) <= 122)
        } else {
            alphabetic(t[0])
        }),
        (1 <= t.len() <= 50 && !is_reserved_name(lower_text(t)) && exists|i: int|
            0 <= i < t.len() && !(#[trigger] t[i] == '_' || (if (t[i] as int) < 128 {
                (48 <= (t[i] as int) <= 57) || (65 <= (t[i] as int) <= 90) || (97 <= (t[i] as int)
                    <= 122)
            } else {
                alphanumeric(t[i])
            }))) ==> r matches Err(TopicValidationError::InvalidCharacters),
{
    if 1 <= t.len() <= 50 && !is_reserved_name(lower_text(t)) && exists|i: int|
        0 <= i < t.len() && !(#[trigger] t[i] == '_' || (if (t[i] as int) < 128 {
            (48 <= (t[i] as int) <= 57) || (65 <= (t[i] as int) <= 90) || (97 <= (t[i] as int)
                <= 122)
        } else {
            alphanumeric(t[i])
        })) {
        let i = choose|i: int|
            0 <= i < t.len() && !(#[trigger] t[i] == '_' || (if (t[i] as int) < 128 {
                (48 <= (t[i] as int) <= 57) || (65 <= (t[i] as int) <= 90) || (97 <= (t[i] as int)
                    <= 122)
            } else {
                alphanumeric(t[i])
            }));
        assert(!topic_char(t[i]));
    }
    if r is Ok {
        assert forall|i: int| 0 <= i < t.len() implies (#[trigger] t[i] == '_' || (if (t[i] as int)
            < 128 {
            (48 <= (t[i] as int) <= 57) || (65 <= (t[i] as int) <= 90) || (97 <= (t[i] as int)
                <= 122)
        } else {
            alphanumeric(t[i])
        })) by {
            assert(topic_char(t[i]));
        }
    }
}

} // verus!
