//! The grammar of the texts that requests carry, and the bounds on their
//! lists of topics.

use vstd::prelude::*;
use vstd::string::StrSliceExecFns;
use crate::clock::{parse_timestamp, parsed_timestamp, TIMESTAMP_FORMAT};
use crate::errors::Error;
use crate::models::{NewConference, NewConferenceView, NewUser, NewUserView};

verus! {

/// The most topics that a user may name.
pub const MAX_USER_TOPICS: usize = 50;

/// The most topics that a conference may have.
pub const MAX_CONFERENCE_TOPICS: usize = 10;

/// A letter of the English alphabet or a digit.
pub open spec fn is_alphanumeric_char(c: char) -> bool {
    ('0' <= c <= '9') || ('A' <= c <= 'Z') || ('a' <= c <= 'z')
}

/// Text of one or more letters and digits.
pub open spec fn is_alphanumeric_text(text: Seq<char>) -> bool {
    text.len() > 0 && forall|i: int| 0 <= i < text.len()
        ==> is_alphanumeric_char(#[trigger] text[i])
}

/// Text of one or more letters, digits and spaces.
pub open spec fn is_spaced_text(text: Seq<char>) -> bool {
    text.len() > 0 && forall|i: int|
        0 <= i < text.len() ==> is_alphanumeric_char(#[trigger] text[i]) || text[i] == ' '
}

/// Every text of the list is of letters, digits and spaces.
pub open spec fn are_spaced_texts(texts: Seq<Seq<char>>) -> bool {
    forall|i: int| 0 <= i < texts.len() ==> is_spaced_text(#[trigger] texts[i])
}

/// Whether the byte is a letter or a digit, or a space where spaces are
/// allowed.
fn is_allowed_byte(b: u8, spaces: bool) -> (r: bool)
    ensures
        r == (is_alphanumeric_char(b as char) || (spaces && b == 32)),
{
    (b >= 48 && b <= 57) || (b >= 65 && b <= 90) || (b >= 97 && b <= 122) || (spaces && b == 32)
}

/// Whether the text is of one or more letters and digits, and spaces where
/// they are allowed.
fn is_made_of(text: &str, spaces: bool) -> (r: bool)
    ensures
        r == if spaces {
            is_spaced_text(text@)
        } else {
            is_alphanumeric_text(text@)
        },
{
    if !text.is_ascii() {
        proof {
            let k = choose|k: int| 0 <= k < text@.len()
                && !('\0' <= #[trigger] text@[k] <= '\u{7f}');
            assert(!is_alphanumeric_char(text@[k]) && text@[k] != ' ');
        }
        return false;
    }
    let n = text.unicode_len();
    if n == 0 {
        return false;
    }
    let mut i: usize = 0;
    while i < n
        invariant
            n == text@.len(),
            i <= n,
            text.is_ascii(),
            forall|j: int|
                0 <= j < i ==> is_alphanumeric_char(#[trigger] text@[j]) || (spaces && text@[j]
                    == ' '),
        decreases n - i,
    {
        let b = text.get_ascii(i);
        proof {
            assert('\0' <= text@[i as int] <= '\u{7f}');
            assert(b as char == text@[i as int]);
        }
        if !is_allowed_byte(b, spaces) {
            return false;
        }
        i += 1;
    }
    true
}

/// Whether the text is of one or more letters and digits.
pub fn is_alphanumeric(text: &str) -> (r: bool)
    ensures
        r == is_alphanumeric_text(text@),
{
    is_made_of(text, false)
}

/// Whether the text is of one or more letters, digits and spaces.
pub fn is_alphanumeric_with_spaces(text: &str) -> (r: bool)
    ensures
        r == is_spaced_text(text@),
{
    is_made_of(text, true)
}

/// Whether every topic of the list is of letters, digits and spaces.
pub fn are_topics_valid(topics: &Vec<String>) -> (r: bool)
    ensures
        r == are_spaced_texts(crate::models::texts_view(topics@)),
{
    let mut i: usize = 0;
    while i < topics.len()
        invariant
            i <= topics.len(),
            forall|j: int| 0 <= j < i ==> is_spaced_text(#[trigger] topics@[j]@),
        decreases topics.len() - i,
    {
        if !is_alphanumeric_with_spaces(topics[i].as_str()) {
            proof {
                assert(!is_spaced_text(crate::models::texts_view(topics@)[i as int]));
            }
            return false;
        }
        i += 1;
    }
    proof {
        assert forall|j: int| 0 <= j < topics@.len() implies is_spaced_text(
            #[trigger] crate::models::texts_view(topics@)[j],
        ) by {
            assert(is_spaced_text(topics@[j]@));
        }
    }
    true
}

/// What is wrong with a request to register a user, if anything: the first
/// of an id that is not of letters and digits, no topic, more than fifty
/// topics, and a topic that is not of letters, digits and spaces.
pub open spec fn user_form_fault(form: NewUserView) -> Option<Error> {
    if !is_alphanumeric_text(form.user_id) {
        Some(Error::InvalidUserId)
    } else if form.topics.len() == 0 {
        Some(Error::NoTopics)
    } else if form.topics.len() > MAX_USER_TOPICS {
        Some(Error::TooManyTopics)
    } else if !are_spaced_texts(form.topics) {
        Some(Error::InvalidTopic)
    } else {
        None
    }
}

/// Checks a request to register a user.
pub fn validate_new_user(form: &NewUser) -> (r: Result<(), Error>)
    ensures
        match r {
            Ok(_) => user_form_fault(form@) is None,
            Err(e) => user_form_fault(form@) == Some(e),
        },
{
    if !is_alphanumeric(form.user_id.as_str()) {
        Err(Error::InvalidUserId)
    } else if form.topics.len() == 0 {
        Err(Error::NoTopics)
    } else if form.topics.len() > MAX_USER_TOPICS {
        Err(Error::TooManyTopics)
    } else if !are_topics_valid(&form.topics) {
        Err(Error::InvalidTopic)
    } else {
        Ok(())
    }
}

/// What is wrong with a request to create a conference, if anything, given
/// what was read of its two times: the first of a name or a location that
/// is not of letters, digits and spaces, no topic, more than ten topics, a
/// topic that is not of letters, digits and spaces, and a time that was not
/// understood.
pub open spec fn conference_form_fault(
    form: NewConferenceView,
    start: Option<i64>,
    end: Option<i64>,
) -> Option<Error> {
    if !is_spaced_text(form.name) {
        Some(Error::InvalidName)
    } else if !is_spaced_text(form.location) {
        Some(Error::InvalidLocation)
    } else if form.topics.len() == 0 {
        Some(Error::NoTopics)
    } else if form.topics.len() > MAX_CONFERENCE_TOPICS {
        Some(Error::TooManyTopics)
    } else if !are_spaced_texts(form.topics) {
        Some(Error::InvalidTopic)
    } else if start is None {
        Some(Error::InvalidStart)
    } else if end is None {
        Some(Error::InvalidEnd)
    } else {
        None
    }
}

/// Checks a request to create a conference, where `start` and `end` are
/// what was read of the two times in the form.
pub fn check_conference_form(form: &NewConference, start: Option<i64>, end: Option<i64>) -> (r:
    Result<(), Error>)
    ensures
        match r {
            Ok(_) => conference_form_fault(form@, start, end) is None,
            Err(e) => conference_form_fault(form@, start, end) == Some(e),
        },
{
    if !is_alphanumeric_with_spaces(form.name.as_str()) {
        Err(Error::InvalidName)
    } else if !is_alphanumeric_with_spaces(form.location.as_str()) {
        Err(Error::InvalidLocation)
    } else if form.topics.len() == 0 {
        Err(Error::NoTopics)
    } else if form.topics.len() > MAX_CONFERENCE_TOPICS {
        Err(Error::TooManyTopics)
    } else if !are_topics_valid(&form.topics) {
        Err(Error::InvalidTopic)
    } else if start.is_none() {
        Err(Error::InvalidStart)
    } else if end.is_none() {
        Err(Error::InvalidEnd)
    } else {
        Ok(())
    }
}

/// Checks a request to create a conference. The two times of the form are
/// read as `YYYY-MM-DD HH:MM:SS`.
pub fn validate_new_conference(form: &NewConference) -> (r: Result<(), Error>)
    ensures
        match r {
            Ok(_) => conference_form_fault(
                form@,
                parsed_timestamp(form.start@, TIMESTAMP_FORMAT@),
                parsed_timestamp(form.end@, TIMESTAMP_FORMAT@),
            ) is None,
            Err(e) => conference_form_fault(
                form@,
                parsed_timestamp(form.start@, TIMESTAMP_FORMAT@),
                parsed_timestamp(form.end@, TIMESTAMP_FORMAT@),
            ) == Some(e),
        },
{
    let start = parse_timestamp(form.start.as_str(), TIMESTAMP_FORMAT);
    let end = parse_timestamp(form.end.as_str(), TIMESTAMP_FORMAT);
    check_conference_form(form, start, end)
}

} // verus!
