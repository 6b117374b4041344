//! The grammar of topics.
//!
//! A topic is a letter followed by any number of letters, digits, `_` and `-`.
//! Which characters count as letters and digits is Unicode's matter: the
//! grammar is stated over [`unicode_alphabetic`] and [`unicode_alphanumeric`],
//! which stand for the answers of `char::is_alphabetic` and
//! `char::is_alphanumeric`.

use vstd::prelude::*;
use vstd::std_specs::iter::IteratorSpec;
use vstd::string::*;

use crate::err::{Error, ErrorView};

verus! {

/// Whether Unicode counts the character as alphabetic, as
/// `char::is_alphabetic` reports it.
pub uninterp spec fn unicode_alphabetic(c: char) -> bool;

/// Whether the character is alphabetic or numeric in Unicode's sense, as
/// `char::is_alphanumeric` reports it.
pub uninterp spec fn unicode_alphanumeric(c: char) -> bool;

/// `char::is_alphabetic`: the result depends on the character alone, and is
/// named [`unicode_alphabetic`]. Nothing is claimed of any given character.
pub assume_specification[ char::is_alphabetic ](c: char) -> (r: bool)
    ensures
        r == unicode_alphabetic(c),
;

/// `char::is_alphanumeric`: the result depends on the character alone, and is
/// named [`unicode_alphanumeric`]. It is true of every character of which
/// `char::is_alphabetic` is true: the method is documented to answer for the
/// characters that are alphabetic or numeric.
pub assume_specification[ char::is_alphanumeric ](c: char) -> (r: bool)
    ensures
        r == unicode_alphanumeric(c),
        unicode_alphabetic(c) ==> r,
;

/// What is wrong with a string that is no topic.
#[derive(Debug, Clone, Copy, PartialEq, Eq, Structural)]
pub enum TopicFault {
    /// The string is empty.
    Empty,
    /// The first character is not a letter.
    Leading,
    /// A later character is neither a letter, a digit, `_` nor `-`.
    Heading,
}

/// Whether a topic may begin with the character.
pub open spec fn topic_leading(c: char) -> bool {
    unicode_alphabetic(c)
}

/// Whether the character may stand in a topic after the first.
pub open spec fn topic_char(c: char) -> bool {
    unicode_alphanumeric(c) || c == '_' || c == '-'
}

/// The fault of a string as a topic, or `None` where it is a topic. An empty
/// string is `Empty`; a bad first character is reported whatever follows it.
pub open spec fn topic_fault(s: Seq<char>) -> Option<TopicFault> {
    if s.len() == 0 {
        Some(TopicFault::Empty)
    } else if !topic_leading(s[0]) {
        Some(TopicFault::Leading)
    } else if exists|i: int| 1 <= i < s.len() && !topic_char(#[trigger] s[i]) {
        Some(TopicFault::Heading)
    } else {
        None
    }
}

/// Whether the string is a topic.
pub open spec fn valid_topic(s: Seq<char>) -> bool {
    topic_fault(s) is None
}

/// Whether the string begins with a letter and holds nothing but letters,
/// characters that Unicode counts as alphanumeric, `_` and `-`.
pub open spec fn plain_word(s: Seq<char>) -> bool {
    &&& s.len() > 0
    &&& unicode_alphabetic(s[0])
    &&& forall|i: int|
        0 <= i < s.len() ==> unicode_alphabetic(#[trigger] s[i]) || topic_char(s[i])
}

impl TopicFault {
    /// The words in which the fault is reported.
    pub open spec fn reason(self) -> Seq<char> {
        match self {
            TopicFault::Empty => "Empty or broken string"@,
            TopicFault::Leading => "Invalid leading character"@,
            TopicFault::Heading => "Invalid heading"@,
        }
    }

    /// The error that reports the fault.
    pub open spec fn error(self) -> ErrorView {
        ErrorView::BadFormat(self.reason())
    }

    /// Makes the error that reports the fault.
    pub fn to_error(self) -> (e: Error)
        ensures
            e@ == self.error(),
    {
        match self {
            TopicFault::Empty => Error::BadFormat("Empty or broken string".to_string()),
            TopicFault::Leading => Error::BadFormat("Invalid leading character".to_string()),
            TopicFault::Heading => Error::BadFormat("Invalid heading".to_string()),
        }
    }
}

/// What validation answers for a string with the given fault.
pub open spec fn verdict_of(fault: Option<TopicFault>, r: Result<(), Error>) -> bool {
    match fault {
        None => r is Ok,
        Some(f) => r is Err && r->Err_0@ == f.error(),
    }
}

/// Tells whether a topic may begin with the character.
pub fn is_topic_leading_char(c: char) -> (r: bool)
    ensures
        r == topic_leading(c),
{
    c.is_alphabetic()
}

/// The rule for a character after the first, given Unicode's answer for it:
/// an alphanumeric character may stand there, and so may `_` and `-`.
pub fn may_follow(alphanumeric: bool, c: char) -> (r: bool)
    ensures
        r == (alphanumeric || c == '_' || c == '-'),
{
    alphanumeric || c == '_' || c == '-'
}

/// Tells whether the character may stand in a topic after the first.
pub fn is_topic_char(c: char) -> (r: bool)
    ensures
        r == topic_char(c),
        unicode_alphabetic(c) ==> r,
{
    may_follow(c.is_alphanumeric(), c)
}

/// Finds the fault of a string as a topic, reading no further than the first
/// character that decides.
pub fn find_topic_fault(topic: &str) -> (r: Option<TopicFault>)
    ensures
        r == topic_fault(topic@),
        plain_word(topic@) ==> r is None,
{
    let mut chars = topic.chars();
    match chars.next() {
        None => {
            return Some(TopicFault::Empty);
        },
        Some(c) => {
            if !is_topic_leading_char(c) {
                return Some(TopicFault::Leading);
            }
        },
    }
    let ghost mut seen: int = 1;
    loop
        invariant
            1 <= seen <= topic@.len(),
            chars.remaining() == topic@.subrange(seen, topic@.len() as int),
            forall|i: int| 1 <= i < seen ==> topic_char(#[trigger] topic@[i]),
            topic_leading(topic@[0]),
        decreases topic@.len() - seen,
    {
        match chars.next() {
            None => {
                return None;
            },
            Some(c) => {
                if !is_topic_char(c) {
                    return Some(TopicFault::Heading);
                }
                proof {
                    seen = seen + 1;
                }
            },
        }
    }
}

/// Turns the fault that was found into the answer of validation.
pub fn verdict(fault: Option<TopicFault>) -> (r: Result<(), Error>)
    ensures
        verdict_of(fault, r),
{
    match fault {
        None => Ok(()),
        Some(f) => Err(f.to_error()),
    }
}

/// Checks that a string is a topic, and says what is wrong where it is not.
///
/// The empty string is refused as empty. A string whose first character is
/// no letter is refused for that character, whatever follows it. A string
/// that begins with a letter and goes on in letters, digits, `_` and `-` is
/// accepted.
pub fn validate_topic(topic: &str) -> (r: Result<(), Error>)
    ensures
        verdict_of(topic_fault(topic@), r),
        r is Ok <==> valid_topic(topic@),
        topic@.len() == 0 ==> r is Err && r->Err_0@ == ErrorView::BadFormat(
            "Empty or broken string"@,
        ),
        topic@.len() > 0 && !unicode_alphabetic(topic@[0]) ==> r is Err && r->Err_0@
            == ErrorView::BadFormat("Invalid leading character"@),
        plain_word(topic@) ==> r is Ok,
{
    verdict(find_topic_fault(topic))
}

} // verus!
