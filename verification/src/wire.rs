//! The byte encoding of a message.
//!
//! A message is written as lines, each ended by a line feed: the topic, then
//! one line for each parameter with a space between key and value, then an
//! empty line. Strings are written as their UTF-8 bytes, as they are: a key
//! or value that holds a space or a line feed is not escaped.

use bytes::BytesMut;
use vstd::prelude::*;
use vstd::string::*;
use vstd::utf8::*;

use crate::buffer::{buffer_bytes, put_byte, put_slice};
use crate::model::pairs_view;

verus! {

/// The byte that ends a line.
pub const LINE_FEED: u8 = 0x0A;

/// The byte between a key and its value.
pub const SPACE: u8 = 0x20;

/// A string followed by one byte.
pub open spec fn ended(text: Seq<char>, end: u8) -> Seq<u8> {
    encode_utf8(text).push(end)
}

/// The line of one parameter.
pub open spec fn param_line(key: Seq<char>, value: Seq<char>) -> Seq<u8> {
    ended(key, SPACE) + ended(value, LINE_FEED)
}

/// The lines of the parameters, in their order.
pub open spec fn param_lines(params: Seq<(Seq<char>, Seq<char>)>) -> Seq<u8>
    decreases params.len(),
{
    if params.len() == 0 {
        Seq::empty()
    } else {
        param_lines(params.drop_last()) + param_line(params.last().0, params.last().1)
    }
}

/// The encoding of a message with this topic and these parameters.
pub open spec fn wire_bytes(topic: Seq<char>, params: Seq<(Seq<char>, Seq<char>)>) -> Seq<u8> {
    ended(topic, LINE_FEED) + param_lines(params).push(LINE_FEED)
}

/// The number of bytes that the lines of the parameters take.
pub open spec fn param_lines_len(params: Seq<(Seq<char>, Seq<char>)>) -> nat
    decreases params.len(),
{
    if params.len() == 0 {
        0
    } else {
        param_lines_len(params.drop_last()) + encode_utf8(params.last().0).len() + 1
            + encode_utf8(params.last().1).len() + 1
    }
}

/// The number of bytes that the encoding of a message takes: for the topic
/// its length and one, for each parameter the lengths of key and value and
/// two, and one for the empty line.
pub open spec fn wire_len(topic: Seq<char>, params: Seq<(Seq<char>, Seq<char>)>) -> nat {
    encode_utf8(topic).len() + 1 + param_lines_len(params) + 1
}

/// The lines of the parameters are as long as `param_lines_len` says.
pub proof fn lemma_param_lines_len(params: Seq<(Seq<char>, Seq<char>)>)
    ensures
        param_lines(params).len() == param_lines_len(params),
    decreases params.len(),
{
    if params.len() > 0 {
        lemma_param_lines_len(params.drop_last());
    }
}

/// The encoding of a message is as long as `wire_len` says.
pub proof fn lemma_wire_len(topic: Seq<char>, params: Seq<(Seq<char>, Seq<char>)>)
    ensures
        wire_bytes(topic, params).len() == wire_len(topic, params),
{
    lemma_param_lines_len(params);
}

/// The lines of the first parameters are no longer than the lines of all.
pub proof fn lemma_param_lines_len_grows(params: Seq<(Seq<char>, Seq<char>)>, n: int)
    requires
        0 <= n <= params.len(),
    ensures
        param_lines_len(params.take(n)) <= param_lines_len(params),
    decreases params.len(),
{
    if n == params.len() {
        assert(params.take(n) =~= params);
    } else {
        lemma_param_lines_len_grows(params.drop_last(), n);
        assert(params.drop_last().take(n) =~= params.take(n));
    }
}

/// Appends the bytes of a string and one byte more.
pub fn push_ended(buf: &mut Vec<u8>, text: &str, end: u8)
    ensures
        final(buf)@ == old(buf)@ + ended(text@, end),
{
    let bytes = text.as_bytes();
    let mut i: usize = 0;
    while i < bytes.len()
        invariant
            i <= bytes@.len(),
            buf@ == old(buf)@ + bytes@.take(i as int),
        decreases bytes@.len() - i,
    {
        buf.push(bytes[i]);
        i = i + 1;
    }
    buf.push(end);
}

/// Encodes a message with this topic and these parameters.
pub fn encode(topic: &str, params: &Vec<(String, String)>) -> (buf: Vec<u8>)
    ensures
        buf@ == wire_bytes(topic@, pairs_view(params@)),
{
    let ghost pairs = pairs_view(params@);
    let mut buf: Vec<u8> = Vec::new();
    push_ended(&mut buf, topic, LINE_FEED);
    let mut i: usize = 0;
    while i < params.len()
        invariant
            i <= params.len(),
            pairs == pairs_view(params@),
            buf@ == ended(topic@, LINE_FEED) + param_lines(pairs.take(i as int)),
        decreases params.len() - i,
    {
        push_ended(&mut buf, params[i].0.as_str(), SPACE);
        push_ended(&mut buf, params[i].1.as_str(), LINE_FEED);
        assert(pairs.take(i + 1).drop_last() =~= pairs.take(i as int));
        i = i + 1;
    }
    buf.push(LINE_FEED);
    assert(pairs.take(i as int) =~= pairs);
    buf
}

/// Counts the bytes that the encoding of a message takes. The answer is
/// `None` where the count is beyond `usize`.
pub fn wire_size(topic: &str, params: &Vec<(String, String)>) -> (r: Option<usize>)
    ensures
        r is Some <==> wire_len(topic@, pairs_view(params@)) <= usize::MAX,
        r matches Some(n) ==> n == wire_len(topic@, pairs_view(params@)),
{
    let ghost pairs = pairs_view(params@);
    // The topic, its line feed and the empty line at the end.
    let mut size: usize = match topic.as_bytes().len().checked_add(2) {
        Some(n) => n,
        None => {
            return None;
        },
    };
    let mut i: usize = 0;
    proof {
        lemma_param_lines_len_grows(pairs, 0);
    }
    while i < params.len()
        invariant
            i <= params.len(),
            pairs == pairs_view(params@),
            size == wire_len(topic@, pairs.take(i as int)),
        decreases params.len() - i,
    {
        let key = params[i].0.as_str().as_bytes().len();
        let value = params[i].1.as_str().as_bytes().len();
        proof {
            assert(pairs.take(i + 1).drop_last() =~= pairs.take(i as int));
            lemma_param_lines_len_grows(pairs, i + 1);
        }
        // Key and space, value and line feed.
        let line = match key.checked_add(value) {
            Some(n) => match n.checked_add(2) {
                Some(n) => n,
                None => {
                    return None;
                },
            },
            None => {
                return None;
            },
        };
        size = match size.checked_add(line) {
            Some(n) => n,
            None => {
                return None;
            },
        };
        i = i + 1;
    }
    assert(pairs.take(i as int) =~= pairs);
    Some(size)
}

/// Appends to a buffer the bytes of a string and one byte more.
pub fn put_ended(buf: &mut BytesMut, text: &str, end: u8)
    requires
        buffer_bytes(*old(buf)).len() + ended(text@, end).len() <= isize::MAX,
    ensures
        buffer_bytes(*final(buf)) == buffer_bytes(*old(buf)) + ended(text@, end),
{
    put_slice(buf, text.as_bytes());
    put_byte(buf, end);
}

/// Appends the encoding of a message to a buffer that has room for it.
pub fn encode_into(topic: &str, params: &Vec<(String, String)>, buf: &mut BytesMut)
    requires
        buffer_bytes(*old(buf)).len() + wire_len(topic@, pairs_view(params@)) <= isize::MAX,
    ensures
        buffer_bytes(*final(buf)) == buffer_bytes(*old(buf)) + wire_bytes(
            topic@,
            pairs_view(params@),
        ),
{
    let ghost pairs = pairs_view(params@);
    let ghost start = buffer_bytes(*buf);
    proof {
        lemma_param_lines_len(pairs);
    }
    put_ended(buf, topic, LINE_FEED);
    let mut i: usize = 0;
    while i < params.len()
        invariant
            i <= params.len(),
            pairs == pairs_view(params@),
            start.len() + wire_len(topic@, pairs) <= isize::MAX,
            buffer_bytes(*buf) == start + ended(topic@, LINE_FEED) + param_lines(
                pairs.take(i as int),
            ),
        decreases params.len() - i,
    {
        proof {
            assert(pairs.take(i + 1).drop_last() =~= pairs.take(i as int));
            lemma_param_lines_len(pairs.take(i as int));
            lemma_param_lines_len(pairs.take(i + 1));
            lemma_param_lines_len_grows(pairs, i + 1);
        }
        put_ended(buf, params[i].0.as_str(), SPACE);
        put_ended(buf, params[i].1.as_str(), LINE_FEED);
        i = i + 1;
    }
    assert(pairs.take(i as int) =~= pairs);
    put_byte(buf, LINE_FEED);
}

} // verus!
