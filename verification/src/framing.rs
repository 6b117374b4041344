//! When the encoding of a message tells the message.
//!
//! Nothing is escaped in the encoding, so a line feed in a topic, key or value
//! or a space in a key makes bytes that another message makes too. Where none
//! of them holds such a character the message is *framed*, and the encoding
//! of a framed message is that of no other framed message.

use vstd::prelude::*;
use vstd::std_specs::iter::IteratorSpec;
use vstd::string::*;
use vstd::utf8::*;

use crate::model::pairs_view;
use crate::wire::{ended, param_line, param_lines, wire_bytes, LINE_FEED, SPACE};

verus! {

/// Whether the byte occurs nowhere in the sequence.
pub open spec fn free_of(bytes: Seq<u8>, b: u8) -> bool {
    forall|i: int| 0 <= i < bytes.len() ==> bytes[i] != b
}

/// Whether a parameter keeps to its line: no space and no line feed in the
/// key, no line feed in the value.
pub open spec fn framed_param(param: (Seq<char>, Seq<char>)) -> bool {
    &&& !param.0.contains(' ')
    &&& !param.0.contains('\n')
    &&& !param.1.contains('\n')
}

/// Whether every parameter keeps to its line.
pub open spec fn framed_params(params: Seq<(Seq<char>, Seq<char>)>) -> bool {
    forall|i: int| 0 <= i < params.len() ==> framed_param(#[trigger] params[i])
}

/// Whether a message keeps to its lines: no line feed in the topic, and every
/// parameter keeps to its line.
pub open spec fn framed(topic: Seq<char>, params: Seq<(Seq<char>, Seq<char>)>) -> bool {
    !topic.contains('\n') && framed_params(params)
}

/// A character below 128 is encoded as the one byte of its number, any other
/// in bytes from 128 up.
proof fn lemma_scalar_bytes(x: u32)
    requires
        is_scalar(x),
    ensures
        x < 0x80 ==> encode_scalar(x) == seq![x as u8],
        x >= 0x80 ==> forall|i: int|
            0 <= i < encode_scalar(x).len() ==> #[trigger] encode_scalar(x)[i] >= 0x80,
{
    if x < 0x80 {
        assert((x & 0x7F) as u8 == x as u8) by (bit_vector)
            requires
                x < 0x80,
        ;
    } else {
        let a = ((x >> 6) & 0x1F) as u8;
        let b = ((x >> 12) & 0x0F) as u8;
        let c = ((x >> 18) & 0x7) as u8;
        let d = (x & 0x3F) as u8;
        let e = ((x >> 6) & 0x3F) as u8;
        let f = ((x >> 12) & 0x3F) as u8;
        assert(0xC0u8 | a >= 0x80) by (bit_vector);
        assert(0xE0u8 | b >= 0x80) by (bit_vector);
        assert(0xF0u8 | c >= 0x80) by (bit_vector);
        assert(0x80u8 | d >= 0x80) by (bit_vector);
        assert(0x80u8 | e >= 0x80) by (bit_vector);
        assert(0x80u8 | f >= 0x80) by (bit_vector);
    }
}

/// A character below 128 that a string does not hold leaves no byte of its
/// number in the string's encoding.
pub proof fn lemma_encoding_free_of(s: Seq<char>, c: char)
    requires
        (c as u32) < 0x80,
        !s.contains(c),
    ensures
        free_of(encode_utf8(s), c as u8),
    decreases s.len(),
{
    if s.len() > 0 {
        let first = encode_scalar(s[0] as u32);
        let rest = s.drop_first();
        assert forall|i: int| 0 <= i < rest.len() implies rest[i] != c by {
            assert(rest[i] == s[i + 1]);
        }
        lemma_encoding_free_of(rest, c);
        char_is_scalar(s[0]);
        lemma_scalar_bytes(s[0] as u32);
        char_u32_cast(s[0], s[0] as u32);
        char_u32_cast(c, c as u32);
        assert forall|i: int| 0 <= i < encode_utf8(s).len() implies encode_utf8(s)[i]
            != c as u8 by {
            if i < first.len() {
                assert(encode_utf8(s)[i] == first[i]);
            }
        }
    }
}

/// Two sequences that are cut at the first occurrence of a byte are the same
/// where their parts are: with `x` in neither `a` nor `b`, `a x r` and
/// `b x s` are equal only if `a` is `b` and `r` is `s`.
pub proof fn lemma_cut_at_first(a: Seq<u8>, r: Seq<u8>, b: Seq<u8>, s: Seq<u8>, x: u8)
    requires
        free_of(a, x),
        free_of(b, x),
        a.push(x) + r == b.push(x) + s,
    ensures
        a == b,
        r == s,
{
    let w = a.push(x) + r;
    let v = b.push(x) + s;
    // The first `x` stands at the length of `a`, and at that of `b`.
    if a.len() < b.len() {
        assert(v[a.len() as int] == b[a.len() as int]);
    } else if b.len() < a.len() {
        assert(w[b.len() as int] == a[b.len() as int]);
    }
    assert(w.len() == v.len());
    assert forall|i: int| 0 <= i < a.len() implies a[i] == b[i] by {
        assert(w[i] == a[i]);
        assert(v[i] == b[i]);
    }
    assert forall|i: int| 0 <= i < r.len() implies r[i] == s[i] by {
        assert(w[a.len() + 1 + i] == r[i]);
        assert(v[b.len() + 1 + i] == s[i]);
    }
}

/// Strings with the same encoding are the same.
pub proof fn lemma_encoding_tells_string(a: Seq<char>, b: Seq<char>)
    requires
        encode_utf8(a) == encode_utf8(b),
    ensures
        a == b,
{
    encode_utf8_decode_utf8(a);
    encode_utf8_decode_utf8(b);
}

/// The line of a parameter without its line feed: the key, a space and the
/// value.
spec fn line_body(param: (Seq<char>, Seq<char>)) -> Seq<u8> {
    ended(param.0, SPACE) + encode_utf8(param.1)
}

/// The line of a framed parameter is its body and a line feed, and neither
/// the body holds a line feed nor the key a space.
proof fn lemma_line_body(param: (Seq<char>, Seq<char>))
    requires
        framed_param(param),
    ensures
        param_line(param.0, param.1) == line_body(param).push(LINE_FEED),
        free_of(line_body(param), LINE_FEED),
        free_of(encode_utf8(param.0), SPACE),
{
    lemma_encoding_free_of(param.0, ' ');
    lemma_encoding_free_of(param.0, '\n');
    lemma_encoding_free_of(param.1, '\n');
}

/// The lines of one or more parameters end in a line feed.
proof fn lemma_lines_end(params: Seq<(Seq<char>, Seq<char>)>)
    requires
        params.len() > 0,
    ensures
        param_lines(params).len() > 0,
        param_lines(params).last() == LINE_FEED,
{
}

/// Framed parameters with the same lines are the same.
pub proof fn lemma_lines_tell_params(
    p: Seq<(Seq<char>, Seq<char>)>,
    q: Seq<(Seq<char>, Seq<char>)>,
)
    requires
        framed_params(p),
        framed_params(q),
        param_lines(p) == param_lines(q),
    ensures
        p == q,
    decreases p.len(),
{
    if p.len() == 0 {
        if q.len() > 0 {
            lemma_lines_end(q);
        }
    } else if q.len() == 0 {
        lemma_lines_end(p);
    } else {
        let all = param_lines(p);
        let p0 = p.drop_last();
        let q0 = q.drop_last();
        let head_p = param_lines(p0);
        let head_q = param_lines(q0);
        let body_p = line_body(p.last());
        let body_q = line_body(q.last());
        lemma_line_body(p.last());
        lemma_line_body(q.last());
        assert(all == head_p + body_p.push(LINE_FEED));
        assert(all == head_q + body_q.push(LINE_FEED));
        if head_p.len() > head_q.len() {
            // The line feed that ends `head_p` would lie in `body_q`.
            lemma_lines_end(p0);
            let at = head_p.len() - 1;
            assert(all[at] == body_q[at - head_q.len()]);
        } else if head_q.len() > head_p.len() {
            lemma_lines_end(q0);
            let at = head_q.len() - 1;
            assert(all[at] == body_p[at - head_p.len()]);
        }
        // The last lines are equally long, so both halves agree.
        assert forall|i: int| 0 <= i < head_p.len() implies head_p[i] == head_q[i] by {
            assert(all[i] == head_p[i]);
            assert(all[i] == head_q[i]);
        }
        assert(head_p =~= head_q);
        assert forall|i: int| 0 <= i < body_p.len() implies body_p[i] == body_q[i] by {
            assert(all[head_p.len() + i] == body_p[i]);
            assert(all[head_q.len() + i] == body_q[i]);
        }
        assert(body_p =~= body_q);
        lemma_cut_at_first(
            encode_utf8(p.last().0),
            encode_utf8(p.last().1),
            encode_utf8(q.last().0),
            encode_utf8(q.last().1),
            SPACE,
        );
        lemma_encoding_tells_string(p.last().0, q.last().0);
        lemma_encoding_tells_string(p.last().1, q.last().1);
        assert(framed_params(p0));
        assert(framed_params(q0));
        lemma_lines_tell_params(p0, q0);
        assert(p =~= p0.push(p.last()));
        assert(q =~= q0.push(q.last()));
    }
}

/// The encoding of a framed message is that of no other framed message: two
/// framed messages with the same bytes have the same topic and the same
/// parameters in the same order.
pub proof fn lemma_encoding_tells_message(
    topic: Seq<char>,
    params: Seq<(Seq<char>, Seq<char>)>,
    other_topic: Seq<char>,
    other_params: Seq<(Seq<char>, Seq<char>)>,
)
    requires
        framed(topic, params),
        framed(other_topic, other_params),
        wire_bytes(topic, params) == wire_bytes(other_topic, other_params),
    ensures
        topic == other_topic,
        params == other_params,
{
    lemma_encoding_free_of(topic, '\n');
    lemma_encoding_free_of(other_topic, '\n');
    let tail = param_lines(params).push(LINE_FEED);
    let other_tail = param_lines(other_params).push(LINE_FEED);
    lemma_cut_at_first(
        encode_utf8(topic),
        tail,
        encode_utf8(other_topic),
        other_tail,
        LINE_FEED,
    );
    lemma_encoding_tells_string(topic, other_topic);
    assert(tail.drop_last() =~= param_lines(params));
    assert(other_tail.drop_last() =~= param_lines(other_params));
    lemma_lines_tell_params(params, other_params);
}

/// Tells whether a string holds a character.
pub fn holds(text: &str, c: char) -> (r: bool)
    ensures
        r == text@.contains(c),
{
    let mut chars = text.chars();
    let ghost mut seen: int = 0;
    loop
        invariant
            0 <= seen <= text@.len(),
            chars.remaining() == text@.subrange(seen, text@.len() as int),
            forall|i: int| 0 <= i < seen ==> text@[i] != c,
        decreases text@.len() - seen,
    {
        match chars.next() {
            None => {
                return false;
            },
            Some(x) => {
                if x == c {
                    assert(text@[seen] == c);
                    return true;
                }
                proof {
                    seen = seen + 1;
                }
            },
        }
    }
}

/// Tells whether a message with this topic and these parameters is framed,
/// so that its encoding is that of no other framed message.
pub fn is_framed(topic: &str, params: &Vec<(String, String)>) -> (r: bool)
    ensures
        r == framed(topic@, pairs_view(params@)),
{
    if holds(topic, '\n') {
        return false;
    }
    let ghost pairs = pairs_view(params@);
    let mut i: usize = 0;
    while i < params.len()
        invariant
            i <= params.len(),
            pairs == pairs_view(params@),
            forall|j: int| 0 <= j < i ==> framed_param(#[trigger] pairs[j]),
        decreases params.len() - i,
    {
        let key = params[i].0.as_str();
        let value = params[i].1.as_str();
        if holds(key, ' ') || holds(key, '\n') || holds(value, '\n') {
            assert(!framed_param(pairs[i as int]));
            return false;
        }
        i = i + 1;
    }
    true
}

} // verus!
