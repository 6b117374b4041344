//! Whole numbers as decimal text.
//!
//! A number is written in the digits `0` to `9`, most significant first,
//! with `-` in front of a negative one. It is read back from an optional sign
//! and one or more digits; nothing else may stand in the text.

use vstd::prelude::*;
use vstd::std_specs::iter::IteratorSpec;
use vstd::string::*;

verus! {

/// Whether the character is one of `0` to `9`.
pub open spec fn is_digit(c: char) -> bool {
    '0' <= c <= '9'
}

/// The character that writes a digit.
pub open spec fn digit_char(d: nat) -> char
    recommends
        d < 10,
{
    (d + 48) as char
}

/// The digit that a character writes.
pub open spec fn digit_value(c: char) -> nat
    recommends
        is_digit(c),
{
    (c as nat - 48) as nat
}

/// A natural number in decimal digits, without leading zeros.
pub open spec fn nat_text(n: nat) -> Seq<char>
    decreases n,
{
    if n < 10 {
        seq![digit_char(n)]
    } else {
        nat_text(n / 10).push(digit_char(n % 10))
    }
}

/// A whole number in decimal digits, with `-` in front where it is negative.
pub open spec fn int_text(n: int) -> Seq<char> {
    if n < 0 {
        seq!['-'] + nat_text((-n) as nat)
    } else {
        nat_text(n as nat)
    }
}

/// Whether every character is a digit.
pub open spec fn all_digits(s: Seq<char>) -> bool {
    forall|i: int| 0 <= i < s.len() ==> is_digit(#[trigger] s[i])
}

/// The number that a run of digits writes; leading zeros do not count.
pub open spec fn digits_value(s: Seq<char>) -> nat
    decreases s.len(),
{
    if s.len() == 0 {
        0
    } else {
        digits_value(s.drop_last()) * 10 + digit_value(s.last())
    }
}

/// The digits of a decimal text: what follows the sign, or all of it where
/// there is no sign. `-` is a sign only where `signed` says so.
pub open spec fn digits_part(s: Seq<char>, signed: bool) -> Seq<char> {
    if s.len() > 0 && (s[0] == '+' || (signed && s[0] == '-')) {
        s.drop_first()
    } else {
        s
    }
}

/// Whether a decimal text begins with a minus sign that counts as one.
pub open spec fn minus_sign(s: Seq<char>, signed: bool) -> bool {
    signed && s.len() > 0 && s[0] == '-'
}

/// Whether the text is an optional sign and then one or more digits.
pub open spec fn is_decimal(s: Seq<char>, signed: bool) -> bool {
    digits_part(s, signed).len() > 0 && all_digits(digits_part(s, signed))
}

/// The number that a decimal text writes, where it writes one.
pub open spec fn decimal_value(s: Seq<char>, signed: bool) -> Option<int> {
    if !is_decimal(s, signed) {
        None
    } else if minus_sign(s, signed) {
        Some(-(digits_value(digits_part(s, signed)) as int))
    } else {
        Some(digits_value(digits_part(s, signed)) as int)
    }
}

/// The number that a text writes, where it writes one between `lo` and `hi`.
/// A minus sign is read only where the range reaches below zero.
pub open spec fn parse_within(s: Seq<char>, lo: int, hi: int) -> Option<int> {
    match decimal_value(s, lo < 0) {
        Some(v) => if lo <= v <= hi {
            Some(v)
        } else {
            None
        },
        None => None,
    }
}

/// The digits that were taken off a number, least significant first, written
/// in reading order.
pub open spec fn backwards(low: Seq<u8>) -> Seq<char> {
    Seq::new(low.len(), |i: int| digit_char(low[low.len() - 1 - i] as nat))
}

/// A run of digits is worth at least as much as any of its beginnings.
pub proof fn lemma_digits_value_grows(s: Seq<char>, k: int)
    requires
        0 <= k <= s.len(),
    ensures
        digits_value(s.take(k)) <= digits_value(s),
    decreases s.len(),
{
    if k == s.len() {
        assert(s.take(k) =~= s);
    } else {
        lemma_digits_value_grows(s.drop_last(), k);
        assert(s.drop_last().take(k) =~= s.take(k));
    }
}

/// The text of a natural number is made of digits, is not empty, and writes
/// that number.
pub proof fn lemma_nat_text_reads_back(n: nat)
    ensures
        nat_text(n).len() > 0,
        all_digits(nat_text(n)),
        digits_value(nat_text(n)) == n,
    decreases n,
{
    if n < 10 {
        let s = nat_text(n);
        assert(digits_value(s.drop_last()) == 0);
    } else {
        lemma_nat_text_reads_back(n / 10);
        let s = nat_text(n);
        assert(s.drop_last() =~= nat_text(n / 10));
    }
}

/// A number that is written and read again is the same number: the text of
/// `n` is a decimal text whose value is `n`, read with or without regard to a
/// minus sign where `n` is not negative, and with regard to it where it is.
pub proof fn lemma_decimal_round_trip(n: int, signed: bool)
    requires
        n < 0 ==> signed,
    ensures
        decimal_value(int_text(n), signed) == Some(n),
{
    let s = int_text(n);
    if n < 0 {
        let m = (-n) as nat;
        lemma_nat_text_reads_back(m);
        assert(s.drop_first() =~= nat_text(m));
    } else {
        lemma_nat_text_reads_back(n as nat);
    }
}

/// A number of a range that is written and read again within that range is
/// the same number.
pub proof fn lemma_parse_within_round_trip(n: int, lo: int, hi: int)
    requires
        lo <= n <= hi,
    ensures
        parse_within(int_text(n), lo, hi) == Some(n),
{
    lemma_decimal_round_trip(n, lo < 0);
}

/// The text of one digit.
fn digit_text(d: u8) -> (r: &'static str)
    requires
        d < 10,
    ensures
        r@ == seq![digit_char(d as nat)],
{
    let digits = "0123456789";
    proof {
        reveal_strlit("0123456789");
    }
    digits.substring_ascii(d as usize, d as usize + 1)
}

/// Writes a natural number in decimal digits.
pub fn render_unsigned(v: u128) -> (r: String)
    ensures
        r@ == nat_text(v as nat),
        r@ == int_text(v as int),
{
    let mut low: Vec<u8> = Vec::new();
    let mut rest: u128 = v;
    while rest >= 10
        invariant
            nat_text(v as nat) == nat_text(rest as nat) + backwards(low@),
            forall|i: int| 0 <= i < low.len() ==> low[i] < 10,
        decreases rest,
    {
        let d: u8 = (rest % 10) as u8;
        low.push(d);
        rest = rest / 10;
    }
    let mut s = digit_text(rest as u8).to_string();
    let mut i: usize = low.len();
    while i > 0
        invariant
            i <= low.len(),
            s@ + backwards(low@.take(i as int)) == nat_text(v as nat),
            forall|j: int| 0 <= j < low.len() ==> low[j] < 10,
        decreases i,
    {
        i = i - 1;
        s.append(digit_text(low[i]));
    }
    s
}

/// Writes a whole number in decimal digits, with `-` in front where it is
/// negative.
pub fn render_signed(v: i128) -> (r: String)
    ensures
        r@ == int_text(v as int),
{
    if v < 0 {
        let magnitude: u128 = (-(v + 1)) as u128 + 1;
        let digits = render_unsigned(magnitude);
        let mut s = "-".to_string();
        s.append(digits.as_str());
        proof {
            reveal_strlit("-");
        }
        s
    } else {
        render_unsigned(v as u128)
    }
}

/// Tells whether the character is one of `0` to `9`.
fn is_digit_char(c: char) -> (r: bool)
    ensures
        r == is_digit(c),
{
    '0' <= c && c <= '9'
}

/// Reads a decimal text as a sign and a magnitude. The answer is `None` where
/// the text is no decimal text, and where the magnitude is beyond `u128`.
pub fn read_decimal(text: &str, signed: bool) -> (r: Option<(bool, u128)>)
    ensures
        r is Some <==> is_decimal(text@, signed) && digits_value(digits_part(text@, signed))
            <= u128::MAX,
        r matches Some(p) ==> p.0 == minus_sign(text@, signed) && p.1 == digits_value(
            digits_part(text@, signed),
        ),
{
    let ghost body = digits_part(text@, signed);
    let ghost start: int = text@.len() - body.len();
    let mut chars = text.chars();
    let mut negative = false;
    let mut any = false;
    let mut acc: u128 = 0;
    match chars.next() {
        None => {
            return None;
        },
        Some(c) => {
            if c == '+' {
            } else if signed && c == '-' {
                negative = true;
            } else if is_digit_char(c) {
                acc = (c as u32 - 48) as u128;
                any = true;
                assert(digits_value(body.take(1).drop_last()) == 0);
            } else {
                return None;
            }
        },
    }
    let ghost mut seen: int = 1;
    loop
        invariant
            body == digits_part(text@, signed),
            start == text@.len() - body.len(),
            0 <= start <= 1,
            1 <= seen <= text@.len(),
            negative == minus_sign(text@, signed),
            chars.remaining() == text@.subrange(seen, text@.len() as int),
            any == (seen > start),
            all_digits(body.take(seen - start)),
            acc == digits_value(body.take(seen - start)),
        decreases text@.len() - seen,
    {
        match chars.next() {
            None => {
                assert(body.take(seen - start) =~= body);
                if !any {
                    return None;
                }
                return Some((negative, acc));
            },
            Some(c) => {
                assert(c == body[seen - start]);
                if !is_digit_char(c) {
                    return None;
                }
                let d: u128 = (c as u32 - 48) as u128;
                proof {
                    let longer = body.take(seen - start + 1);
                    assert(longer.drop_last() =~= body.take(seen - start));
                    assert(all_digits(longer));
                    lemma_digits_value_grows(body, seen - start + 1);
                }
                let tens = match acc.checked_mul(10) {
                    Some(t) => t,
                    None => {
                        return None;
                    },
                };
                acc = match tens.checked_add(d) {
                    Some(a) => a,
                    None => {
                        return None;
                    },
                };
                any = true;
                proof {
                    seen = seen + 1;
                }
            },
        }
    }
}

/// Reads a decimal text as a natural number up to `max`.
pub fn parse_unsigned(text: &str, max: u128) -> (r: Option<u128>)
    ensures
        r is Some <==> parse_within(text@, 0, max as int) is Some,
        r matches Some(v) ==> parse_within(text@, 0, max as int) == Some(v as int),
{
    match read_decimal(text, false) {
        Some((_, magnitude)) => if magnitude <= max {
            Some(magnitude)
        } else {
            None
        },
        None => None,
    }
}

/// Reads a decimal text as a whole number from `min` to `max`.
pub fn parse_signed(text: &str, min: i128, max: i128) -> (r: Option<i128>)
    requires
        min < 0 <= max,
    ensures
        r is Some <==> parse_within(text@, min as int, max as int) is Some,
        r matches Some(v) ==> parse_within(text@, min as int, max as int) == Some(v as int),
{
    match read_decimal(text, true) {
        Some((negative, magnitude)) => {
            if negative {
                let deepest: u128 = (-(min + 1)) as u128 + 1;
                if magnitude == 0 {
                    Some(0)
                } else if magnitude <= deepest {
                    Some(-((magnitude - 1) as i128) - 1)
                } else {
                    None
                }
            } else if magnitude <= max as u128 {
                Some(magnitude as i128)
            } else {
                None
            }
        },
        None => None,
    }
}

} // verus!
