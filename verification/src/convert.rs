//! What can be a parameter: text as it is, and whole numbers in decimal.

use vstd::prelude::*;
use vstd::string::*;

use crate::decimal::{
    int_text, lemma_parse_within_round_trip, parse_signed, parse_unsigned, parse_within,
    render_signed, render_unsigned,
};

verus! {

/// A value with a canonical text, which can be the key or the value of a
/// parameter.
pub trait ParamText {
    /// The canonical text of the value.
    spec fn text(&self) -> Seq<char>;

    /// Writes the value as its canonical text.
    fn to_text(&self) -> (r: String)
        ensures
            r@ == self.text(),
    ;
}

/// A type of whole numbers that a parameter's value can be read as.
pub trait ParamInt: ParamText + Sized {
    /// The number that a text writes, where it writes one of this type: an
    /// optional `+` (or `-`, for a type with negative numbers) and then
    /// decimal digits, with nothing before, between or after them.
    spec fn parsed(text: Seq<char>) -> Option<Self>;

    /// Reads a text as a number of this type.
    fn parse(text: &str) -> (r: Option<Self>)
        ensures
            r == Self::parsed(text@),
    ;

    /// The canonical text of a number reads back as that number.
    proof fn lemma_round_trip(v: Self)
        ensures
            Self::parsed(v.text()) == Some(v),
    ;
}

impl ParamText for str {
    open spec fn text(&self) -> Seq<char> {
        self@
    }

    fn to_text(&self) -> (r: String) {
        self.to_string()
    }
}

impl<T: ParamText + ?Sized> ParamText for &T {
    open spec fn text(&self) -> Seq<char> {
        (**self).text()
    }

    fn to_text(&self) -> (r: String) {
        (**self).to_text()
    }
}

impl ParamText for String {
    open spec fn text(&self) -> Seq<char> {
        self@
    }

    fn to_text(&self) -> (r: String) {
        self.clone()
    }
}

impl ParamText for u8 {
    open spec fn text(&self) -> Seq<char> {
        int_text(*self as int)
    }

    fn to_text(&self) -> (r: String) {
        render_unsigned(*self as u128)
    }
}

impl ParamInt for u8 {
    open spec fn parsed(text: Seq<char>) -> Option<u8> {
        match parse_within(text, u8::MIN as int, u8::MAX as int) {
            Some(v) => Some(v as u8),
            None => None,
        }
    }

    fn parse(text: &str) -> (r: Option<u8>) {
        match parse_unsigned(text, u8::MAX as u128) {
            Some(v) => Some(v as u8),
            None => None,
        }
    }

    proof fn lemma_round_trip(v: u8) {
        lemma_parse_within_round_trip(v as int, u8::MIN as int, u8::MAX as int);
    }
}

impl ParamText for u16 {
    open spec fn text(&self) -> Seq<char> {
        int_text(*self as int)
    }

    fn to_text(&self) -> (r: String) {
        render_unsigned(*self as u128)
    }
}

impl ParamInt for u16 {
    open spec fn parsed(text: Seq<char>) -> Option<u16> {
        match parse_within(text, u16::MIN as int, u16::MAX as int) {
            Some(v) => Some(v as u16),
            None => None,
        }
    }

    fn parse(text: &str) -> (r: Option<u16>) {
        match parse_unsigned(text, u16::MAX as u128) {
            Some(v) => Some(v as u16),
            None => None,
        }
    }

    proof fn lemma_round_trip(v: u16) {
        lemma_parse_within_round_trip(v as int, u16::MIN as int, u16::MAX as int);
    }
}

impl ParamText for u32 {
    open spec fn text(&self) -> Seq<char> {
        int_text(*self as int)
    }

    fn to_text(&self) -> (r: String) {
        render_unsigned(*self as u128)
    }
}

impl ParamInt for u32 {
    open spec fn parsed(text: Seq<char>) -> Option<u32> {
        match parse_within(text, u32::MIN as int, u32::MAX as int) {
            Some(v) => Some(v as u32),
            None => None,
        }
    }

    fn parse(text: &str) -> (r: Option<u32>) {
        match parse_unsigned(text, u32::MAX as u128) {
            Some(v) => Some(v as u32),
            None => None,
        }
    }

    proof fn lemma_round_trip(v: u32) {
        lemma_parse_within_round_trip(v as int, u32::MIN as int, u32::MAX as int);
    }
}

impl ParamText for u64 {
    open spec fn text(&self) -> Seq<char> {
        int_text(*self as int)
    }

    fn to_text(&self) -> (r: String) {
        render_unsigned(*self as u128)
    }
}

impl ParamInt for u64 {
    open spec fn parsed(text: Seq<char>) -> Option<u64> {
        match parse_within(text, u64::MIN as int, u64::MAX as int) {
            Some(v) => Some(v as u64),
            None => None,
        }
    }

    fn parse(text: &str) -> (r: Option<u64>) {
        match parse_unsigned(text, u64::MAX as u128) {
            Some(v) => Some(v as u64),
            None => None,
        }
    }

    proof fn lemma_round_trip(v: u64) {
        lemma_parse_within_round_trip(v as int, u64::MIN as int, u64::MAX as int);
    }
}

impl ParamText for u128 {
    open spec fn text(&self) -> Seq<char> {
        int_text(*self as int)
    }

    fn to_text(&self) -> (r: String) {
        render_unsigned(*self)
    }
}

impl ParamInt for u128 {
    open spec fn parsed(text: Seq<char>) -> Option<u128> {
        match parse_within(text, u128::MIN as int, u128::MAX as int) {
            Some(v) => Some(v as u128),
            None => None,
        }
    }

    fn parse(text: &str) -> (r: Option<u128>) {
        match parse_unsigned(text, u128::MAX) {
            Some(v) => Some(v),
            None => None,
        }
    }

    proof fn lemma_round_trip(v: u128) {
        lemma_parse_within_round_trip(v as int, u128::MIN as int, u128::MAX as int);
    }
}

impl ParamText for usize {
    open spec fn text(&self) -> Seq<char> {
        int_text(*self as int)
    }

    fn to_text(&self) -> (r: String) {
        render_unsigned(*self as u128)
    }
}

impl ParamInt for usize {
    open spec fn parsed(text: Seq<char>) -> Option<usize> {
        match parse_within(text, usize::MIN as int, usize::MAX as int) {
            Some(v) => Some(v as usize),
            None => None,
        }
    }

    fn parse(text: &str) -> (r: Option<usize>) {
        match parse_unsigned(text, usize::MAX as u128) {
            Some(v) => Some(v as usize),
            None => None,
        }
    }

    proof fn lemma_round_trip(v: usize) {
        lemma_parse_within_round_trip(v as int, usize::MIN as int, usize::MAX as int);
    }
}

impl ParamText for i8 {
    open spec fn text(&self) -> Seq<char> {
        int_text(*self as int)
    }

    fn to_text(&self) -> (r: String) {
        render_signed(*self as i128)
    }
}

impl ParamInt for i8 {
    open spec fn parsed(text: Seq<char>) -> Option<i8> {
        match parse_within(text, i8::MIN as int, i8::MAX as int) {
            Some(v) => Some(v as i8),
            None => None,
        }
    }

    fn parse(text: &str) -> (r: Option<i8>) {
        match parse_signed(text, i8::MIN as i128, i8::MAX as i128) {
            Some(v) => Some(v as i8),
            None => None,
        }
    }

    proof fn lemma_round_trip(v: i8) {
        lemma_parse_within_round_trip(v as int, i8::MIN as int, i8::MAX as int);
    }
}

impl ParamText for i16 {
    open spec fn text(&self) -> Seq<char> {
        int_text(*self as int)
    }

    fn to_text(&self) -> (r: String) {
        render_signed(*self as i128)
    }
}

impl ParamInt for i16 {
    open spec fn parsed(text: Seq<char>) -> Option<i16> {
        match parse_within(text, i16::MIN as int, i16::MAX as int) {
            Some(v) => Some(v as i16),
            None => None,
        }
    }

    fn parse(text: &str) -> (r: Option<i16>) {
        match parse_signed(text, i16::MIN as i128, i16::MAX as i128) {
            Some(v) => Some(v as i16),
            None => None,
        }
    }

    proof fn lemma_round_trip(v: i16) {
        lemma_parse_within_round_trip(v as int, i16::MIN as int, i16::MAX as int);
    }
}

impl ParamText for i32 {
    open spec fn text(&self) -> Seq<char> {
        int_text(*self as int)
    }

    fn to_text(&self) -> (r: String) {
        render_signed(*self as i128)
    }
}

impl ParamInt for i32 {
    open spec fn parsed(text: Seq<char>) -> Option<i32> {
        match parse_within(text, i32::MIN as int, i32::MAX as int) {
            Some(v) => Some(v as i32),
            None => None,
        }
    }

    fn parse(text: &str) -> (r: Option<i32>) {
        match parse_signed(text, i32::MIN as i128, i32::MAX as i128) {
            Some(v) => Some(v as i32),
            None => None,
        }
    }

    proof fn lemma_round_trip(v: i32) {
        lemma_parse_within_round_trip(v as int, i32::MIN as int, i32::MAX as int);
    }
}

impl ParamText for i64 {
    open spec fn text(&self) -> Seq<char> {
        int_text(*self as int)
    }

    fn to_text(&self) -> (r: String) {
        render_signed(*self as i128)
    }
}

impl ParamInt for i64 {
    open spec fn parsed(text: Seq<char>) -> Option<i64> {
        match parse_within(text, i64::MIN as int, i64::MAX as int) {
            Some(v) => Some(v as i64),
            None => None,
        }
    }

    fn parse(text: &str) -> (r: Option<i64>) {
        match parse_signed(text, i64::MIN as i128, i64::MAX as i128) {
            Some(v) => Some(v as i64),
            None => None,
        }
    }

    proof fn lemma_round_trip(v: i64) {
        lemma_parse_within_round_trip(v as int, i64::MIN as int, i64::MAX as int);
    }
}

impl ParamText for i128 {
    open spec fn text(&self) -> Seq<char> {
        int_text(*self as int)
    }

    fn to_text(&self) -> (r: String) {
        render_signed(*self)
    }
}

impl ParamInt for i128 {
    open spec fn parsed(text: Seq<char>) -> Option<i128> {
        match parse_within(text, i128::MIN as int, i128::MAX as int) {
            Some(v) => Some(v as i128),
            None => None,
        }
    }

    fn parse(text: &str) -> (r: Option<i128>) {
        match parse_signed(text, i128::MIN, i128::MAX) {
            Some(v) => Some(v),
            None => None,
        }
    }

    proof fn lemma_round_trip(v: i128) {
        lemma_parse_within_round_trip(v as int, i128::MIN as int, i128::MAX as int);
    }
}

impl ParamText for isize {
    open spec fn text(&self) -> Seq<char> {
        int_text(*self as int)
    }

    fn to_text(&self) -> (r: String) {
        render_signed(*self as i128)
    }
}

impl ParamInt for isize {
    open spec fn parsed(text: Seq<char>) -> Option<isize> {
        match parse_within(text, isize::MIN as int, isize::MAX as int) {
            Some(v) => Some(v as isize),
            None => None,
        }
    }

    fn parse(text: &str) -> (r: Option<isize>) {
        match parse_signed(text, isize::MIN as i128, isize::MAX as i128) {
            Some(v) => Some(v as isize),
            None => None,
        }
    }

    proof fn lemma_round_trip(v: isize) {
        lemma_parse_within_round_trip(v as int, isize::MIN as int, isize::MAX as int);
    }
}

} // verus!
