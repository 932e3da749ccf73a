//! The types a flag's value can have: how such a value is written as a
//! string when it is registered as a default, and how a stored string is
//! read back on retrieval.
//!
//! Numbers are written and read in decimal notation, truth values as `true`
//! and `false`, a character as the string that holds it alone, and text as
//! it stands.

use vstd::prelude::*;
use vstd::std_specs::iter::IteratorSpec;
use vstd::string::StringExecFns;
use crate::decimal::{
    integer_within, lemma_decimal_round_trip, read_integer, signed_decimal, write_integer,
};
use crate::kind::ValueKind;
use crate::text::same_text;

verus! {

/// A type that a flag can be registered with.
pub trait FlagType {
    /// The tag that flags of this type carry.
    spec fn kind_spec() -> ValueKind;

    /// The canonical string form of a value.
    spec fn text_spec(&self) -> Seq<char>;

    fn kind() -> (kind: ValueKind)
        ensures
            kind == Self::kind_spec(),
    ;

    /// Writes a value in its canonical string form.
    fn to_text(&self) -> (text: String)
        ensures
            text@ == self.text_spec(),
    ;
}

/// A type that a stored string can be read as.
pub trait FromText: FlagType + View + Sized {
    /// The value that a string denotes, if it denotes one.
    spec fn from_text_spec(text: Seq<char>) -> Option<Self::V>;

    /// The name of the type in messages.
    spec fn label_spec() -> Seq<char>;

    /// Reads a value from its string form.
    fn from_text(text: &str) -> (value: Option<Self>)
        ensures
            match value {
                Some(v) => Self::from_text_spec(text@) == Some(v@),
                None => Self::from_text_spec(text@) is None,
            },
    ;

    fn label() -> (label: String)
        ensures
            label@ == Self::label_spec(),
    ;

    /// Reading the canonical string form of a value gives the value back.
    proof fn lemma_round_trip(value: Self)
        ensures
            Self::from_text_spec(value.text_spec()) == Some(value@),
    ;
}

/// The truth value that a string denotes: `true` and `false` are the only
/// strings that denote one.
pub open spec fn truth_value(text: Seq<char>) -> Option<bool> {
    if text == "true"@ {
        Some(true)
    } else if text == "false"@ {
        Some(false)
    } else {
        None
    }
}

impl FlagType for bool {
    open spec fn kind_spec() -> ValueKind {
        ValueKind::Boolean
    }

    open spec fn text_spec(&self) -> Seq<char> {
        if *self {
            "true"@
        } else {
            "false"@
        }
    }

    fn kind() -> (kind: ValueKind) {
        ValueKind::Boolean
    }

    fn to_text(&self) -> (text: String) {
        if *self {
            String::from_str("true")
        } else {
            String::from_str("false")
        }
    }
}

impl FromText for bool {
    open spec fn from_text_spec(text: Seq<char>) -> Option<bool> {
        truth_value(text)
    }

    open spec fn label_spec() -> Seq<char> {
        "bool"@
    }

    fn from_text(text: &str) -> (value: Option<bool>) {
        if same_text(text, "true") {
            Some(true)
        } else if same_text(text, "false") {
            Some(false)
        } else {
            None
        }
    }

    fn label() -> (label: String) {
        String::from_str("bool")
    }

    proof fn lemma_round_trip(value: bool) {
        reveal_strlit("true");
        reveal_strlit("false");
        assert("true"@ != "false"@) by {
            assert("true"@.len() != "false"@.len());
        }
    }
}

impl FlagType for String {
    open spec fn kind_spec() -> ValueKind {
        ValueKind::Text
    }

    open spec fn text_spec(&self) -> Seq<char> {
        self@
    }

    fn kind() -> (kind: ValueKind) {
        ValueKind::Text
    }

    fn to_text(&self) -> (text: String) {
        self.clone()
    }
}

impl FromText for String {
    open spec fn from_text_spec(text: Seq<char>) -> Option<Seq<char>> {
        Some(text)
    }

    open spec fn label_spec() -> Seq<char> {
        "String"@
    }

    fn from_text(text: &str) -> (value: Option<String>) {
        Some(text.to_owned())
    }

    fn label() -> (label: String) {
        String::from_str("String")
    }

    proof fn lemma_round_trip(value: String) {
    }
}

/// The character that a string denotes: a string of exactly one character
/// denotes that character, and no other string denotes one.
pub open spec fn single_char(text: Seq<char>) -> Option<char> {
    if text.len() == 1 {
        Some(text[0])
    } else {
        None
    }
}

/// Calls [`String::from`] on a character, which allocates a string from
/// that single character. Taken on trust from the standard library's
/// documentation, not proved: the string holds the character and nothing
/// else.
#[verifier::external_body]
fn char_text(c: char) -> (text: String)
    ensures
        text@ == seq![c],
{
    String::from(c)
}

impl FlagType for char {
    open spec fn kind_spec() -> ValueKind {
        ValueKind::Text
    }

    open spec fn text_spec(&self) -> Seq<char> {
        seq![*self]
    }

    fn kind() -> (kind: ValueKind) {
        ValueKind::Text
    }

    fn to_text(&self) -> (text: String) {
        char_text(*self)
    }
}

impl FromText for char {
    open spec fn from_text_spec(text: Seq<char>) -> Option<char> {
        single_char(text)
    }

    open spec fn label_spec() -> Seq<char> {
        "char"@
    }

    fn from_text(text: &str) -> (value: Option<char>) {
        let mut it = text.chars();
        match it.next() {
            Some(c) => match it.next() {
                Some(_) => None,
                None => Some(c),
            },
            None => None,
        }
    }

    fn label() -> (label: String) {
        String::from_str("char")
    }

    proof fn lemma_round_trip(value: char) {
    }
}

impl<'a> FlagType for &'a str {
    open spec fn kind_spec() -> ValueKind {
        ValueKind::Text
    }

    open spec fn text_spec(&self) -> Seq<char> {
        self@
    }

    fn kind() -> (kind: ValueKind) {
        ValueKind::Text
    }

    fn to_text(&self) -> (text: String) {
        (*self).to_owned()
    }
}

impl FlagType for u8 {
    open spec fn kind_spec() -> ValueKind {
        ValueKind::Integer
    }

    open spec fn text_spec(&self) -> Seq<char> {
        signed_decimal(*self as int)
    }

    fn kind() -> (kind: ValueKind) {
        ValueKind::Integer
    }

    fn to_text(&self) -> (text: String) {
        write_integer(false, *self as u128)
    }
}

impl FromText for u8 {
    open spec fn from_text_spec(text: Seq<char>) -> Option<u8> {
        match integer_within(text, false, 0, u8::MAX as int) {
            Some(v) => Some(v as u8),
            None => None,
        }
    }

    open spec fn label_spec() -> Seq<char> {
        "u8"@
    }

    fn from_text(text: &str) -> (value: Option<u8>) {
        match read_integer(text, false, 0, u8::MAX as u128) {
            Some((_, magnitude)) => Some(magnitude as u8),
            None => None,
        }
    }

    fn label() -> (label: String) {
        String::from_str("u8")
    }

    proof fn lemma_round_trip(value: u8) {
        lemma_decimal_round_trip(value as int, false);
    }
}

impl FlagType for u16 {
    open spec fn kind_spec() -> ValueKind {
        ValueKind::Integer
    }

    open spec fn text_spec(&self) -> Seq<char> {
        signed_decimal(*self as int)
    }

    fn kind() -> (kind: ValueKind) {
        ValueKind::Integer
    }

    fn to_text(&self) -> (text: String) {
        write_integer(false, *self as u128)
    }
}

impl FromText for u16 {
    open spec fn from_text_spec(text: Seq<char>) -> Option<u16> {
        match integer_within(text, false, 0, u16::MAX as int) {
            Some(v) => Some(v as u16),
            None => None,
        }
    }

    open spec fn label_spec() -> Seq<char> {
        "u16"@
    }

    fn from_text(text: &str) -> (value: Option<u16>) {
        match read_integer(text, false, 0, u16::MAX as u128) {
            Some((_, magnitude)) => Some(magnitude as u16),
            None => None,
        }
    }

    fn label() -> (label: String) {
        String::from_str("u16")
    }

    proof fn lemma_round_trip(value: u16) {
        lemma_decimal_round_trip(value as int, false);
    }
}

impl FlagType for u32 {
    open spec fn kind_spec() -> ValueKind {
        ValueKind::Integer
    }

    open spec fn text_spec(&self) -> Seq<char> {
        signed_decimal(*self as int)
    }

    fn kind() -> (kind: ValueKind) {
        ValueKind::Integer
    }

    fn to_text(&self) -> (text: String) {
        write_integer(false, *self as u128)
    }
}

impl FromText for u32 {
    open spec fn from_text_spec(text: Seq<char>) -> Option<u32> {
        match integer_within(text, false, 0, u32::MAX as int) {
            Some(v) => Some(v as u32),
            None => None,
        }
    }

    open spec fn label_spec() -> Seq<char> {
        "u32"@
    }

    fn from_text(text: &str) -> (value: Option<u32>) {
        match read_integer(text, false, 0, u32::MAX as u128) {
            Some((_, magnitude)) => Some(magnitude as u32),
            None => None,
        }
    }

    fn label() -> (label: String) {
        String::from_str("u32")
    }

    proof fn lemma_round_trip(value: u32) {
        lemma_decimal_round_trip(value as int, false);
    }
}

impl FlagType for u64 {
    open spec fn kind_spec() -> ValueKind {
        ValueKind::Integer
    }

    open spec fn text_spec(&self) -> Seq<char> {
        signed_decimal(*self as int)
    }

    fn kind() -> (kind: ValueKind) {
        ValueKind::Integer
    }

    fn to_text(&self) -> (text: String) {
        write_integer(false, *self as u128)
    }
}

impl FromText for u64 {
    open spec fn from_text_spec(text: Seq<char>) -> Option<u64> {
        match integer_within(text, false, 0, u64::MAX as int) {
            Some(v) => Some(v as u64),
            None => None,
        }
    }

    open spec fn label_spec() -> Seq<char> {
        "u64"@
    }

    fn from_text(text: &str) -> (value: Option<u64>) {
        match read_integer(text, false, 0, u64::MAX as u128) {
            Some((_, magnitude)) => Some(magnitude as u64),
            None => None,
        }
    }

    fn label() -> (label: String) {
        String::from_str("u64")
    }

    proof fn lemma_round_trip(value: u64) {
        lemma_decimal_round_trip(value as int, false);
    }
}

impl FlagType for u128 {
    open spec fn kind_spec() -> ValueKind {
        ValueKind::Integer
    }

    open spec fn text_spec(&self) -> Seq<char> {
        signed_decimal(*self as int)
    }

    fn kind() -> (kind: ValueKind) {
        ValueKind::Integer
    }

    fn to_text(&self) -> (text: String) {
        write_integer(false, *self as u128)
    }
}

impl FromText for u128 {
    open spec fn from_text_spec(text: Seq<char>) -> Option<u128> {
        match integer_within(text, false, 0, u128::MAX as int) {
            Some(v) => Some(v as u128),
            None => None,
        }
    }

    open spec fn label_spec() -> Seq<char> {
        "u128"@
    }

    fn from_text(text: &str) -> (value: Option<u128>) {
        match read_integer(text, false, 0, u128::MAX as u128) {
            Some((_, magnitude)) => Some(magnitude as u128),
            None => None,
        }
    }

    fn label() -> (label: String) {
        String::from_str("u128")
    }

    proof fn lemma_round_trip(value: u128) {
        lemma_decimal_round_trip(value as int, false);
    }
}

impl FlagType for usize {
    open spec fn kind_spec() -> ValueKind {
        ValueKind::Integer
    }

    open spec fn text_spec(&self) -> Seq<char> {
        signed_decimal(*self as int)
    }

    fn kind() -> (kind: ValueKind) {
        ValueKind::Integer
    }

    fn to_text(&self) -> (text: String) {
        write_integer(false, *self as u128)
    }
}

impl FromText for usize {
    open spec fn from_text_spec(text: Seq<char>) -> Option<usize> {
        match integer_within(text, false, 0, usize::MAX as int) {
            Some(v) => Some(v as usize),
            None => None,
        }
    }

    open spec fn label_spec() -> Seq<char> {
        "usize"@
    }

    fn from_text(text: &str) -> (value: Option<usize>) {
        match read_integer(text, false, 0, usize::MAX as u128) {
            Some((_, magnitude)) => Some(magnitude as usize),
            None => None,
        }
    }

    fn label() -> (label: String) {
        String::from_str("usize")
    }

    proof fn lemma_round_trip(value: usize) {
        lemma_decimal_round_trip(value as int, false);
    }
}

impl FlagType for i8 {
    open spec fn kind_spec() -> ValueKind {
        ValueKind::Integer
    }

    open spec fn text_spec(&self) -> Seq<char> {
        signed_decimal(*self as int)
    }

    fn kind() -> (kind: ValueKind) {
        ValueKind::Integer
    }

    fn to_text(&self) -> (text: String) {
        let value: i8 = *self;
        if value == i8::MIN {
            write_integer(true, i8::MAX as u128 + 1)
        } else if value < 0 {
            write_integer(true, (-value) as u128)
        } else {
            write_integer(false, value as u128)
        }
    }
}

impl FromText for i8 {
    open spec fn from_text_spec(text: Seq<char>) -> Option<i8> {
        match integer_within(text, true, i8::MIN as int, i8::MAX as int) {
            Some(v) => Some(v as i8),
            None => None,
        }
    }

    open spec fn label_spec() -> Seq<char> {
        "i8"@
    }

    fn from_text(text: &str) -> (value: Option<i8>) {
        match read_integer(text, true, i8::MAX as u128 + 1, i8::MAX as u128) {
            Some((negative, magnitude)) => {
                if !negative {
                    Some(magnitude as i8)
                } else if magnitude == i8::MAX as u128 + 1 {
                    Some(i8::MIN)
                } else {
                    Some(-(magnitude as i8))
                }
            },
            None => None,
        }
    }

    fn label() -> (label: String) {
        String::from_str("i8")
    }

    proof fn lemma_round_trip(value: i8) {
        lemma_decimal_round_trip(value as int, true);
    }
}

impl FlagType for i16 {
    open spec fn kind_spec() -> ValueKind {
        ValueKind::Integer
    }

    open spec fn text_spec(&self) -> Seq<char> {
        signed_decimal(*self as int)
    }

    fn kind() -> (kind: ValueKind) {
        ValueKind::Integer
    }

    fn to_text(&self) -> (text: String) {
        let value: i16 = *self;
        if value == i16::MIN {
            write_integer(true, i16::MAX as u128 + 1)
        } else if value < 0 {
            write_integer(true, (-value) as u128)
        } else {
            write_integer(false, value as u128)
        }
    }
}

impl FromText for i16 {
    open spec fn from_text_spec(text: Seq<char>) -> Option<i16> {
        match integer_within(text, true, i16::MIN as int, i16::MAX as int) {
            Some(v) => Some(v as i16),
            None => None,
        }
    }

    open spec fn label_spec() -> Seq<char> {
        "i16"@
    }

    fn from_text(text: &str) -> (value: Option<i16>) {
        match read_integer(text, true, i16::MAX as u128 + 1, i16::MAX as u128) {
            Some((negative, magnitude)) => {
                if !negative {
                    Some(magnitude as i16)
                } else if magnitude == i16::MAX as u128 + 1 {
                    Some(i16::MIN)
                } else {
                    Some(-(magnitude as i16))
                }
            },
            None => None,
        }
    }

    fn label() -> (label: String) {
        String::from_str("i16")
    }

    proof fn lemma_round_trip(value: i16) {
        lemma_decimal_round_trip(value as int, true);
    }
}

impl FlagType for i32 {
    open spec fn kind_spec() -> ValueKind {
        ValueKind::Integer
    }

    open spec fn text_spec(&self) -> Seq<char> {
        signed_decimal(*self as int)
    }

    fn kind() -> (kind: ValueKind) {
        ValueKind::Integer
    }

    fn to_text(&self) -> (text: String) {
        let value: i32 = *self;
        if value == i32::MIN {
            write_integer(true, i32::MAX as u128 + 1)
        } else if value < 0 {
            write_integer(true, (-value) as u128)
        } else {
            write_integer(false, value as u128)
        }
    }
}

impl FromText for i32 {
    open spec fn from_text_spec(text: Seq<char>) -> Option<i32> {
        match integer_within(text, true, i32::MIN as int, i32::MAX as int) {
            Some(v) => Some(v as i32),
            None => None,
        }
    }

    open spec fn label_spec() -> Seq<char> {
        "i32"@
    }

    fn from_text(text: &str) -> (value: Option<i32>) {
        match read_integer(text, true, i32::MAX as u128 + 1, i32::MAX as u128) {
            Some((negative, magnitude)) => {
                if !negative {
                    Some(magnitude as i32)
                } else if magnitude == i32::MAX as u128 + 1 {
                    Some(i32::MIN)
                } else {
                    Some(-(magnitude as i32))
                }
            },
            None => None,
        }
    }

    fn label() -> (label: String) {
        String::from_str("i32")
    }

    proof fn lemma_round_trip(value: i32) {
        lemma_decimal_round_trip(value as int, true);
    }
}

impl FlagType for i64 {
    open spec fn kind_spec() -> ValueKind {
        ValueKind::Integer
    }

    open spec fn text_spec(&self) -> Seq<char> {
        signed_decimal(*self as int)
    }

    fn kind() -> (kind: ValueKind) {
        ValueKind::Integer
    }

    fn to_text(&self) -> (text: String) {
        let value: i64 = *self;
        if value == i64::MIN {
            write_integer(true, i64::MAX as u128 + 1)
        } else if value < 0 {
            write_integer(true, (-value) as u128)
        } else {
            write_integer(false, value as u128)
        }
    }
}

impl FromText for i64 {
    open spec fn from_text_spec(text: Seq<char>) -> Option<i64> {
        match integer_within(text, true, i64::MIN as int, i64::MAX as int) {
            Some(v) => Some(v as i64),
            None => None,
        }
    }

    open spec fn label_spec() -> Seq<char> {
        "i64"@
    }

    fn from_text(text: &str) -> (value: Option<i64>) {
        match read_integer(text, true, i64::MAX as u128 + 1, i64::MAX as u128) {
            Some((negative, magnitude)) => {
                if !negative {
                    Some(magnitude as i64)
                } else if magnitude == i64::MAX as u128 + 1 {
                    Some(i64::MIN)
                } else {
                    Some(-(magnitude as i64))
                }
            },
            None => None,
        }
    }

    fn label() -> (label: String) {
        String::from_str("i64")
    }

    proof fn lemma_round_trip(value: i64) {
        lemma_decimal_round_trip(value as int, true);
    }
}

impl FlagType for i128 {
    open spec fn kind_spec() -> ValueKind {
        ValueKind::Integer
    }

    open spec fn text_spec(&self) -> Seq<char> {
        signed_decimal(*self as int)
    }

    fn kind() -> (kind: ValueKind) {
        ValueKind::Integer
    }

    fn to_text(&self) -> (text: String) {
        let value: i128 = *self;
        if value == i128::MIN {
            write_integer(true, i128::MAX as u128 + 1)
        } else if value < 0 {
            write_integer(true, (-value) as u128)
        } else {
            write_integer(false, value as u128)
        }
    }
}

impl FromText for i128 {
    open spec fn from_text_spec(text: Seq<char>) -> Option<i128> {
        match integer_within(text, true, i128::MIN as int, i128::MAX as int) {
            Some(v) => Some(v as i128),
            None => None,
        }
    }

    open spec fn label_spec() -> Seq<char> {
        "i128"@
    }

    fn from_text(text: &str) -> (value: Option<i128>) {
        match read_integer(text, true, i128::MAX as u128 + 1, i128::MAX as u128) {
            Some((negative, magnitude)) => {
                if !negative {
                    Some(magnitude as i128)
                } else if magnitude == i128::MAX as u128 + 1 {
                    Some(i128::MIN)
                } else {
                    Some(-(magnitude as i128))
                }
            },
            None => None,
        }
    }

    fn label() -> (label: String) {
        String::from_str("i128")
    }

    proof fn lemma_round_trip(value: i128) {
        lemma_decimal_round_trip(value as int, true);
    }
}

impl FlagType for isize {
    open spec fn kind_spec() -> ValueKind {
        ValueKind::Integer
    }

    open spec fn text_spec(&self) -> Seq<char> {
        signed_decimal(*self as int)
    }

    fn kind() -> (kind: ValueKind) {
        ValueKind::Integer
    }

    fn to_text(&self) -> (text: String) {
        let value: isize = *self;
        if value == isize::MIN {
            write_integer(true, isize::MAX as u128 + 1)
        } else if value < 0 {
            write_integer(true, (-value) as u128)
        } else {
            write_integer(false, value as u128)
        }
    }
}

impl FromText for isize {
    open spec fn from_text_spec(text: Seq<char>) -> Option<isize> {
        match integer_within(text, true, isize::MIN as int, isize::MAX as int) {
            Some(v) => Some(v as isize),
            None => None,
        }
    }

    open spec fn label_spec() -> Seq<char> {
        "isize"@
    }

    fn from_text(text: &str) -> (value: Option<isize>) {
        match read_integer(text, true, isize::MAX as u128 + 1, isize::MAX as u128) {
            Some((negative, magnitude)) => {
                if !negative {
                    Some(magnitude as isize)
                } else if magnitude == isize::MAX as u128 + 1 {
                    Some(isize::MIN)
                } else {
                    Some(-(magnitude as isize))
                }
            },
            None => None,
        }
    }

    fn label() -> (label: String) {
        String::from_str("isize")
    }

    proof fn lemma_round_trip(value: isize) {
        lemma_decimal_round_trip(value as int, true);
    }
}

} // verus!
