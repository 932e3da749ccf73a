//! Integers in decimal notation: what a literal denotes, how it is read and
//! how a number is written.
//!
//! A literal is an optional sign followed by at least one of the digits `0`
//! to `9` and nothing else. A minus sign is a sign only where negative
//! numbers are asked for.

use vstd::prelude::*;
use vstd::std_specs::iter::IteratorSpec;
use vstd::string::StringExecFns;

verus! {

pub open spec fn is_digit(c: char) -> bool {
    '0' <= c && c <= '9'
}

/// The number a digit stands for.
pub open spec fn digit_value(c: char) -> int {
    c as int - '0' as int
}

/// The digit that stands for a number below ten; for any other number, the
/// digit nine.
pub open spec fn digit_char(d: int) -> char {
    if d == 0 {
        '0'
    } else if d == 1 {
        '1'
    } else if d == 2 {
        '2'
    } else if d == 3 {
        '3'
    } else if d == 4 {
        '4'
    } else if d == 5 {
        '5'
    } else if d == 6 {
        '6'
    } else if d == 7 {
        '7'
    } else if d == 8 {
        '8'
    } else {
        '9'
    }
}

pub open spec fn all_digits(s: Seq<char>) -> bool {
    forall|i: int| 0 <= i < s.len() ==> is_digit(#[trigger] s[i])
}

/// The number that a run of digits denotes, the first digit weighing most.
pub open spec fn digits_value(s: Seq<char>) -> int
    decreases s.len(),
{
    if s.len() == 0 {
        0
    } else {
        digits_value(s.drop_last()) * 10 + digit_value(s.last())
    }
}

/// How many characters of a literal are its sign.
pub open spec fn sign_len(s: Seq<char>, signed: bool) -> int {
    if s.len() > 0 && (s[0] == '+' || (signed && s[0] == '-')) {
        1
    } else {
        0
    }
}

/// Whether a literal carries a minus sign.
pub open spec fn is_negative(s: Seq<char>, signed: bool) -> bool {
    signed && s.len() > 0 && s[0] == '-'
}

/// The integer that `s` denotes, if `s` is a literal.
pub open spec fn integer_value(s: Seq<char>, signed: bool) -> Option<int> {
    let digits = s.skip(sign_len(s, signed));
    if digits.len() > 0 && all_digits(digits) {
        if is_negative(s, signed) {
            Some(-digits_value(digits))
        } else {
            Some(digits_value(digits))
        }
    } else {
        None
    }
}

/// The integer that `s` denotes, if `s` is a literal of a number from `lo`
/// to `hi`.
pub open spec fn integer_within(s: Seq<char>, signed: bool, lo: int, hi: int) -> Option<int> {
    match integer_value(s, signed) {
        Some(v) => if lo <= v <= hi {
            Some(v)
        } else {
            None
        },
        None => None,
    }
}

/// A natural number in decimal notation, without leading zeros.
pub open spec fn decimal(n: nat) -> Seq<char>
    decreases n,
{
    if n < 10 {
        seq![digit_char(n as int)]
    } else {
        decimal(n / 10).push(digit_char((n % 10) as int))
    }
}

/// An integer in decimal notation, with a minus sign where it is negative.
pub open spec fn signed_decimal(v: int) -> Seq<char> {
    if v < 0 {
        seq!['-'] + decimal((-v) as nat)
    } else {
        decimal(v as nat)
    }
}

/// A run of digits denotes no less than any run it starts with.
pub proof fn lemma_digits_value_grows(s: Seq<char>, k: int)
    requires
        all_digits(s),
        0 <= k <= s.len(),
    ensures
        0 <= digits_value(s.take(k)) <= digits_value(s),
    decreases s.len() - k,
{
    if k == s.len() {
        assert(s.take(k) =~= s);
        lemma_digits_value_nonnegative(s);
    } else {
        lemma_digits_value_grows(s, k + 1);
        let longer = s.take(k + 1);
        assert(longer.drop_last() =~= s.take(k));
        lemma_digits_value_nonnegative(s.take(k));
    }
}

/// A run of digits denotes no negative number.
pub proof fn lemma_digits_value_nonnegative(s: Seq<char>)
    requires
        all_digits(s),
    ensures
        0 <= digits_value(s),
    decreases s.len(),
{
    if s.len() > 0 {
        lemma_digits_value_nonnegative(s.drop_last());
    }
}

/// The decimal notation of a number is a run of digits that starts with a
/// digit and denotes that number.
pub proof fn lemma_decimal_denotes(n: nat)
    ensures
        decimal(n).len() > 0,
        all_digits(decimal(n)),
        digits_value(decimal(n)) == n,
    decreases n,
{
    if n < 10 {
        let s = decimal(n);
        assert(digits_value(s.drop_last()) == 0);
    } else {
        lemma_decimal_denotes(n / 10);
        let s = decimal(n);
        assert(s.drop_last() =~= decimal(n / 10));
    }
}

/// Reading what was written gives the number back: the notation of any
/// integer is a literal of that integer, provided negative numbers are
/// asked for or the integer is not negative.
pub proof fn lemma_decimal_round_trip(v: int, signed: bool)
    requires
        signed || v >= 0,
    ensures
        integer_value(signed_decimal(v), signed) == Some(v),
{
    let s = signed_decimal(v);
    if v < 0 {
        let body = decimal((-v) as nat);
        lemma_decimal_denotes((-v) as nat);
        assert(s.skip(1) =~= body);
    } else {
        lemma_decimal_denotes(v as nat);
        assert(s.skip(0) =~= s);
    }
}

/// Reads one digit.
pub fn digit_of(c: char) -> (d: Option<u8>)
    ensures
        match d {
            Some(v) => is_digit(c) && v == digit_value(c),
            None => !is_digit(c),
        },
{
    if c >= '0' && c <= '9' {
        Some((c as u32 - '0' as u32) as u8)
    } else {
        None
    }
}

/// Reads a literal of a number from `-max_neg` to `max_pos` and hands out
/// its sign and magnitude.
pub fn read_integer(
    s: &str,
    signed: bool,
    max_neg: u128,
    max_pos: u128,
) -> (outcome: Option<(bool, u128)>)
    ensures
        match outcome {
            Some((negative, magnitude)) => {
                &&& integer_within(s@, signed, -(max_neg as int), max_pos as int) == Some(
                    if negative {
                        -(magnitude as int)
                    } else {
                        magnitude as int
                    },
                )
                &&& negative ==> signed && magnitude <= max_neg
                &&& !negative ==> magnitude <= max_pos
            },
            None => integer_within(s@, signed, -(max_neg as int), max_pos as int) is None,
        },
{
    let mut it = s.chars();
    let ghost start: int = sign_len(s@, signed);
    let ghost mut done: int = 0;
    let mut negative = false;
    let mut magnitude: u128 = 0;
    let mut any_digit = false;
    match it.next() {
        None => {
            return None;
        },
        Some(c) => {
            if c == '+' {
            } else if signed && c == '-' {
                negative = true;
            } else {
                match digit_of(c) {
                    Some(d) => {
                        magnitude = d as u128;
                        any_digit = true;
                        proof {
                            let one = s@.subrange(0, 1);
                            assert(digits_value(one.drop_last()) == 0);
                        }
                        if magnitude > max_pos {
                            proof {
                                if all_digits(s@.skip(0)) {
                                    lemma_digits_value_grows(s@.skip(0), 1);
                                }
                            }
                            return None;
                        }
                    },
                    None => {
                        assert(!is_digit(s@.skip(0)[0]));
                        return None;
                    },
                }
            }
            proof {
                done = 1;
            }
        },
    }
    let limit = if negative {
        max_neg
    } else {
        max_pos
    };
    loop
        invariant
            start == sign_len(s@, signed),
            negative == is_negative(s@, signed),
            limit == (if negative {
                max_neg
            } else {
                max_pos
            }),
            0 <= start <= done <= s@.len(),
            it.obeys_prophetic_iter_laws(),
            it.remaining() == s@.skip(done),
            it.decrease() is Some,
            any_digit == (done > start),
            all_digits(s@.subrange(start, done)),
            magnitude == digits_value(s@.subrange(start, done)),
            magnitude <= limit,
        decreases it.decrease()->0,
    {
        match it.next() {
            None => {
                if any_digit {
                    return Some((negative, magnitude));
                } else {
                    return None;
                }
            },
            Some(c) => {
                let ghost digits = s@.skip(start);
                let ghost longer = s@.subrange(start, done + 1);
                proof {
                    assert(longer.drop_last() =~= s@.subrange(start, done));
                    assert(longer.last() == c);
                }
                match digit_of(c) {
                    None => {
                        return None;
                    },
                    Some(d) => {
                        proof {
                            assert(all_digits(longer));
                            if all_digits(digits) {
                                lemma_digits_value_grows(digits, done + 1 - start);
                                assert(digits.take(done + 1 - start) =~= longer);
                            }
                        }
                        let next = match magnitude.checked_mul(10) {
                            Some(m) => m.checked_add(d as u128),
                            None => None,
                        };
                        match next {
                            Some(m) => {
                                if m > limit {
                                    return None;
                                }
                                magnitude = m;
                            },
                            None => {
                                return None;
                            },
                        }
                        any_digit = true;
                        proof {
                            done = done + 1;
                        }
                    },
                }
            },
        }
    }
}

/// The one-character string for a number below ten; for any other number,
/// the one for nine.
pub fn digit_text(d: u8) -> (text: &'static str)
    ensures
        text@ == seq![digit_char(d as int)],
{
    proof {
        reveal_strlit("0");
        reveal_strlit("1");
        reveal_strlit("2");
        reveal_strlit("3");
        reveal_strlit("4");
        reveal_strlit("5");
        reveal_strlit("6");
        reveal_strlit("7");
        reveal_strlit("8");
        reveal_strlit("9");
    }
    if d == 0 {
        "0"
    } else if d == 1 {
        "1"
    } else if d == 2 {
        "2"
    } else if d == 3 {
        "3"
    } else if d == 4 {
        "4"
    } else if d == 5 {
        "5"
    } else if d == 6 {
        "6"
    } else if d == 7 {
        "7"
    } else if d == 8 {
        "8"
    } else {
        "9"
    }
}

/// Writes a natural number in decimal notation.
pub fn write_natural(n: u128) -> (text: String)
    ensures
        text@ == decimal(n as nat),
    decreases n,
{
    if n < 10 {
        String::from_str(digit_text(n as u8))
    } else {
        write_natural(n / 10).concat(digit_text((n % 10) as u8))
    }
}

/// Writes an integer, given as sign and magnitude, in decimal notation. A
/// magnitude of zero keeps the sign it is given.
pub fn write_integer(negative: bool, magnitude: u128) -> (text: String)
    ensures
        text@ == (if negative {
            seq!['-'] + decimal(magnitude as nat)
        } else {
            decimal(magnitude as nat)
        }),
        !negative || magnitude > 0 ==> text@ == signed_decimal(
            if negative {
                -(magnitude as int)
            } else {
                magnitude as int
            },
        ),
{
    let body = write_natural(magnitude);
    if negative {
        proof {
            reveal_strlit("-");
        }
        String::from_str("-").concat(body.as_str())
    } else {
        body
    }
}

} // verus!
