use commandrs::decimal::{digit_of, digit_text, read_integer, write_integer, write_natural};
use commandrs::kind::ValueKind;
use commandrs::value::{FlagType, FromText};

const SAMPLES: [&str; 64] = [
    "", "0", "00", "000007", "7", "+7", "-7", "+", "-", "+-7", "-+7", "--7", "++7", " 7", "7 ",
    "7a", "a7", "1_000", "0x10", "1e3", "1.0", "٣", "７", "127", "128", "-128", "-129", "255",
    "256", "-0", "+0", "-00", "32767", "32768", "-32768", "-32769", "65535", "65536",
    "2147483647", "2147483648", "-2147483648", "-2147483649", "4294967295", "4294967296",
    "9223372036854775807", "9223372036854775808", "-9223372036854775808",
    "-9223372036854775809", "18446744073709551615", "18446744073709551616",
    "170141183460469231731687303715884105727", "170141183460469231731687303715884105728",
    "-170141183460469231731687303715884105728", "-170141183460469231731687303715884105729",
    "340282366920938463463374607431768211455", "340282366920938463463374607431768211456",
    "3402823669209384634633746074317682114550", "99999999999999999999999999999999999999999999",
    "-99999999999999999999999999999999999999999999", "314159265358979", "true", "false",
    "+000000000000000000000000000000000000000000000000255", "-000000000000000000000000128",
];

#[test]
fn digits_are_read_one_by_one() {
    assert_eq!(Some(0), digit_of('0'));
    assert_eq!(Some(5), digit_of('5'));
    assert_eq!(Some(9), digit_of('9'));
    assert_eq!(None, digit_of('/'));
    assert_eq!(None, digit_of(':'));
    assert_eq!(None, digit_of('a'));
    assert_eq!(None, digit_of('٣'));
    assert_eq!("0", digit_text(0));
    assert_eq!("4", digit_text(4));
    assert_eq!("9", digit_text(9));
}

#[test]
fn read_integer_gives_sign_and_magnitude() {
    assert_eq!(Some((false, 42)), read_integer("42", true, 100, 100));
    assert_eq!(Some((false, 42)), read_integer("+42", false, 0, 100));
    assert_eq!(Some((true, 42)), read_integer("-42", true, 100, 100));
    assert_eq!(Some((true, 0)), read_integer("-0", true, 100, 100));
    assert_eq!(None, read_integer("-42", false, 100, 100));
    assert_eq!(Some((false, 100)), read_integer("100", true, 5, 100));
    assert_eq!(None, read_integer("101", true, 500, 100));
    assert_eq!(Some((true, 5)), read_integer("-5", true, 5, 100));
    assert_eq!(None, read_integer("-6", true, 5, 100));
    assert_eq!(None, read_integer("", true, 5, 100));
    assert_eq!(None, read_integer("4 2", true, 100, 100));
}

#[test]
fn numbers_are_written_in_decimal() {
    assert_eq!("0", write_natural(0));
    assert_eq!("9", write_natural(9));
    assert_eq!("10", write_natural(10));
    assert_eq!("314159265358979", write_natural(314159265358979));
    assert_eq!(u128::MAX.to_string(), write_natural(u128::MAX));
    assert_eq!("-1", write_integer(true, 1));
    assert_eq!("1", write_integer(false, 1));
    assert_eq!("0", write_integer(false, 0));
    assert_eq!("-170141183460469231731687303715884105728", write_integer(true, 1 << 127));
}

#[test]
fn unsigned_integers_are_read_as_the_standard_library_reads_them() {
    for s in SAMPLES.iter() {
        assert_eq!(s.parse::<u8>().ok(), u8::from_text(s), "u8 {:?}", s);
        assert_eq!(s.parse::<u16>().ok(), u16::from_text(s), "u16 {:?}", s);
        assert_eq!(s.parse::<u32>().ok(), u32::from_text(s), "u32 {:?}", s);
        assert_eq!(s.parse::<u64>().ok(), u64::from_text(s), "u64 {:?}", s);
        assert_eq!(s.parse::<u128>().ok(), u128::from_text(s), "u128 {:?}", s);
        assert_eq!(s.parse::<usize>().ok(), usize::from_text(s), "usize {:?}", s);
    }
}

#[test]
fn signed_integers_are_read_as_the_standard_library_reads_them() {
    for s in SAMPLES.iter() {
        assert_eq!(s.parse::<i8>().ok(), i8::from_text(s), "i8 {:?}", s);
        assert_eq!(s.parse::<i16>().ok(), i16::from_text(s), "i16 {:?}", s);
        assert_eq!(s.parse::<i32>().ok(), i32::from_text(s), "i32 {:?}", s);
        assert_eq!(s.parse::<i64>().ok(), i64::from_text(s), "i64 {:?}", s);
        assert_eq!(s.parse::<i128>().ok(), i128::from_text(s), "i128 {:?}", s);
        assert_eq!(s.parse::<isize>().ok(), isize::from_text(s), "isize {:?}", s);
    }
}

#[test]
fn truth_values_are_read_as_the_standard_library_reads_them() {
    for s in SAMPLES.iter() {
        assert_eq!(s.parse::<bool>().ok(), bool::from_text(s), "bool {:?}", s);
    }
    for s in ["True", "TRUE", "False", "1", "0", "yes", " true", "true ", "truee", "tru"].iter() {
        assert_eq!(s.parse::<bool>().ok(), bool::from_text(s), "bool {:?}", s);
        assert_eq!(None, bool::from_text(s));
    }
    assert_eq!(Some(true), bool::from_text("true"));
    assert_eq!(Some(false), bool::from_text("false"));
}

#[test]
fn text_is_read_as_it_stands() {
    for s in SAMPLES.iter() {
        assert_eq!(Some(s.to_string()), String::from_text(s));
    }
    assert_eq!(Some("Dr. Ollie".to_string()), String::from_text("Dr. Ollie"));
}

#[test]
fn values_are_written_as_the_standard_library_writes_them() {
    assert_eq!(true.to_string(), true.to_text());
    assert_eq!(false.to_string(), false.to_text());
    assert_eq!("lol", "lol".to_text());
    assert_eq!("lol", "lol".to_string().to_text());
    for v in [0u8, 1, 9, 10, 99, 100, 255] {
        assert_eq!(v.to_string(), v.to_text());
    }
    for v in [i8::MIN, -100, -10, -9, -1, 0, 1, 9, 10, 100, i8::MAX] {
        assert_eq!(v.to_string(), v.to_text());
    }
    for v in [0u16, 65535] {
        assert_eq!(v.to_string(), v.to_text());
    }
    for v in [i16::MIN, -1, 0, i16::MAX] {
        assert_eq!(v.to_string(), v.to_text());
    }
    for v in [0u32, 1000000, u32::MAX] {
        assert_eq!(v.to_string(), v.to_text());
    }
    for v in [i32::MIN, -1000000, 0, i32::MAX] {
        assert_eq!(v.to_string(), v.to_text());
    }
    for v in [0u64, 314159265358979, u64::MAX] {
        assert_eq!(v.to_string(), v.to_text());
    }
    for v in [i64::MIN, -314159265358979, 0, i64::MAX] {
        assert_eq!(v.to_string(), v.to_text());
    }
    for v in [0u128, u128::MAX] {
        assert_eq!(v.to_string(), v.to_text());
    }
    for v in [i128::MIN, -1, 0, i128::MAX] {
        assert_eq!(v.to_string(), v.to_text());
    }
    for v in [0usize, usize::MAX] {
        assert_eq!(v.to_string(), v.to_text());
    }
    for v in [isize::MIN, -1, 0, isize::MAX] {
        assert_eq!(v.to_string(), v.to_text());
    }
}

#[test]
fn reading_what_was_written_gives_the_value_back() {
    for v in [u8::MIN, 7, u8::MAX] {
        assert_eq!(Some(v), u8::from_text(&v.to_text()));
    }
    for v in [i8::MIN, -7, 0, 7, i8::MAX] {
        assert_eq!(Some(v), i8::from_text(&v.to_text()));
    }
    for v in [u16::MIN, u16::MAX] {
        assert_eq!(Some(v), u16::from_text(&v.to_text()));
    }
    for v in [i16::MIN, i16::MAX] {
        assert_eq!(Some(v), i16::from_text(&v.to_text()));
    }
    for v in [u32::MIN, u32::MAX] {
        assert_eq!(Some(v), u32::from_text(&v.to_text()));
    }
    for v in [i32::MIN, i32::MAX] {
        assert_eq!(Some(v), i32::from_text(&v.to_text()));
    }
    for v in [u64::MIN, u64::MAX] {
        assert_eq!(Some(v), u64::from_text(&v.to_text()));
    }
    for v in [i64::MIN, i64::MAX] {
        assert_eq!(Some(v), i64::from_text(&v.to_text()));
    }
    for v in [u128::MIN, u128::MAX] {
        assert_eq!(Some(v), u128::from_text(&v.to_text()));
    }
    for v in [i128::MIN, i128::MAX] {
        assert_eq!(Some(v), i128::from_text(&v.to_text()));
    }
    for v in [usize::MIN, usize::MAX] {
        assert_eq!(Some(v), usize::from_text(&v.to_text()));
    }
    for v in [isize::MIN, isize::MAX] {
        assert_eq!(Some(v), isize::from_text(&v.to_text()));
    }
    for v in [true, false] {
        assert_eq!(Some(v), bool::from_text(&v.to_text()));
    }
    let text = "Dr. Ollie".to_string();
    assert_eq!(Some(text.clone()), String::from_text(&text.to_text()));
}

#[test]
fn every_type_has_its_kind_and_label() {
    assert_eq!(ValueKind::Boolean, <bool as FlagType>::kind());
    assert_eq!(ValueKind::Text, <String as FlagType>::kind());
    assert_eq!(ValueKind::Text, <&str as FlagType>::kind());
    assert_eq!(ValueKind::Integer, <u8 as FlagType>::kind());
    assert_eq!(ValueKind::Integer, <u16 as FlagType>::kind());
    assert_eq!(ValueKind::Integer, <u32 as FlagType>::kind());
    assert_eq!(ValueKind::Integer, <u64 as FlagType>::kind());
    assert_eq!(ValueKind::Integer, <u128 as FlagType>::kind());
    assert_eq!(ValueKind::Integer, <usize as FlagType>::kind());
    assert_eq!(ValueKind::Integer, <i8 as FlagType>::kind());
    assert_eq!(ValueKind::Integer, <i16 as FlagType>::kind());
    assert_eq!(ValueKind::Integer, <i32 as FlagType>::kind());
    assert_eq!(ValueKind::Integer, <i64 as FlagType>::kind());
    assert_eq!(ValueKind::Integer, <i128 as FlagType>::kind());
    assert_eq!(ValueKind::Integer, <isize as FlagType>::kind());
    assert_eq!("bool", bool::label());
    assert_eq!("String", String::label());
    assert_eq!("u8", u8::label());
    assert_eq!("u16", u16::label());
    assert_eq!("u32", u32::label());
    assert_eq!("u64", u64::label());
    assert_eq!("u128", u128::label());
    assert_eq!("usize", usize::label());
    assert_eq!("i8", i8::label());
    assert_eq!("i16", i16::label());
    assert_eq!("i32", i32::label());
    assert_eq!("i64", i64::label());
    assert_eq!("i128", i128::label());
    assert_eq!("isize", isize::label());
}

#[test]
fn only_boolean_flags_do_without_a_value() {
    assert!(!ValueKind::Boolean.requires_value());
    assert!(ValueKind::Integer.requires_value());
    assert!(ValueKind::Float.requires_value());
    assert!(ValueKind::Text.requires_value());
}

#[test]
fn characters_are_read_as_the_standard_library_reads_them() {
    for s in SAMPLES.iter() {
        assert_eq!(s.parse::<char>().ok(), char::from_text(s), "char {:?}", s);
    }
    for s in ["", "a", "ab", " ", "  ", "é", "éé", "٣", "-", "--", "\n", "\u{10FFFF}"].iter() {
        assert_eq!(s.parse::<char>().ok(), char::from_text(s), "char {:?}", s);
    }
    assert_eq!(Some('a'), char::from_text("a"));
    assert_eq!(Some('é'), char::from_text("é"));
    assert_eq!(None, char::from_text(""));
    assert_eq!(None, char::from_text("ab"));
}

#[test]
fn characters_are_written_as_the_standard_library_writes_them() {
    for c in ['a', 'Z', '0', ' ', '-', 'é', '٣', '\n', '\u{10FFFF}'] {
        assert_eq!(c.to_string(), c.to_text());
        assert_eq!(1, c.to_text().chars().count());
        assert_eq!(Some(c), char::from_text(&c.to_text()));
    }
    assert_eq!("x", 'x'.to_text());
    assert_eq!(ValueKind::Text, <char as FlagType>::kind());
    assert_eq!("char", char::label());
}
