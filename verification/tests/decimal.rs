use ezmsg::decimal::{parse_signed, parse_unsigned, read_decimal, render_signed, render_unsigned};
use ezmsg::{ParamInt, ParamText};

#[test]
fn unsigned_numbers_are_written_in_decimal() {
    assert_eq!(render_unsigned(0), "0");
    assert_eq!(render_unsigned(7), "7");
    assert_eq!(render_unsigned(10), "10");
    assert_eq!(render_unsigned(64), "64");
    assert_eq!(render_unsigned(1002003), "1002003");
    assert_eq!(render_unsigned(u128::MAX), "340282366920938463463374607431768211455");
}

#[test]
fn signed_numbers_are_written_in_decimal() {
    assert_eq!(render_signed(0), "0");
    assert_eq!(render_signed(-1), "-1");
    assert_eq!(render_signed(-120), "-120");
    assert_eq!(render_signed(i128::MAX), "170141183460469231731687303715884105727");
    assert_eq!(render_signed(i128::MIN), "-170141183460469231731687303715884105728");
}

#[test]
fn written_numbers_are_what_std_writes() {
    for v in [0u64, 1, 9, 10, 11, 99, 100, 101, 65535, 65536, u64::MAX] {
        assert_eq!(v.to_text(), v.to_string());
        assert_eq!((v as u128).to_text(), v.to_string());
    }
    for v in [i64::MIN, -65536, -100, -10, -9, -1, 0, 1, 9, 10, i64::MAX] {
        assert_eq!(v.to_text(), v.to_string());
        assert_eq!((v as i128).to_text(), v.to_string());
    }
    assert_eq!(255u8.to_text(), "255");
    assert_eq!((-128i8).to_text(), "-128");
    assert_eq!(65535u16.to_text(), "65535");
    assert_eq!((-32768i16).to_text(), "-32768");
    assert_eq!(u32::MAX.to_text(), u32::MAX.to_string());
    assert_eq!(i32::MIN.to_text(), i32::MIN.to_string());
    assert_eq!(usize::MAX.to_text(), usize::MAX.to_string());
    assert_eq!(isize::MIN.to_text(), isize::MIN.to_string());
}

#[test]
fn text_is_its_own_canonical_form() {
    assert_eq!("bar".to_text(), "bar");
    assert_eq!(String::from("b a\nr").to_text(), "b a\nr");
    assert_eq!("".to_text(), "");
}

#[test]
fn read_decimal_gives_sign_and_magnitude() {
    assert_eq!(read_decimal("64", false), Some((false, 64)));
    assert_eq!(read_decimal("+64", false), Some((false, 64)));
    assert_eq!(read_decimal("-64", true), Some((true, 64)));
    assert_eq!(read_decimal("-64", false), None);
    assert_eq!(read_decimal("-0", true), Some((true, 0)));
    assert_eq!(read_decimal("007", false), Some((false, 7)));
    assert_eq!(read_decimal("", true), None);
    assert_eq!(read_decimal("+", true), None);
    assert_eq!(read_decimal("-", true), None);
    assert_eq!(read_decimal("+-1", true), None);
    assert_eq!(read_decimal("1 ", true), None);
    assert_eq!(read_decimal(" 1", true), None);
    assert_eq!(read_decimal("1_0", true), None);
    assert_eq!(read_decimal("1.0", true), None);
    assert_eq!(read_decimal("\u{0663}", false), None);
    assert_eq!(
        read_decimal("340282366920938463463374607431768211455", false),
        Some((false, u128::MAX))
    );
    assert_eq!(read_decimal("340282366920938463463374607431768211456", false), None);
    assert_eq!(read_decimal("3402823669209384634633746074317682114550", false), None);
    assert_eq!(read_decimal("99999999999999999999999999999999999999999x", false), None);
}

#[test]
fn parse_unsigned_keeps_to_its_range() {
    assert_eq!(parse_unsigned("255", 255), Some(255));
    assert_eq!(parse_unsigned("256", 255), None);
    assert_eq!(parse_unsigned("0", 0), Some(0));
    assert_eq!(parse_unsigned("-0", 255), None);
    assert_eq!(parse_unsigned("+0", 255), Some(0));
}

#[test]
fn parse_signed_keeps_to_its_range() {
    assert_eq!(parse_signed("127", -128, 127), Some(127));
    assert_eq!(parse_signed("128", -128, 127), None);
    assert_eq!(parse_signed("-128", -128, 127), Some(-128));
    assert_eq!(parse_signed("-129", -128, 127), None);
    assert_eq!(parse_signed("-0", -128, 127), Some(0));
    assert_eq!(
        parse_signed("-170141183460469231731687303715884105728", i128::MIN, i128::MAX),
        Some(i128::MIN)
    );
    assert_eq!(
        parse_signed("-170141183460469231731687303715884105729", i128::MIN, i128::MAX),
        None
    );
    assert_eq!(
        parse_signed("170141183460469231731687303715884105728", i128::MIN, i128::MAX),
        None
    );
}

fn texts() -> Vec<&'static str> {
    vec![
        "", "0", "1", "-1", "+1", "-0", "+0", "00", "007", "-007", "+", "-", "--1", "++1", "+-1",
        "-+1", "1-", "1+", " 1", "1 ", "1_000", "0x10", "1e3", "1.0", "abc", "12a", "a12", "127",
        "128", "-128", "-129", "255", "256", "32767", "32768", "-32768", "-32769", "65535",
        "65536", "2147483647", "2147483648", "-2147483648", "-2147483649", "4294967295",
        "4294967296", "9223372036854775807", "9223372036854775808", "-9223372036854775808",
        "-9223372036854775809", "18446744073709551615", "18446744073709551616",
        "170141183460469231731687303715884105727", "170141183460469231731687303715884105728",
        "-170141183460469231731687303715884105728", "-170141183460469231731687303715884105729",
        "340282366920938463463374607431768211455", "340282366920938463463374607431768211456",
        "0000000000000000000000000000000000000000000000000000000001",
        "99999999999999999999999999999999999999999999999999", "\u{0661}\u{0662}", "1\u{00A0}",
        "\u{FF11}",
    ]
}

#[test]
fn every_integer_type_reads_as_std_does() {
    for t in texts() {
        assert_eq!(u8::parse(t), t.parse::<u8>().ok(), "u8 {:?}", t);
        assert_eq!(u16::parse(t), t.parse::<u16>().ok(), "u16 {:?}", t);
        assert_eq!(u32::parse(t), t.parse::<u32>().ok(), "u32 {:?}", t);
        assert_eq!(u64::parse(t), t.parse::<u64>().ok(), "u64 {:?}", t);
        assert_eq!(u128::parse(t), t.parse::<u128>().ok(), "u128 {:?}", t);
        assert_eq!(usize::parse(t), t.parse::<usize>().ok(), "usize {:?}", t);
        assert_eq!(i8::parse(t), t.parse::<i8>().ok(), "i8 {:?}", t);
        assert_eq!(i16::parse(t), t.parse::<i16>().ok(), "i16 {:?}", t);
        assert_eq!(i32::parse(t), t.parse::<i32>().ok(), "i32 {:?}", t);
        assert_eq!(i64::parse(t), t.parse::<i64>().ok(), "i64 {:?}", t);
        assert_eq!(i128::parse(t), t.parse::<i128>().ok(), "i128 {:?}", t);
        assert_eq!(isize::parse(t), t.parse::<isize>().ok(), "isize {:?}", t);
    }
}

#[test]
fn what_is_written_reads_back() {
    for v in [u64::MIN, 1, 9, 10, 99, 100, 12345, u64::MAX] {
        assert_eq!(u64::parse(&v.to_text()), Some(v));
    }
    for v in [i64::MIN, -12345, -10, -1, 0, 1, 10, 12345, i64::MAX] {
        assert_eq!(i64::parse(&v.to_text()), Some(v));
    }
    for v in [i8::MIN, -1, 0, 1, i8::MAX] {
        assert_eq!(i8::parse(&v.to_text()), Some(v));
    }
    assert_eq!(u128::parse(&u128::MAX.to_text()), Some(u128::MAX));
    assert_eq!(i128::parse(&i128::MIN.to_text()), Some(i128::MIN));
}
