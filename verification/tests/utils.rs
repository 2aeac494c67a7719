//! Taking sizes apart.

use fdu::utils::{
    find_boundary, multiplier_of_unit, parse_plain_bytes, parse_size, ParsedSize, SizeError, GIB,
    KIB, MIB, PIB, TIB,
};

fn scaled(text: &str) -> (String, u64) {
    match parse_size(text) {
        Ok(ParsedSize::Scaled { number, multiplier }) => (number, multiplier),
        other => panic!("expected a scaled size for {:?}, got {:?}", text, other),
    }
}

fn bytes(text: &str) -> u64 {
    match parse_size(text) {
        Ok(ParsedSize::Bytes(bytes)) => bytes,
        other => panic!("expected plain bytes for {:?}, got {:?}", text, other),
    }
}

fn error(text: &str) -> SizeError {
    match parse_size(text) {
        Err(e) => e,
        other => panic!("expected an error for {:?}, got {:?}", text, other),
    }
}

#[test]
fn plain_counts_of_bytes() {
    assert_eq!(bytes("0"), 0);
    assert_eq!(bytes("1024"), 1024);
    assert_eq!(bytes("+5"), 5);
    assert_eq!(bytes("007"), 7);
    assert_eq!(bytes("18446744073709551615"), u64::MAX);
}

#[test]
fn whitespace_around_a_size_does_not_count() {
    assert_eq!(bytes("  42\t\n"), 42);
    assert_eq!(bytes("\u{2003}42\u{a0}"), 42);
    assert_eq!(scaled(" 10MB "), (String::from("10"), MIB));
}

#[test]
fn empty_sizes() {
    assert_eq!(error(""), SizeError::Empty);
    assert_eq!(error("   "), SizeError::Empty);
    assert_eq!(error("\t\n"), SizeError::Empty);
}

#[test]
fn units_without_a_number() {
    assert_eq!(error("MB"), SizeError::NoNumber);
    assert_eq!(error("k"), SizeError::NoNumber);
    assert_eq!(error("x10"), SizeError::NoNumber);
    assert_eq!(error("inf"), SizeError::NoNumber);
}

#[test]
fn units_are_powers_of_1024() {
    assert_eq!(KIB, 1024);
    assert_eq!(MIB, 1024u64.pow(2));
    assert_eq!(GIB, 1024u64.pow(3));
    assert_eq!(TIB, 1024u64.pow(4));
    assert_eq!(PIB, 1024u64.pow(5));
    assert_eq!(scaled("10B"), (String::from("10"), 1));
    assert_eq!(scaled("10K"), (String::from("10"), KIB));
    assert_eq!(scaled("10KB"), (String::from("10"), KIB));
    assert_eq!(scaled("10M"), (String::from("10"), MIB));
    assert_eq!(scaled("10MB"), (String::from("10"), MIB));
    assert_eq!(scaled("3G"), (String::from("3"), GIB));
    assert_eq!(scaled("3GB"), (String::from("3"), GIB));
    assert_eq!(scaled("2T"), (String::from("2"), TIB));
    assert_eq!(scaled("2TB"), (String::from("2"), TIB));
    assert_eq!(scaled("1P"), (String::from("1"), PIB));
    assert_eq!(scaled("1PB"), (String::from("1"), PIB));
}

#[test]
fn units_are_read_without_regard_to_case() {
    assert_eq!(scaled("10kb"), (String::from("10"), KIB));
    assert_eq!(scaled("10Kb"), (String::from("10"), KIB));
    assert_eq!(scaled("1.5g"), (String::from("1.5"), GIB));
    assert_eq!(scaled("7b"), (String::from("7"), 1));
}

#[test]
fn the_number_is_handed_on_as_it_stands() {
    assert_eq!(scaled("1.5G"), (String::from("1.5"), GIB));
    assert_eq!(scaled("-3K"), (String::from("-3"), KIB));
    assert_eq!(scaled("5 K"), (String::from("5 "), KIB));
    assert_eq!(scaled("1_000M"), (String::from("1_000"), MIB));
    assert_eq!(scaled("-1"), (String::from("-1"), 1));
    assert_eq!(scaled("+"), (String::from("+"), 1));
    assert_eq!(scaled("2.5"), (String::from("2.5"), 1));
    assert_eq!(scaled("18446744073709551616"), (String::from("18446744073709551616"), 1));
}

#[test]
fn unknown_units() {
    assert_eq!(error("10XB"), SizeError::UnknownSuffix);
    assert_eq!(error("10BB"), SizeError::UnknownSuffix);
    assert_eq!(error("10KiB"), SizeError::UnknownSuffix);
    assert_eq!(error("10E"), SizeError::UnknownSuffix);
    assert_eq!(error("1e3K"), SizeError::UnknownSuffix);
    assert_eq!(error("10MBs"), SizeError::UnknownSuffix);
    assert_eq!(error("10M B"), SizeError::UnknownSuffix);
}

#[test]
fn plain_bytes_are_an_optional_plus_and_digits() {
    assert_eq!(parse_plain_bytes("123"), Some(123));
    assert_eq!(parse_plain_bytes("+123"), Some(123));
    assert_eq!(parse_plain_bytes(""), None);
    assert_eq!(parse_plain_bytes("+"), None);
    assert_eq!(parse_plain_bytes("-1"), None);
    assert_eq!(parse_plain_bytes("++1"), None);
    assert_eq!(parse_plain_bytes("1+"), None);
    assert_eq!(parse_plain_bytes("12a"), None);
    assert_eq!(parse_plain_bytes(" 12"), None);
    assert_eq!(parse_plain_bytes("1.0"), None);
    assert_eq!(parse_plain_bytes("\u{663}"), None);
    assert_eq!(parse_plain_bytes("18446744073709551615"), Some(u64::MAX));
    assert_eq!(parse_plain_bytes("18446744073709551616"), None);
    assert_eq!(parse_plain_bytes("99999999999999999999999"), None);
    assert_eq!(parse_plain_bytes("000000000000000000000000001"), Some(1));
    for text in ["0", "+0", "42", "+", "", "-0", "1e3", "18446744073709551615", "18446744073709551616"] {
        assert_eq!(parse_plain_bytes(text), text.parse::<u64>().ok(), "{:?}", text);
    }
}

#[test]
fn boundary_is_the_first_alphabetic_character() {
    assert_eq!(find_boundary("10MB"), 2);
    assert_eq!(find_boundary("MB"), 0);
    assert_eq!(find_boundary("1234"), 4);
    assert_eq!(find_boundary(""), 0);
    assert_eq!(find_boundary("1.5 g"), 4);
    assert_eq!(find_boundary("12\u{e9}"), 2);
    assert_eq!(find_boundary("\u{20ac}5K"), 2);
}

#[test]
fn multipliers_of_units() {
    assert_eq!(multiplier_of_unit(""), Some(1));
    assert_eq!(multiplier_of_unit("B"), Some(1));
    assert_eq!(multiplier_of_unit("K"), Some(1024));
    assert_eq!(multiplier_of_unit("PB"), Some(PIB));
    assert_eq!(multiplier_of_unit("k"), None);
    assert_eq!(multiplier_of_unit("BB"), None);
    assert_eq!(multiplier_of_unit("KBB"), None);
    assert_eq!(multiplier_of_unit("KK"), None);
}

#[test]
fn whitespace_is_what_has_the_white_space_property() {
    let listed = |c: char| {
        matches!(
            c as u32,
            0x09..=0x0D
                | 0x20
                | 0x85
                | 0xA0
                | 0x1680
                | 0x2000..=0x200A
                | 0x2028
                | 0x2029
                | 0x202F
                | 0x205F
                | 0x3000
        )
    };
    let mut text = String::new();
    for code in 0..=0x10FFFFu32 {
        if let Some(c) = char::from_u32(code) {
            text.clear();
            text.push(c);
            text.push('7');
            text.push(c);
            let dropped = matches!(parse_size(&text), Ok(ParsedSize::Bytes(7)));
            assert_eq!(dropped, listed(c), "U+{:04X}", code);
        }
    }
}

#[test]
fn whitespace_inside_a_size_stays() {
    assert_eq!(scaled("4 2"), (String::from("4 2"), 1));
    assert_eq!(scaled("\u{200b}42"), (String::from("\u{200b}42"), 1));
    assert_eq!(scaled("42\u{180e}"), (String::from("42\u{180e}"), 1));
    assert_eq!(scaled("\u{1c}42"), (String::from("\u{1c}42"), 1));
    assert_eq!(bytes("\u{3000}\u{2028}42\u{85}\u{1680}"), 42);
}
