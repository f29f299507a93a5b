use audio_tagger::decimal::{parse_u64, render_u64, write_u64};

fn parse(text: &str) -> Option<u64> {
    let chars: Vec<char> = text.chars().collect();
    parse_u64(&chars, 0, chars.len())
}

#[test]
fn renders_numbers() {
    assert_eq!(render_u64(0), "0");
    assert_eq!(render_u64(7), "7");
    assert_eq!(render_u64(10), "10");
    assert_eq!(render_u64(1000), "1000");
    assert_eq!(render_u64(u64::MAX), "18446744073709551615");
}

#[test]
fn write_appends() {
    let mut out = String::from("n=");
    write_u64(&mut out, 305);
    write_u64(&mut out, 0);
    assert_eq!(out, "n=3050");
}

#[test]
fn parses_numbers() {
    assert_eq!(parse("0"), Some(0));
    assert_eq!(parse("007"), Some(7));
    assert_eq!(parse("+42"), Some(42));
    assert_eq!(parse("18446744073709551615"), Some(u64::MAX));
    assert_eq!(parse("000000000000000000000000000001"), Some(1));
}

#[test]
fn rejects_what_is_no_number() {
    for text in ["", "+", "-1", "1-", "1 ", " 1", "1.0", "0x1", "1_000", "++1", "٣", "18446744073709551616", "99999999999999999999"] {
        assert_eq!(parse(text), None, "text {:?}", text);
    }
}

#[test]
fn parses_a_part_of_the_characters() {
    let chars: Vec<char> = "ab123cd".chars().collect();
    assert_eq!(parse_u64(&chars, 2, 5), Some(123));
    assert_eq!(parse_u64(&chars, 2, 6), None);
    assert_eq!(parse_u64(&chars, 3, 3), None);
}

#[test]
fn agrees_with_std() {
    for text in ["0", "12", "+12", "-12", "", "+", "1a", "18446744073709551615", "18446744073709551616", "0000"] {
        assert_eq!(parse(text), text.parse::<u64>().ok(), "text {:?}", text);
    }
    for n in [0u64, 1, 9, 10, 99, 100, 12345, u64::MAX - 1, u64::MAX] {
        assert_eq!(render_u64(n), n.to_string());
        assert_eq!(parse(&render_u64(n)), Some(n));
    }
}
