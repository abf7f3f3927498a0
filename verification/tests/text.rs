use nor::decimal::{format_decimal, parse_u32, read_digits};
use nor::error::ErrorKind;
use nor::gain::Gain;
use nor::text::{chars_of, ends_with, find_from, same_text, split_lines, starts_with, string_of, trim};

fn chars(s: &str) -> Vec<char> {
    s.chars().collect()
}

fn lines(s: &str) -> Vec<String> {
    split_lines(&chars(s)).iter().map(|l| l.iter().collect()).collect()
}

#[test]
fn lines_are_cut_as_the_standard_library_cuts_them() {
    for text in ["", "a", "a\n", "a\nb", "a\n\nb\n", "\n", "\n\n", "a\r\nb\r\n", "a\rb\n", "a\r", "\r\n", "a\n\r", "x\r\r\ny"] {
        let expected: Vec<String> = text.lines().map(|l| l.to_string()).collect();
        assert_eq!(lines(text), expected, "for {:?}", text);
    }
}

#[test]
fn characters_and_strings_convert_both_ways() {
    assert_eq!(chars_of("aä€😀"), vec!['a', 'ä', '€', '😀']);
    assert_eq!(string_of(&chars("aä€😀"), 1, 3), "ä€");
    assert_eq!(string_of(&chars("abc"), 2, 2), "");
}

#[test]
fn prefixes_and_suffixes_are_found() {
    assert!(starts_with(&chars("Audio"), "Audio"));
    assert!(starts_with(&chars("Audio section"), "Audio"));
    assert!(!starts_with(&chars(" Audio"), "Audio"));
    assert!(!starts_with(&chars("Aud"), "Audio"));
    assert!(starts_with(&chars(""), ""));
    assert!(ends_with(&chars(" ├─ Sinks:"), "Sinks:"));
    assert!(!ends_with(&chars(" ├─ Sinks: "), "Sinks:"));
    assert!(!ends_with(&chars("s:"), "Sinks:"));
    assert!(ends_with(&chars("abc"), ""));
}

#[test]
fn trimming_takes_white_space_off_both_ends() {
    for text in ["", " ", "a", "  a b  ", "\t\n a\u{a0}\u{3000}", "\u{2003}x\u{85}", "a\u{200b}", "\u{1680}\u{2028}\u{2029}\u{202f}\u{205f}"] {
        let got: String = trim(&chars(text)).iter().collect();
        assert_eq!(got, text.trim(), "for {:?}", text);
    }
}

#[test]
fn texts_are_the_same_letter_for_letter() {
    assert!(same_text("sink", "sink"));
    assert!(!same_text("sink", "sinks"));
    assert!(!same_text("sink", "sinK"));
    assert!(same_text("", ""));
}

#[test]
fn the_first_of_a_character_is_found() {
    assert_eq!(find_from(&chars("a.b.c"), 0, '.'), 1);
    assert_eq!(find_from(&chars("a.b.c"), 2, '.'), 3);
    assert_eq!(find_from(&chars("a.b.c"), 4, '.'), 5);
    assert_eq!(find_from(&chars(""), 0, '.'), 0);
}

#[test]
fn numbers_are_read_from_digits() {
    assert_eq!(parse_u32(&chars("0")), Some(0));
    assert_eq!(parse_u32(&chars("45")), Some(45));
    assert_eq!(parse_u32(&chars("007")), Some(7));
    assert_eq!(parse_u32(&chars("4294967295")), Some(4_294_967_295));
    assert_eq!(parse_u32(&chars("4294967296")), None);
    assert_eq!(parse_u32(&chars("99999999999999999999999999")), None);
    assert_eq!(parse_u32(&chars("")), None);
    assert_eq!(parse_u32(&chars("+5")), None);
    assert_eq!(parse_u32(&chars("5 ")), None);
    assert_eq!(parse_u32(&chars("٣")), None);
    assert_eq!(read_digits(&chars("x123y"), 1, 4, 123), Some(123));
    assert_eq!(read_digits(&chars("x123y"), 1, 4, 122), None);
    assert_eq!(read_digits(&chars("x123y"), 1, 5, 1000), None);
    assert_eq!(read_digits(&chars("x123y"), 2, 2, 0), Some(0));
}

#[test]
fn numbers_are_written_without_leading_zeros() {
    assert_eq!(format_decimal(0), "0");
    assert_eq!(format_decimal(9), "9");
    assert_eq!(format_decimal(10), "10");
    assert_eq!(format_decimal(52), "52");
    assert_eq!(format_decimal(u64::MAX), "18446744073709551615");
}

#[test]
fn written_numbers_read_back() {
    for n in [0u32, 1, 9, 10, 99, 100, 12345, u32::MAX] {
        assert_eq!(parse_u32(&chars(&format_decimal(n as u64))), Some(n));
    }
}

#[test]
fn gains_are_read_from_decimal_text() {
    let read = |s: &str| Gain::parse(&chars(s)).map(|g| g.micros);
    assert_eq!(read("0.40"), Some(400_000));
    assert_eq!(read("1.35"), Some(1_350_000));
    assert_eq!(read("1"), Some(1_000_000));
    assert_eq!(read("1."), Some(1_000_000));
    assert_eq!(read(".5"), Some(500_000));
    assert_eq!(read("0"), Some(0));
    assert_eq!(read("0.000001"), Some(1));
    assert_eq!(read("0.0000019"), Some(1));
    assert_eq!(read("0.305"), Some(305_000));
    assert_eq!(read("00.10"), Some(100_000));
    assert_eq!(read("18446744073709.551615"), Some(u64::MAX));
    assert_eq!(read("18446744073709.551616"), None);
    assert_eq!(read("18446744073710"), None);
    assert_eq!(read(""), None);
    assert_eq!(read("."), None);
    assert_eq!(read("1.2.3"), None);
    assert_eq!(read("1..2"), None);
    assert_eq!(read("-1"), None);
    assert_eq!(read("1e3"), None);
    assert_eq!(read(" 1"), None);
}

#[test]
fn gains_are_written_as_short_as_can_be() {
    let shown = |micros: u64| Gain { micros }.render();
    assert_eq!(shown(0), "0");
    assert_eq!(shown(400_000), "0.4");
    assert_eq!(shown(450_000), "0.45");
    assert_eq!(shown(1_000_000), "1");
    assert_eq!(shown(1_500_000), "1.5");
    assert_eq!(shown(1), "0.000001");
    assert_eq!(shown(1_000_010), "1.00001");
    assert_eq!(shown(u64::MAX), "18446744073709.551615");
}

#[test]
fn written_gains_read_back() {
    for micros in [0u64, 1, 10, 400_000, 999_999, 1_000_000, 1_350_000, u64::MAX] {
        let text = Gain { micros }.render();
        assert_eq!(Gain::parse(&chars(&text)), Some(Gain { micros }));
    }
}

#[test]
fn errors_describe_themselves() {
    assert_eq!(ErrorKind::MalformedStatus.describe(), "malformed status text");
    assert_eq!(ErrorKind::SubprocessFailure.describe(), "a subprocess failed");
    assert_eq!(ErrorKind::NoSelection.describe(), "nothing was selected");
    assert_eq!(ErrorKind::UnknownName.describe(), "no node has that name");
    assert_eq!(ErrorKind::UnknownNodeType.describe(), "unknown node type");
}
