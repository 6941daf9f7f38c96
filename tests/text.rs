use imdb::models::TitleID;
use imdb::text::{chars_of, parse_unsigned, trim_chars};

fn chars(s: &str) -> Vec<char> {
    s.chars().collect()
}

#[test]
fn unsigned_numbers() {
    assert_eq!(parse_unsigned(&chars("2500000"), u32::MAX as u64), Some(2500000));
    assert_eq!(parse_unsigned(&chars("+7"), u32::MAX as u64), Some(7));
    assert_eq!(parse_unsigned(&chars("4294967295"), u32::MAX as u64), Some(4294967295));
    assert_eq!(parse_unsigned(&chars("4294967296"), u32::MAX as u64), None);
    assert_eq!(parse_unsigned(&chars("65536"), u16::MAX as u64), None);
    assert_eq!(parse_unsigned(&chars(""), 100), None);
    assert_eq!(parse_unsigned(&chars("+"), 100), None);
    assert_eq!(parse_unsigned(&chars("1 2"), 100), None);
    assert_eq!(parse_unsigned(&chars("٣"), 100), None);
}

#[test]
fn trimming_whitespace() {
    assert_eq!(trim_chars(&chars("  The Godfather \n")), chars("The Godfather"));
    assert_eq!(trim_chars(&chars("\u{a0}Amélie\u{3000}")), chars("Amélie"));
    assert_eq!(trim_chars(&chars(" \t ")), chars(""));
    assert_eq!(trim_chars(&chars("a b")), chars("a b"));
}

#[test]
fn chars_and_strings() {
    assert_eq!(chars_of("Léon"), vec!['L', 'é', 'o', 'n']);
    assert_eq!(chars_of(""), Vec::<char>::new());
    assert_eq!(TitleID(5).to_text(), "tt00000005");
}
