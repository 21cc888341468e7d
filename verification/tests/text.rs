use pyproject::constraint::{without_blanks, Constraint};
use pyproject::error::DescriptorError;
use pyproject::reading::is_python;
use pyproject::text::{chars_of, push_str, split_chars, string_of};
use pyproject::version::{parse_number, push_decimal, Version};

fn chars(s: &str) -> Vec<char> {
    s.chars().collect()
}

#[test]
fn a_text_and_its_characters_are_the_same() {
    for text in ["", "a", "pyproject.toml", "naïve – ünïcödé ✓", "line\nline\r\n\ttab"] {
        assert_eq!(chars_of(text), chars(text));
        assert_eq!(string_of(&chars(text)), text);
    }
    let mut out = chars("abc");
    push_str(&mut out, "dé");
    push_str(&mut out, "");
    assert_eq!(out, chars("abcdé"));
}

#[test]
fn splitting_keeps_empty_pieces() {
    let split = |text: &str| {
        split_chars(&chars(text), ',').iter().map(string_of).collect::<Vec<_>>()
    };
    assert_eq!(split(""), vec![""]);
    assert_eq!(split("a"), vec!["a"]);
    assert_eq!(split(","), vec!["", ""]);
    assert_eq!(split("a,b"), vec!["a", "b"]);
    assert_eq!(split(",a,,b,"), vec!["", "a", "", "b", ""]);
    assert_eq!(split("a;b"), vec!["a;b"]);
}

#[test]
fn joining_the_pieces_gives_the_text_back() {
    for text in ["", ".", "1.2.3", "..a..", "no dots"] {
        let pieces = split_chars(&chars(text), '.');
        let joined = pieces.iter().map(string_of).collect::<Vec<_>>().join(".");
        assert_eq!(joined, text);
        assert!(pieces.iter().all(|p| !p.contains(&'.')));
    }
}

#[test]
fn blanks_are_spaces_tabs_and_carriage_returns() {
    assert_eq!(without_blanks(&chars(" a \t b\r\n c\u{a0}")), chars("ab\nc\u{a0}"));
    assert_eq!(without_blanks(&chars("")), chars(""));
    assert_eq!(without_blanks(&chars(" \t\r")), chars(""));
}

#[test]
fn numbers_are_decimal() {
    assert_eq!(parse_number(&chars("0")), Some(0));
    assert_eq!(parse_number(&chars("007")), Some(7));
    assert_eq!(parse_number(&chars("1234567890")), Some(1234567890));
    assert_eq!(parse_number(&chars("4294967295")), Some(u32::MAX));
    assert_eq!(parse_number(&chars("4294967296")), None);
    assert_eq!(parse_number(&chars("42949672950")), None);
    assert_eq!(parse_number(&chars("")), None);
    assert_eq!(parse_number(&chars("+1")), None);
    assert_eq!(parse_number(&chars("1_000")), None);
    assert_eq!(parse_number(&chars("٣")), None);
    assert_eq!(parse_number(&chars("１")), None);
    for n in [0u32, 9, 10, 99, 100, 4096, 1_000_000, u32::MAX] {
        let mut out = chars("v");
        push_decimal(n, &mut out);
        assert_eq!(string_of(&out), format!("v{}", n));
        assert_eq!(parse_number(&out[1..].to_vec()), Some(n));
    }
}

#[test]
fn only_the_basic_letters_spell_python() {
    assert!(!is_python("pythön"));
    assert!(!is_python("ｐython"));
    assert!(!is_python("python\n"));
    assert!(is_python("PYTHON"));
}

#[test]
fn other_digits_write_no_version() {
    assert_eq!(Version::from_str("٣.٨"), Err(DescriptorError::Version));
    assert_eq!(Constraint::from_str(">=１.0"), Err(DescriptorError::Constraints));
    assert_eq!(Constraint::from_str("≥1.0"), Err(DescriptorError::Constraints));
}
