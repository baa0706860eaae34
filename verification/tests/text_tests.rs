use deck_toolbox::text::{
    chars_of, join_strings, parse_u64, split_lines, split_words, str_starts_with, trim_str,
    usize_to_decimal,
};

fn words_of(s: &str) -> Vec<String> {
    split_words(&chars_of(s)).into_iter().map(|w| w.into_iter().collect()).collect()
}

fn lines_of(s: &str) -> Vec<String> {
    split_lines(&chars_of(s)).into_iter().map(|w| w.into_iter().collect()).collect()
}

#[test]
fn trim_matches_std() {
    for s in ["", "  a b  ", "\t\nx\r\n", "\u{a0}y\u{2003}", "no-space", "   "] {
        assert_eq!(trim_str(s), s.trim());
    }
}

#[test]
fn words_match_split_whitespace() {
    for s in ["", "a", "  /home   123  45 ", "x\ty\nz", "\u{3000}wide\u{3000}space"] {
        let expected: Vec<String> = s.split_whitespace().map(|w| w.to_string()).collect();
        assert_eq!(words_of(s), expected);
    }
}

#[test]
fn lines_match_std_lines() {
    for s in ["", "a", "a\n", "a\nb", "a\r\nb\r\n", "a\rb", "\n\n", "x\r", "one\ntwo\r\n\nthree"] {
        let expected: Vec<String> = s.lines().map(|l| l.to_string()).collect();
        assert_eq!(lines_of(s), expected, "input {:?}", s);
    }
}

#[test]
fn parse_u64_matches_std() {
    for s in [
        "", "0", "42", "+7", "+", "-1", "12a", "18446744073709551615", "18446744073709551616",
        "000123", " 1", "99999999999999999999",
    ] {
        assert_eq!(parse_u64(&chars_of(s)), s.parse::<u64>().ok(), "input {:?}", s);
    }
}

#[test]
fn starts_with_prefix() {
    assert!(str_starts_with("Steam_backup_2024", "Steam_backup"));
    assert!(str_starts_with("Steam_backup", "Steam_backup"));
    assert!(!str_starts_with("Steam_back", "Steam_backup"));
    assert!(!str_starts_with("steam_backup", "Steam_backup"));
}

#[test]
fn decimal_and_join() {
    assert_eq!(usize_to_decimal(0), "0");
    assert_eq!(usize_to_decimal(7), "7");
    assert_eq!(usize_to_decimal(1234567), "1234567");
    assert_eq!(usize_to_decimal(usize::MAX), usize::MAX.to_string());
    let parts = vec!["a".to_string(), "b".to_string(), "c".to_string()];
    assert_eq!(join_strings(&parts, ", "), "a, b, c");
    assert_eq!(join_strings(&vec![], "-"), "");
}
