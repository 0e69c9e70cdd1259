use rtk::number::{decimal_string, integer_string, parse_i32, parse_usize};
use rtk::text::{
    cat, ends_with, has, has_char, joined, line_list, listed, pieces, prefix_stripped, same,
    starts_with, trimmed, trimmed_end, trimmed_start, without_chars, word_list,
};

fn list(words: &[&str]) -> Vec<String> {
    words.iter().map(|w| w.to_string()).collect()
}

#[test]
fn trims_what_std_trims() {
    for s in ["", " ", " a ", "a b\n", "\u{a0}x\u{3000}", "\u{200b}x", "\u{85}\u{2028}é\u{1680}"] {
        assert_eq!(trimmed(s), s.trim());
        assert_eq!(trimmed_start(s), s.trim_start());
        assert_eq!(trimmed_end(s), s.trim_end());
    }
}

#[test]
fn white_space_is_that_of_std() {
    for n in 0u32..0x11_0000 {
        if let Some(c) = char::from_u32(n) {
            assert_eq!(rtk::text::white(c), c.is_whitespace());
        }
    }
}

#[test]
fn lines_are_those_of_std() {
    for s in ["", "\n", "a", "a\n", "a\n\nb", "a\r\nb\r", "a\r\r\n", "\r\n\r\n", "a\rb\n"] {
        let expected: Vec<String> = s.lines().map(|l| l.to_string()).collect();
        assert_eq!(line_list(s), expected);
    }
}

#[test]
fn words_are_those_of_std() {
    for s in ["", " ", "a", " a  b\tc\n", "x\u{a0}y", "\u{3000}z"] {
        let expected: Vec<String> = s.split_whitespace().map(|l| l.to_string()).collect();
        assert_eq!(word_list(s), expected);
    }
}

#[test]
fn pieces_are_those_of_std() {
    for s in ["", ",", "a,b", ",a,,b,", "none"] {
        let expected: Vec<String> = s.split(',').map(|l| l.to_string()).collect();
        assert_eq!(pieces(s, ','), expected);
    }
}

#[test]
fn searches_like_std() {
    for (s, p) in [("", ""), ("abc", ""), ("abc", "bc"), ("abc", "cb"), ("aab", "ab"), ("é✓", "✓")] {
        assert_eq!(has(s, p), s.contains(p));
        assert_eq!(starts_with(s, p), s.starts_with(p));
        assert_eq!(ends_with(s, p), s.ends_with(p));
        assert_eq!(same(s, p), s == p);
    }
    assert!(has_char("a:b", ':'));
    assert!(!has_char("ab", ':'));
}

#[test]
fn joins_like_std() {
    assert_eq!(joined(&list(&[]), ", "), "");
    assert_eq!(joined(&list(&["a"]), ", "), "a");
    assert_eq!(joined(&list(&["a", "", "b"]), ", "), "a, , b");
    assert_eq!(cat("a", "é"), "aé");
}

#[test]
fn looks_up_and_strips() {
    assert!(listed(&list(&["git", "ls"]), "ls"));
    assert!(!listed(&list(&["git", "ls"]), "l"));
    assert_eq!(without_chars("lahtr", "lah"), "tr");
    assert_eq!(prefix_stripped("b/file", "b/"), "file");
    assert_eq!(prefix_stripped("file", "b/"), "file");
}

#[test]
fn reads_unsigned_numbers_like_std() {
    for s in [
        "", "+", "-", "0", "007", "+5", "-5", "12x", "18446744073709551615", "18446744073709551616",
        "99999999999999999999999", "٣",
    ] {
        assert_eq!(parse_usize(s), s.parse::<usize>().ok());
    }
}

#[test]
fn reads_signed_numbers_like_std() {
    for s in [
        "", "+", "-", "0", "-0", "+7", "-12", "2147483647", "2147483648", "-2147483648",
        "-2147483649", "+-1", "1 ",
    ] {
        assert_eq!(parse_i32(s), s.parse::<i32>().ok());
    }
}

#[test]
fn writes_numbers_like_std() {
    for n in [0u64, 9, 10, 1234567890, u64::MAX] {
        assert_eq!(decimal_string(n), n.to_string());
    }
    for n in [0i32, -1, 42, i32::MAX, i32::MIN] {
        assert_eq!(integer_string(n), n.to_string());
    }
}

#[test]
fn written_numbers_read_back() {
    assert_eq!(parse_usize(&decimal_string(40961)), Some(40961));
}

#[test]
fn words_meet_in_white_space() {
    let mut both = word_list(" a b\t");
    both.extend(word_list("c  d"));
    assert_eq!(word_list(" a b\tc  d"), both);
    assert_eq!(word_list(&trimmed(" a b\t")), word_list(" a b\t"));
}
