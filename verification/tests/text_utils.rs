use logarithm::text::{
    contains_char, contains_sub, find_char_from, from_chars, fuzzy_chars, is_whitespace, join_chars,
    lower_chars, push_decimal, replace_chars, split_at_char, split_lines, split_words,
    starts_with_chars, str_eq, strip_by_flags, strip_nonalnum_chars, to_chars, trim_chars,
    upper_chars,
};

fn c(s: &str) -> Vec<char> {
    s.chars().collect()
}

fn strings(v: &[Vec<char>]) -> Vec<String> {
    v.iter().map(|w| w.iter().collect()).collect()
}

#[test]
fn whitespace_agrees_with_std() {
    for u in 0u32..=0x3100 {
        if let Some(ch) = char::from_u32(u) {
            assert_eq!(is_whitespace(ch), ch.is_whitespace(), "{:?}", ch);
        }
    }
    assert!(!is_whitespace('\u{FEFF}'));
}

#[test]
fn trim_agrees_with_std() {
    for s in ["  a b  ", "\u{3000}x\u{a0}", "", "   ", "\tx\r\n", "ab"] {
        assert_eq!(from_chars(&trim_chars(&c(s))), s.trim());
    }
}

#[test]
fn words_agree_with_split_whitespace() {
    for s in ["a  b\tc", "  lead trail  ", "", "one", "x\u{2003}y"] {
        let expected: Vec<String> = s.split_whitespace().map(|w| w.to_string()).collect();
        assert_eq!(strings(&split_words(&c(s))), expected);
    }
}

#[test]
fn lines_agree_with_std() {
    for s in ["foo\r\nbar\n\nbaz\r", "a\nb\n", "", "\n", "x\r\ny", "single", "a\rb"] {
        let expected: Vec<String> = s.lines().map(|l| l.to_string()).collect();
        assert_eq!(strings(&split_lines(&c(s))), expected, "{:?}", s);
    }
}

#[test]
fn join_and_split() {
    let ws = vec![c("a"), c("b"), c("")];
    assert_eq!(from_chars(&join_chars(&ws, &c(", "))), "a, b, ");
    assert_eq!(from_chars(&join_chars(&vec![], &c("-"))), "");
    assert_eq!(strings(&split_at_char(&c("A,,B"), ',')), vec!["A", "", "B"]);
    assert_eq!(strings(&split_at_char(&c(""), ',')), vec![""]);
}

#[test]
fn searching() {
    assert!(contains_sub(&c("hello world"), &c("o w")));
    assert!(!contains_sub(&c("hello"), &c("hello!")));
    assert!(contains_sub(&c("x"), &c("")));
    assert!(fuzzy_chars(&c("hello world"), &c("hwd")));
    assert!(!fuzzy_chars(&c("hello world"), &c("dw")));
    assert!(starts_with_chars(&c("```rust"), &c("```")));
    assert!(!starts_with_chars(&c("``"), &c("```")));
    assert_eq!(find_char_from(&c("a@b@c"), 0, '@'), 1);
    assert_eq!(find_char_from(&c("a@b@c"), 2, '@'), 3);
    assert_eq!(find_char_from(&c("abc"), 0, '@'), 3);
    assert!(contains_char(&c("a:b"), ':'));
    assert!(!contains_char(&c("ab"), ':'));
    assert!(str_eq("abc", "abc"));
    assert!(!str_eq("abc", "abd"));
}

#[test]
fn case_and_replace() {
    assert_eq!(from_chars(&upper_chars(&c("warn é"))), "WARN é");
    assert_eq!(from_chars(&lower_chars(&c("ERROR É"))), "error É");
    assert_eq!(from_chars(&replace_chars(&c("2024-01-01T10:00"), 'T', ' ')), "2024-01-01 10:00");
    assert_eq!(to_chars("día"), vec!['d', 'í', 'a']);
}

#[test]
fn strip_non_alphanumeric_edges() {
    for s in ["[ERROR]", "<<warn>>:", "::", "", "a", "(é)", "x-y"] {
        let expected = s.trim_matches(|ch: char| !ch.is_alphanumeric());
        assert_eq!(from_chars(&strip_nonalnum_chars(&c(s))), expected);
    }
}

#[test]
fn decimals() {
    for n in [0usize, 7, 10, 99, 1234567, usize::MAX] {
        let mut v = c("n=");
        push_decimal(&mut v, n);
        assert_eq!(from_chars(&v), format!("n={}", n));
    }
}

#[test]
fn plain_match_is_fuzzy_match() {
    for (h, q) in [("hello world", "lo wo"), ("abc", ""), ("aaa", "aa"), ("xyz", "xyz")] {
        assert!(contains_sub(&c(h), &c(q)));
        assert!(fuzzy_chars(&c(h), &c(q)));
    }
}

#[test]
fn stripping_by_flags() {
    let s = c("<ab>");
    assert_eq!(from_chars(&strip_by_flags(&s, &vec![false, true, true, false])), "ab");
    assert_eq!(from_chars(&strip_by_flags(&s, &vec![false, false, false, false])), "");
    assert_eq!(from_chars(&strip_by_flags(&s, &vec![true, false, false, true])), "<ab>");
    assert_eq!(from_chars(&strip_by_flags(&vec![], &vec![])), "");
}
