use pista_feeds::scan::{chars_of, is_whitespace, parse_number, word_bounds};

fn number(text: &str) -> Option<u64> {
    parse_number(text)
}

fn words(text: &str, limit: usize) -> Vec<String> {
    let chars = chars_of(text);
    let mut found: Vec<String> = Vec::new();
    for (from, to) in word_bounds(&chars, limit) {
        found.push(chars[from..to].iter().collect());
    }
    found
}

#[test]
fn whitespace_is_what_unicode_says() {
    let mut code: u32 = 0;
    while code <= 0x10FFFF {
        if let Some(c) = char::from_u32(code) {
            assert_eq!(is_whitespace(c), c.is_whitespace(), "U+{:04X}", code);
        }
        code += 1;
    }
}

#[test]
fn whitespace_examples() {
    assert!(is_whitespace(' '));
    assert!(is_whitespace('\t'));
    assert!(is_whitespace('\n'));
    assert!(is_whitespace('\r'));
    assert!(is_whitespace('\u{A0}'));
    assert!(is_whitespace('\u{3000}'));
    assert!(!is_whitespace('a'));
    assert!(!is_whitespace(':'));
    assert!(!is_whitespace('\u{200B}'));
    assert!(!is_whitespace('\0'));
}

#[test]
fn chars_of_gives_every_character() {
    assert_eq!(chars_of(""), Vec::<char>::new());
    assert_eq!(chars_of("a b"), vec!['a', ' ', 'b']);
    assert_eq!(chars_of("é日🎵"), vec!['é', '日', '🎵']);
}

#[test]
fn words_lie_between_white_space() {
    let chars = chars_of("  ab\tcd ");
    assert_eq!(word_bounds(&chars, 5), vec![(2, 4), (5, 7)]);
    assert_eq!(words("MemTotal:       16384256 kB", 3), vec!["MemTotal:", "16384256", "kB"]);
    assert_eq!(words("one", 3), vec!["one"]);
    assert_eq!(words("\u{A0}é\u{3000}日本\n", 3), vec!["é", "日本"]);
}

#[test]
fn a_line_without_words() {
    assert_eq!(words("", 3), Vec::<String>::new());
    assert_eq!(words(" \t \r\n", 3), Vec::<String>::new());
    assert_eq!(word_bounds(&chars_of("   "), 1), Vec::<(usize, usize)>::new());
}

#[test]
fn no_more_words_than_asked_for() {
    assert_eq!(words("a b c d e", 0), Vec::<String>::new());
    assert_eq!(words("a b c d e", 1), vec!["a"]);
    assert_eq!(words("a b c d e", 3), vec!["a", "b", "c"]);
    assert_eq!(words("a b c d e", 5), vec!["a", "b", "c", "d", "e"]);
    assert_eq!(words("a b c d e", 9), vec!["a", "b", "c", "d", "e"]);
}

#[test]
fn words_agree_with_the_standard_splitter() {
    for text in [
        "", " ", "a", " a", "a ", " a ", "a b", "a  b", "\ta\tb\t", "MemFree:   42 kB",
        "x\u{85}y\u{1680}z", "a\u{200B}b c", "tab\tnew\nline\rfeed\u{C}end", "é \u{2028} ü",
        "   lead and trail   ", "one,two three;four",
    ] {
        let expected: Vec<String> = text.split_whitespace().map(String::from).collect();
        assert_eq!(words(text, 100), expected, "{:?}", text);
        let first: Vec<String> = text.split_whitespace().take(2).map(String::from).collect();
        assert_eq!(words(text, 2), first, "{:?}", text);
    }
}

#[test]
fn numbers_are_read() {
    assert_eq!(number("0"), Some(0));
    assert_eq!(number("7"), Some(7));
    assert_eq!(number("16384256"), Some(16384256));
    assert_eq!(number("007"), Some(7));
    assert_eq!(number("18446744073709551615"), Some(u64::MAX));
    assert_eq!(number("00000000000000000000000000018446744073709551615"), Some(u64::MAX));
}

#[test]
fn a_plus_sign_may_lead() {
    assert_eq!(number("+5"), Some(5));
    assert_eq!(number("+0"), Some(0));
    assert_eq!(number("+"), None);
    assert_eq!(number("++5"), None);
    assert_eq!(number("5+"), None);
}

#[test]
fn what_is_no_number() {
    assert_eq!(number(""), None);
    assert_eq!(number("-5"), None);
    assert_eq!(number("-0"), None);
    assert_eq!(number("5kB"), None);
    assert_eq!(number("kB"), None);
    assert_eq!(number("1.5"), None);
    assert_eq!(number("1_000"), None);
    assert_eq!(number("0x10"), None);
    assert_eq!(number(" 5"), None);
    assert_eq!(number("٣"), None);
    assert_eq!(number("５"), None);
}

#[test]
fn numbers_too_large_are_none() {
    assert_eq!(number("18446744073709551616"), None);
    assert_eq!(number("18446744073709551620"), None);
    assert_eq!(number("99999999999999999999"), None);
    assert_eq!(number("184467440737095516150"), None);
    assert_eq!(number("18446744073709551616x"), None);
}

#[test]
fn numbers_agree_with_the_standard_parser() {
    for text in [
        "", "0", "1", "+1", "-1", "+", "-", "12a", "a12", "0012", "4294967296",
        "18446744073709551615", "18446744073709551616", "+18446744073709551615", "1 ", " 1",
        "1e3", "٣", "+ 1", "+-1",
    ] {
        assert_eq!(number(text), text.parse::<u64>().ok(), "{:?}", text);
    }
    let mut n: u64 = 1;
    while n < u64::MAX / 7 {
        assert_eq!(number(&format!("{}", n)), Some(n));
        n = n * 7 + 3;
    }
}
