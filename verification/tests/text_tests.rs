use yk::text::{
    before, chars_of, decimal_text, is_space_char, join, parse_index, same_text, split_words,
    trim,
};

#[test]
fn white_space_is_what_std_calls_white_space() {
    let mut code: u32 = 0;
    while code <= 0x10FFFF {
        if let Some(c) = char::from_u32(code) {
            assert_eq!(is_space_char(c), c.is_whitespace(), "U+{:04X}", code);
        }
        code += 1;
    }
}

#[test]
fn chars_of_keeps_every_character() {
    assert_eq!(chars_of("a\u{1F343}b"), vec!['a', '\u{1F343}', 'b']);
    assert_eq!(chars_of(""), Vec::<char>::new());
}

#[test]
fn same_text_compares_characters() {
    assert!(same_text("labels", "labels"));
    assert!(!same_text("labels", "label"));
    assert!(!same_text("labels", "labelz"));
    assert!(same_text("", ""));
}

#[test]
fn trim_removes_both_ends_only() {
    assert_eq!(trim("  a b \t\n"), "a b");
    assert_eq!(trim("a"), "a");
    assert_eq!(trim(""), "");
    assert_eq!(trim(" \u{2003}\u{a0}\r\n"), "");
    assert_eq!(trim("\u{3000}x\u{3000}y\u{3000}"), "x\u{3000}y");
}

#[test]
fn trim_agrees_with_std() {
    for s in ["", " ", "y\n", "  Y  ", "\tno\t", "a  b", "\u{85}k\u{2028}", " \u{1F343} "] {
        assert_eq!(trim(s), s.trim());
    }
}

#[test]
fn split_words_finds_the_maximal_runs() {
    assert_eq!(split_words("echo hi there"), vec!["echo", "hi", "there"]);
    assert_eq!(split_words("  echo   hi\tthere\n"), vec!["echo", "hi", "there"]);
    assert_eq!(split_words(""), Vec::<String>::new());
    assert_eq!(split_words(" \t "), Vec::<String>::new());
    assert_eq!(split_words("one"), vec!["one"]);
}

#[test]
fn split_words_agrees_with_std() {
    for s in ["", "a", " a", "a ", "a b", "  a\u{a0}b\u{3000}c  ", "git status -s", "\n\n"] {
        let expected: Vec<String> = s.split_whitespace().map(|w| w.to_string()).collect();
        assert_eq!(split_words(s), expected);
    }
}

#[test]
fn join_puts_the_separator_between() {
    let parts = vec!["git".to_string(), "status".to_string(), "-s".to_string()];
    assert_eq!(join(&parts, " "), "git status -s");
    assert_eq!(join(&parts, ", "), "git, status, -s");
    assert_eq!(join(&vec!["one".to_string()], " "), "one");
    assert_eq!(join(&Vec::new(), " "), "");
    assert_eq!(join(&vec![String::new(), String::new()], "-"), "-");
}

#[test]
fn before_stops_at_the_first_occurrence() {
    assert_eq!(before("3: git", ":"), "3");
    assert_eq!(before("a::b", "::"), "a");
    assert_eq!(before("a::b::c", "::"), "a");
    assert_eq!(before("no colon", ":"), "no colon");
    assert_eq!(before(":x", ":"), "");
    assert_eq!(before("", ":"), "");
    assert_eq!(before("aab", "ab"), "a");
}

#[test]
fn decimal_text_writes_numbers() {
    assert_eq!(decimal_text(0), "0");
    assert_eq!(decimal_text(7), "7");
    assert_eq!(decimal_text(10), "10");
    assert_eq!(decimal_text(1234567890), "1234567890");
    assert_eq!(decimal_text(usize::MAX), usize::MAX.to_string());
}

#[test]
fn parse_index_reads_numbers() {
    assert_eq!(parse_index("0"), Some(0));
    assert_eq!(parse_index("42"), Some(42));
    assert_eq!(parse_index("+42"), Some(42));
    assert_eq!(parse_index("007"), Some(7));
    assert_eq!(parse_index(&usize::MAX.to_string()), Some(usize::MAX));
}

#[test]
fn parse_index_refuses_what_is_no_number() {
    assert_eq!(parse_index(""), None);
    assert_eq!(parse_index("+"), None);
    assert_eq!(parse_index("-1"), None);
    assert_eq!(parse_index("++1"), None);
    assert_eq!(parse_index("1+"), None);
    assert_eq!(parse_index(" 1"), None);
    assert_eq!(parse_index("1 "), None);
    assert_eq!(parse_index("12a"), None);
    assert_eq!(parse_index("\u{0661}"), None);
}

#[test]
fn parse_index_refuses_what_does_not_fit() {
    let mut too_large = usize::MAX.to_string();
    too_large.push('0');
    assert_eq!(parse_index(&too_large), None);
    assert_eq!(parse_index("99999999999999999999999999999999999999999"), None);
    let digits = usize::MAX.to_string();
    let last = digits.chars().last().unwrap().to_digit(10).unwrap();
    if last < 9 {
        let mut next = digits[..digits.len() - 1].to_string();
        next.push(char::from_digit(last + 1, 10).unwrap());
        assert_eq!(parse_index(&next), None);
    }
}

#[test]
fn parse_index_agrees_with_std() {
    for s in ["", "+", "-", "0", "+0", "-0", "1", "+1", "0001", "18446744073709551615",
        "18446744073709551616", "4294967295", "4294967296", "1_000", "0x10", "1e3", "٣"]
    {
        assert_eq!(parse_index(s), s.parse::<usize>().ok(), "{:?}", s);
    }
}

#[test]
fn numbers_are_read_back_from_their_digits() {
    for n in [0usize, 1, 9, 10, 99, 100, 65535, 65536, usize::MAX - 1, usize::MAX] {
        assert_eq!(parse_index(&decimal_text(n)), Some(n));
    }
}
