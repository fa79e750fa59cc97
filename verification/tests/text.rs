use smugdancer::text::{
    chars_of, contains, decimal, hex, join_path, parse_usize, replace, strip_suffix, text_of, trim,
};

#[test]
fn chars_and_text_are_inverse() {
    assert_eq!(chars_of("a\u{e9}z"), vec!['a', '\u{e9}', 'z']);
    assert_eq!(chars_of(""), Vec::<char>::new());
    assert_eq!(text_of(&vec!['h', 'i']), "hi");
    assert_eq!(text_of(&chars_of("{frame_indices}")), "{frame_indices}");
}

#[test]
fn decimal_writes_numbers() {
    assert_eq!(decimal(0), "0");
    assert_eq!(decimal(7), "7");
    assert_eq!(decimal(10), "10");
    assert_eq!(decimal(720), "720");
    assert_eq!(decimal(1234567890), "1234567890");
    assert_eq!(decimal(usize::MAX), usize::MAX.to_string());
}

#[test]
fn hex_writes_lower_case_without_padding() {
    assert_eq!(hex(0), "0");
    assert_eq!(hex(15), "f");
    assert_eq!(hex(16), "10");
    assert_eq!(hex(0xdead_beef), "deadbeef");
    assert_eq!(hex(u64::MAX), "ffffffffffffffff");
    assert_eq!(hex(0x3ff0_0000_0000_0000), format!("{:x}", 1.0f64.to_bits()));
}

#[test]
fn contains_finds_tokens() {
    assert!(contains("--frame={frame_indices}", "{frame_indices}"));
    assert!(contains("{fps}", "{fps}"));
    assert!(contains("abc", ""));
    assert!(contains("", ""));
    assert!(!contains("", "a"));
    assert!(!contains("{fp}", "{fps}"));
    assert!(!contains("ab", "abc"));
    assert!(contains("xxab", "ab"));
    assert!(contains("aab", "ab"));
}

#[test]
fn replace_fills_every_token() {
    assert_eq!(replace("frames/{frame_indices}.png", "{frame_indices}", "12"), "frames/12.png");
    assert_eq!(replace("{x}{x}", "{x}", "ab"), "abab");
    assert_eq!(replace("aaa", "aa", "b"), "ba");
    assert_eq!(replace("abc", "x", "y"), "abc");
    assert_eq!(replace("", "x", "y"), "");
    assert_eq!(replace("abc", "", "y"), "abc");
    assert_eq!(replace("abc", "abc", ""), "");
    assert_eq!(
        replace("a{frame_indices}b{frame_indices}", "{frame_indices}", "7"),
        "a{frame_indices}b{frame_indices}".replace("{frame_indices}", "7")
    );
}

#[test]
fn strip_suffix_takes_one_suffix_off() {
    assert_eq!(strip_suffix("120.gif", ".gif"), "120");
    assert_eq!(strip_suffix("120", ".gif"), "120");
    assert_eq!(strip_suffix("120.gif.gif", ".gif"), "120.gif");
    assert_eq!(strip_suffix(".gif", ".gif"), "");
    assert_eq!(strip_suffix("gif", ".gif"), "gif");
    assert_eq!(strip_suffix("", ".gif"), "");
}

#[test]
fn trim_removes_white_space_at_both_ends() {
    assert_eq!(trim("  720\n"), "720");
    assert_eq!(trim("\t7 2\r\n"), "7 2");
    assert_eq!(trim(""), "");
    assert_eq!(trim(" \n\t"), "");
    assert_eq!(trim("\u{a0}\u{2003}x\u{3000}\u{85}"), "x");
    assert_eq!(trim("x"), "x");
    assert_eq!(trim("\u{200b}x"), "\u{200b}x");
}

#[test]
fn parse_usize_reads_decimal_numbers() {
    assert_eq!(parse_usize("720"), Some(720));
    assert_eq!(parse_usize("+720"), Some(720));
    assert_eq!(parse_usize("007"), Some(7));
    assert_eq!(parse_usize("0"), Some(0));
    assert_eq!(parse_usize(&usize::MAX.to_string()), Some(usize::MAX));
}

#[test]
fn parse_usize_refuses_everything_else() {
    assert_eq!(parse_usize(""), None);
    assert_eq!(parse_usize("+"), None);
    assert_eq!(parse_usize("-1"), None);
    assert_eq!(parse_usize("++1"), None);
    assert_eq!(parse_usize("12a"), None);
    assert_eq!(parse_usize(" 12"), None);
    assert_eq!(parse_usize("1.5"), None);
    assert_eq!(parse_usize("18446744073709551616"), None);
    assert_eq!(parse_usize("99999999999999999999999"), None);
    assert_eq!(parse_usize("\u{663}"), None);
}

#[test]
fn parse_usize_agrees_with_the_standard_library() {
    for text in ["0", "+5", "-5", "", "+", "12x", "000123", "18446744073709551615"] {
        assert_eq!(parse_usize(text), text.parse::<usize>().ok(), "{:?}", text);
    }
}

#[test]
fn join_path_puts_a_separator_where_one_is_needed() {
    assert_eq!(join_path("cache", "gif"), "cache/gif");
    assert_eq!(join_path("cache/", "gif"), "cache/gif");
    assert_eq!(join_path("", "gif"), "gif");
    assert_eq!(join_path("/", "gif"), "/gif");
    assert_eq!(join_path("/var/cache", "cache.db"), "/var/cache/cache.db");
}
