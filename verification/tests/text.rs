use agent_browser_daemon::scan::{
    contains_text, lines, replace_all, second_word_of, split_at_first, starts_like,
};
use agent_browser_daemon::text::{
    decimal_text, is_white_space, parse_decimal, same_text, starts_with, trim,
};

const SAMPLES: [&str; 16] = [
    "",
    " ",
    "a",
    " a ",
    "\t\r\na b\u{a0}\u{2028}",
    "\u{3000}x\u{3000}y\u{3000}",
    "GET / HTTP/1.1\r\nHost: x\r\n\r\nbody",
    "\n\n",
    "\r\n\r",
    "one\ntwo\r\nthree\r",
    "a: b: c",
    "::",
    "ababab",
    "aaa",
    "\u{10ffff}é\u{85}",
    "/redirect/x?y?z",
];

#[test]
fn white_space_is_that_of_char() {
    for c in '\0'..=char::MAX {
        assert_eq!(is_white_space(c), c.is_whitespace(), "{:?}", c);
    }
}

#[test]
fn trimming_is_that_of_str() {
    for s in SAMPLES {
        assert_eq!(trim(s), s.trim(), "{s:?}");
    }
}

#[test]
fn numbers_are_read_like_str_parse() {
    for s in [
        "0", "7", "+7", "-7", "007", "+", "", " 7", "7 ", "1_0", "0x1", "٣", "65535", "65536",
        "18446744073709551615", "18446744073709551616", "99999999999999999999999",
    ] {
        assert_eq!(parse_decimal(s, u64::MAX), s.parse::<u64>().ok(), "{s:?}");
        assert_eq!(
            parse_decimal(s, u16::MAX as u64),
            s.parse::<u16>().ok().map(u64::from),
            "{s:?}"
        );
    }
}

#[test]
fn numbers_are_written_like_to_string() {
    for n in [0, 7, 10, 99, 100, 65535, u64::MAX as u128, u128::MAX] {
        assert_eq!(decimal_text(n), n.to_string());
    }
    // What was written is read back.
    for n in [0, 10, 12345678901234567890] {
        assert_eq!(parse_decimal(&decimal_text(n as u128), u64::MAX), Some(n));
    }
}

#[test]
fn searching_is_that_of_str() {
    for s in SAMPLES {
        for p in ["", "a", "ab", "aba", ": ", "\r\n", "?", "zz", "\u{85}"] {
            assert_eq!(contains_text(s, p), s.contains(p), "{s:?} {p:?}");
            assert_eq!(starts_with(s, p), s.starts_with(p), "{s:?} {p:?}");
            assert_eq!(split_at_first(s, p), s.split_once(p), "{s:?} {p:?}");
            assert_eq!(same_text(s, p), s == p);
            if !p.is_empty() {
                assert_eq!(replace_all(s, p, "<>"), s.replace(p, "<>"), "{s:?} {p:?}");
            }
        }
        assert_eq!(lines(s), s.lines().collect::<Vec<_>>(), "{s:?}");
        assert_eq!(second_word_of(s), s.split_whitespace().nth(1), "{s:?}");
    }
    assert_eq!(replace_all("aaa", "aa", "b"), "ba");
}

#[test]
fn prefixes_may_be_in_either_case() {
    for s in ["Cookie: a", "COOKIE:", "cookie", "coOkie:x", "Kookie:", "cookie\u{212a}:"] {
        assert_eq!(
            starts_like(s, "cookie:"),
            s.to_ascii_lowercase().starts_with("cookie:"),
            "{s:?}"
        );
    }
}
