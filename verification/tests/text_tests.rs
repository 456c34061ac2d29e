use anx_core::text::{
    char_is_space, chars_of, parse_number, split_at_pattern, split_whitespace, string_of,
    text_starts_with, trimmed,
};

fn chars(s: &str) -> Vec<char> {
    s.chars().collect()
}

fn strings(rows: Vec<Vec<char>>) -> Vec<String> {
    rows.iter().map(|r| r.iter().collect()).collect()
}

#[test]
fn white_space_is_what_the_standard_library_says() {
    let mut code: u32 = 0;
    let mut seen = 0;
    while code <= 0x10ffff {
        if let Some(c) = char::from_u32(code) {
            assert_eq!(char_is_space(c), c.is_whitespace(), "U+{:04X}", code);
            seen += 1;
        }
        code += 1;
    }
    assert_eq!(seen, 0x110000 - 0x800);
}

#[test]
fn white_space_examples() {
    for c in [' ', '\t', '\n', '\u{b}', '\u{c}', '\r', '\u{85}', '\u{a0}', '\u{1680}'] {
        assert!(char_is_space(c));
    }
    for c in ['\u{2000}', '\u{200a}', '\u{2028}', '\u{2029}', '\u{202f}', '\u{205f}', '\u{3000}'] {
        assert!(char_is_space(c));
    }
    for c in ['a', '0', '\u{8}', '\u{e}', '\u{1f}', '!', '\u{84}', '\u{86}', '\u{200b}', '\u{180e}']
    {
        assert!(!char_is_space(c));
    }
    assert!(!char_is_space('\u{1fff}'));
    assert!(!char_is_space('\u{feff}'));
    assert!(!char_is_space('\u{8d8a}'));
}

#[test]
fn prefix_test_agrees_with_the_standard_library() {
    let texts = ["", "a", "ab", "text/html", "text/", "tex", "\u{e9}t\u{e9}", "\u{e9}", "e"];
    for s in texts {
        for p in texts {
            assert_eq!(text_starts_with(s, p), s.starts_with(p), "{:?} {:?}", s, p);
        }
    }
}

#[test]
fn trimming_agrees_with_the_standard_library() {
    let texts = [
        "",
        " ",
        "a",
        "  a b  ",
        "\t\r\n x \u{a0}\u{3000}",
        "\u{2003}word\u{2003}",
        "no-space",
        " \u{200b} ",
    ];
    for s in texts {
        assert_eq!(string_of(&trimmed(&chars(s))), s.trim(), "{:?}", s);
    }
}

#[test]
fn word_splitting_agrees_with_the_standard_library() {
    let texts = ["", "   ", "a", " a  b\tc\n", "GET /index.html HTTP/1.1", "x\u{a0}y\u{3000}z", "a;b"];
    for s in texts {
        let want: Vec<String> = s.split_whitespace().map(|w| w.to_string()).collect();
        assert_eq!(strings(split_whitespace(&chars(s))), want, "{:?}", s);
    }
}

#[test]
fn pattern_splitting_agrees_with_the_standard_library() {
    let texts = ["", "a", "a\r\nb", "\r\n", "a\r\n\r\nb\r\n", "\r\r\n\n", "no line end"];
    for s in texts {
        let want: Vec<String> = s.split("\r\n").map(|w| w.to_string()).collect();
        assert_eq!(strings(split_at_pattern(&chars(s), &chars("\r\n"))), want, "{:?}", s);
    }
    let want: Vec<String> = "aXXbXXXc".split("XX").map(|w| w.to_string()).collect();
    assert_eq!(strings(split_at_pattern(&chars("aXXbXXXc"), &chars("XX"))), want);
}

#[test]
fn number_parsing_agrees_with_the_standard_library() {
    let texts = [
        "", "+", "-", "0", "00", "+0", "-0", "1", "+1", "-1", "007", "65535", "65536", "1a", "a1",
        " 1", "1 ", "++1", "18446744073709551615", "18446744073709551616", "99999999999999999999",
        "\u{0661}",
    ];
    for s in texts {
        assert_eq!(parse_number(&chars(s), u64::MAX), s.parse::<u64>().ok(), "{:?}", s);
        assert_eq!(
            parse_number(&chars(s), 65535),
            s.parse::<u16>().ok().map(|n| n as u64),
            "{:?}",
            s
        );
    }
}

#[test]
fn characters_and_strings_convert_both_ways() {
    for s in ["", "abc", "\u{e9}\u{4e2d}\u{1f600}"] {
        assert_eq!(chars_of(s), chars(s));
        assert_eq!(string_of(&chars(s)), s);
    }
}
