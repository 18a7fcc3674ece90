use jinxcore::text::{
    char_is_whitespace, chars_of, decimal_string, parse_u32, replace, string_of, trim_string,
};

#[test]
fn decimal_string_matches_std() {
    for n in [0u64, 1, 9, 10, 11, 99, 100, 12345, 1_000_000, u64::MAX - 1, u64::MAX] {
        assert_eq!(decimal_string(n), n.to_string());
    }
}

#[test]
fn decimal_string_exact_values() {
    assert_eq!(decimal_string(0), "0");
    assert_eq!(decimal_string(907), "907");
    assert_eq!(decimal_string(18446744073709551615), "18446744073709551615");
}

#[test]
fn replace_single_and_repeated() {
    assert_eq!(replace("a %x% b %x%", "%x%", "12"), "a 12 b 12");
    assert_eq!(replace("nothing here", "%x%", "12"), "nothing here");
    assert_eq!(replace("", "%x%", "12"), "");
}

#[test]
fn replace_takes_leftmost_without_overlap() {
    assert_eq!(replace("aaa", "aa", "b"), "ba");
    assert_eq!(replace("aaaa", "aa", "b"), "bb");
    assert_eq!(replace("abab", "aba", "x"), "xb");
}

#[test]
fn replace_does_not_rescan_what_it_put_in() {
    assert_eq!(replace("ab", "a", "aa"), "aab");
    assert_eq!(replace("x", "x", "xx"), "xx");
}

#[test]
fn replace_with_empty_pattern_matches_std() {
    assert_eq!(replace("abc", "", "-"), "-a-b-c-");
    assert_eq!(replace("", "", "-"), "-");
    assert_eq!(replace("abc", "", "-"), "abc".replace("", "-"));
}

#[test]
fn replace_matches_std_on_samples() {
    let texts = ["", "a", "%online%", "x%online%y%online%", "%%online%%", "%onl%online%ine%", "héllo wörld héllo"];
    let patterns = ["%online%", "a", "%", "héllo", "%%", "lo"];
    let fills = ["", "3", "%online%", "ü"];
    for t in texts {
        for p in patterns {
            for f in fills {
                assert_eq!(replace(t, p, f), t.replace(p, f));
            }
        }
    }
}

#[test]
fn whitespace_matches_std_for_every_char() {
    let mut code: u32 = 0;
    while code <= 0x10FFFF {
        if let Some(c) = char::from_u32(code) {
            assert_eq!(char_is_whitespace(c), c.is_whitespace());
        }
        code += 1;
    }
}

#[test]
fn trim_string_matches_std() {
    for s in ["", " ", "  a  ", "\t\na b\r\n", "a", "\u{3000}x\u{a0}", " \u{85} "] {
        assert_eq!(trim_string(s), s.trim());
    }
}

#[test]
fn parse_u32_reads_numbers() {
    assert_eq!(parse_u32("0"), Some(0));
    assert_eq!(parse_u32("7"), Some(7));
    assert_eq!(parse_u32("+7"), Some(7));
    assert_eq!(parse_u32("007"), Some(7));
    assert_eq!(parse_u32("4294967295"), Some(u32::MAX));
}

#[test]
fn parse_u32_refuses_what_is_no_number() {
    assert_eq!(parse_u32(""), None);
    assert_eq!(parse_u32("+"), None);
    assert_eq!(parse_u32("-1"), None);
    assert_eq!(parse_u32("1a"), None);
    assert_eq!(parse_u32(" 1"), None);
    assert_eq!(parse_u32("4294967296"), None);
    assert_eq!(parse_u32("99999999999999999999999"), None);
    assert_eq!(parse_u32("++1"), None);
}

#[test]
fn parse_u32_matches_std_on_samples() {
    for s in ["", "+", "0", "+0", "12", "012", "4294967295", "4294967296", "1.5", "١٢", "1 ", "-0", "+-1"] {
        assert_eq!(parse_u32(s), s.parse::<u32>().ok());
    }
}

#[test]
fn chars_round_trip() {
    let chars = chars_of("héllo");
    assert_eq!(chars, vec!['h', 'é', 'l', 'l', 'o']);
    assert_eq!(string_of(&chars, 1, 4), "éll");
    assert_eq!(string_of(&chars, 2, 2), "");
}
