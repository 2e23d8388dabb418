use plantita_ayudante::text::{contains, parse_i64, parse_id, parse_u64, replace_str, str_eq, trim_chars, trim_matches, trim_start_matches, u64_to_string, chars_of, string_of};

#[test]
fn parse_u64_accepts_what_std_accepts() {
    for s in ["0", "7", "+42", "0012", "18446744073709551615", "", "+", "-1", "1a", " 1", "18446744073709551616", "1.0"] {
        assert_eq!(parse_u64(s), s.parse::<u64>().ok(), "input {s:?}");
    }
}

#[test]
fn parse_i64_accepts_what_std_accepts() {
    for s in [
        "0", "-0", "+0", "60", "-60", "+604800", "9223372036854775807", "9223372036854775808",
        "-9223372036854775808", "-9223372036854775809", "", "-", "+", "-+1", "+-1", "--1", "1 ", "3600s",
        "18446744073709551616",
    ] {
        assert_eq!(parse_i64(s), s.parse::<i64>().ok(), "input {s:?}");
    }
    assert_eq!(parse_i64("-300"), Some(-300));
}

#[test]
fn parse_id_rejects_zero() {
    assert_eq!(parse_id("0"), None);
    assert_eq!(parse_id("000"), None);
    assert_eq!(parse_id("1020156814152712222"), Some(1_020_156_814_152_712_222));
    assert_eq!(parse_id("<@&1>"), None);
}

#[test]
fn decimal_round_trip() {
    for n in [0u64, 1, 9, 10, 99, 100, 1_014_327_651_772_674_168, u64::MAX] {
        let s = u64_to_string(n);
        assert_eq!(s, n.to_string());
        assert_eq!(parse_u64(&s), Some(n));
    }
}

#[test]
fn contains_matches_std() {
    for (h, n) in [("hola @everyone", "@everyone"), ("abc", ""), ("", "a"), ("aaab", "aab"), ("ñandú", "dú")] {
        assert_eq!(contains(h, n), h.contains(n));
    }
}

#[test]
fn replace_matches_std() {
    for (s, p, t) in [("aaaa", "aa", "b"), ("https://twitter.com/x", "twitter.com", "vxtwitter.com"), ("sin nada", "zz", "y"), ("<@1> y <@1>", "<@1>", "@Ana")] {
        assert_eq!(replace_str(s, p, t), s.replace(p, t));
    }
}

#[test]
fn trims_match_std() {
    for s in ["  hola \n", "\u{3000}x\u{a0}", "", "   ", "a b"] {
        assert_eq!(string_of(&trim_chars(&chars_of(s))), s.trim());
    }
    assert_eq!(trim_start_matches("@@user@", '@'), "@@user@".trim_start_matches('@'));
    assert_eq!(trim_matches("@@user@", '@'), "@@user@".trim_matches('@'));
}

#[test]
fn str_eq_compares_text() {
    assert!(str_eq("ooc", "ooc"));
    assert!(!str_eq("ooc", "OOC"));
}
