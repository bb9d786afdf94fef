use scrap::text::{
    join, join3, join4, equals_ignoring_case, first_filled_line, has, has_char, parse_usize,
    sorts_before, split_once, starts_with, to_lower, trim, write_decimal, write_signed_decimal,
};

#[test]
fn trims_every_kind_of_white_space() {
    assert_eq!(trim(" \t\n connected \r\n"), "connected");
    assert_eq!(trim("\u{a0}\u{3000}x y\u{2028}"), "x y");
    assert_eq!(trim(""), "");
    assert_eq!(trim("  \n"), "");
    assert_eq!(trim("\u{200b}"), "\u{200b}");
}

#[test]
fn lowers_ascii_letters_alone() {
    assert_eq!(to_lower("GEM \u{c4}Z9"), "gem \u{c4}z9");
    assert!(equals_ignoring_case("ConNected", "connected"));
    assert!(!equals_ignoring_case("\u{c4}", "\u{e4}"));
}

#[test]
fn finds_parts() {
    assert!(has("a permission denied b", "permission denied"));
    assert!(!has("permission", "permission denied"));
    assert!(has("x", ""));
    assert!(has_char("card0-DP-1", '-'));
    assert!(!has_char("card0", '-'));
    assert!(starts_with("card0", "card"));
    assert!(!starts_with("xcard", "card"));
    assert_eq!(split_once("card0-DP-1", '-'), Some(("card0", "DP-1")));
    assert_eq!(split_once("card0", '-'), None);
}

#[test]
fn picks_first_filled_line() {
    assert_eq!(first_filled_line("\n  \n 1920x1080 \n640x480\n"), Some("1920x1080".to_string()));
    assert_eq!(first_filled_line("1280x720"), Some("1280x720".to_string()));
    assert_eq!(first_filled_line(" \n\t\n"), None);
    assert_eq!(first_filled_line(""), None);
}

#[test]
fn orders_texts_like_str() {
    let texts = ["", "a", "ab", "card0-DP-1", "card0-HDMI-A-1", "card1-DP-1", "\u{e9}"];
    for a in texts {
        for b in texts {
            assert_eq!(sorts_before(a, b), a < b, "{a} {b}");
        }
    }
}

#[test]
fn reads_numbers_like_usize() {
    for s in ["0", "+7", "0019", "18446744073709551615", "18446744073709551616", "", "+", "-1", "1 ",
        "++1", "12a", "99999999999999999999999"]
    {
        assert_eq!(parse_usize(s), s.parse::<usize>().ok(), "{s}");
    }
}

#[test]
fn written_numbers_read_back() {
    for n in [0usize, 9, 10, 1920, usize::MAX] {
        assert_eq!(write_decimal(n as u64), n.to_string());
        assert_eq!(parse_usize(&write_decimal(n as u64)), Some(n));
    }
    assert_eq!(write_signed_decimal(i64::MIN), i64::MIN.to_string());
    assert_eq!(write_signed_decimal(-2), "-2");
    assert_eq!(write_signed_decimal(2), "2");
}

#[test]
fn joins_texts() {
    assert_eq!(join("a", "b"), "ab");
    assert_eq!(join3("a", "", "c"), "ac");
    assert_eq!(join4("a", "b", "c", "d"), "abcd");
}
