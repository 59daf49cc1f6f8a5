use cce_browser::labels::{fit_text, tab_label};
use cce_browser::numerals::{hex_digit_value, parse_u64, to_decimal, to_hex_small};
use cce_browser::order::comes_first;
use cce_browser::paths::{join_path, state_dir};
use cce_browser::pixels::rgba_from_bgra;
use cce_browser::positions::{cut_at, next_boundary, prev_boundary};
use cce_browser::split::{lines_of, replace, split_nonempty, split_once};
use cce_browser::text::{
    char_ascii_lower, char_is_ctrl, char_is_white, contains, contains_char, ends_with, same,
    same_ignoring_ascii_case, starts_with, strip_prefix, to_ascii_lower, trim, trim_char,
    trim_end_char, trim_start_matches,
};
use cce_browser::weburl::Url;

/// Every character is classified as the standard library does it.
#[test]
fn characters_are_classified_as_usual() {
    for n in 0..=0x10ffff_u32 {
        if let Some(c) = char::from_u32(n) {
            assert_eq!(char_is_white(c), c.is_whitespace(), "{n:x}");
            assert_eq!(char_is_ctrl(c), c.is_control(), "{n:x}");
            assert_eq!(char_ascii_lower(c), c.to_ascii_lowercase(), "{n:x}");
        }
    }
}

#[test]
fn texts_are_trimmed_and_searched() {
    assert_eq!(trim(" \u{2003}a b\n"), "a b");
    assert_eq!(trim("\t\n"), "");
    assert!(contains("hello", "ell"));
    assert!(contains("hello", ""));
    assert!(!contains("hello", "lle"));
    assert!(contains_char("aéb", 'é'));
    assert!(starts_with("https://x", "https://"));
    assert!(!starts_with("http", "https"));
    assert!(ends_with("a.localhost", ".localhost"));
    assert!(!ends_with("localhost", ".localhost"));
    assert_eq!(strip_prefix("open x", "open "), Some("x".to_string()));
    assert_eq!(strip_prefix("ope", "open "), None);
    assert_eq!(trim_start_matches("cce://cce://x", "cce://"), "x");
    assert_eq!(trim_end_char("a//", '/'), "a");
    assert_eq!(trim_char("\"q\"", '"'), "q");
    assert!(same("é", "é"));
    assert!(!same("e", "é"));
    assert!(same_ignoring_ascii_case("About:History", "about:history"));
    assert!(!same_ignoring_ascii_case("É", "é"));
    assert_eq!(to_ascii_lower("ÀBc"), "Àbc");
}

#[test]
fn texts_are_split_as_usual() {
    for s in ["", "a", "a\n", "a\nb", "a\r\nb\r\n", "\n\n", "a\rb\n", "\r\n"] {
        let ours = lines_of(s);
        let usual: Vec<&str> = s.lines().collect();
        assert_eq!(ours, usual, "{s:?}");
    }
    for s in ["", "a\tb", "\t", "a\tb\tc", "none"] {
        let usual = s.split_once('\t').map(|(a, b)| (a.to_string(), b.to_string()));
        assert_eq!(split_once(s, '\t'), usual);
    }
    assert_eq!(split_nonempty(".a..b.", '.'), ["a", "b"]);
    for (s, from, to) in [("aXbX", "X", "--"), ("aaa", "aa", "b"), ("$HOME/x", "$HOME", "/h")] {
        assert_eq!(replace(s, from, to), s.replace(from, to));
    }
}

#[test]
fn numbers_are_written_and_read() {
    for n in [0, 7, 10, 999, 1_000_000, u64::MAX] {
        assert_eq!(to_decimal(n), n.to_string());
        assert_eq!(parse_u64(&to_decimal(n)), Some(n));
    }
    for s in ["", "-1", "+5", "1x", " 1", "18446744073709551616", "007"] {
        assert_eq!(parse_u64(s), s.parse::<u64>().ok(), "{s:?}");
    }
    assert_eq!(hex_digit_value('f'), Some(15));
    assert_eq!(hex_digit_value('A'), Some(10));
    assert_eq!(hex_digit_value('g'), None);
    assert_eq!(to_hex_small(11), 'b');
}

#[test]
fn boundaries_are_found() {
    let s = "aé€😀";
    assert_eq!(next_boundary(s, 1), 3);
    assert_eq!(next_boundary(s, 3), 6);
    assert_eq!(prev_boundary(s, 10), 6);
    assert_eq!(prev_boundary(s, 3), 1);
    assert_eq!(cut_at(s, 3), ("aé".to_string(), "€😀".to_string()));
}

#[test]
fn texts_are_ordered_as_usual() {
    for (a, b) in [("", "a"), ("a", "b"), ("ab", "a"), ("é", "z"), ("Z", "a"), ("x", "x")] {
        assert_eq!(comes_first(a, b), a <= b, "{a:?} {b:?}");
    }
}

#[test]
fn paths_are_joined() {
    assert_eq!(join_path("/a", "b"), "/a/b");
    assert_eq!(join_path("/a/", "b"), "/a/b");
    assert_eq!(state_dir(Some("/s"), Some("/h")), "/s/cce/browser");
    assert_eq!(state_dir(Some(""), Some("/h")), "/h/.local/state/cce/browser");
    assert_eq!(state_dir(None, Some("/h")), "/h/.local/state/cce/browser");
}

#[test]
fn labels_keep_what_fits() {
    let fits = |n: usize| move |s: &str| s.chars().count() <= n;
    assert_eq!(fit_text("short", fits(10)), "short");
    assert_eq!(fit_text("a long title", fits(7)), "a lo...");
    assert_eq!(fit_text("ééééé", fits(4)), "é...");
    assert_eq!(fit_text("title", fits(2)), "");
}

#[test]
fn pills_say_where_they_lead() {
    let u = Url::parse("https://example.com/");
    assert_eq!(tab_label(&Some("Title".to_string()), &u), "Title");
    assert_eq!(tab_label(&None, &u), "https://example.com/");
    assert_eq!(tab_label(&Some(String::new()), &u), "https://example.com/");
    assert_eq!(tab_label(&None, &Url::parse("about:blank")), "New Tab");
    assert_eq!(tab_label(&None, &None), "New Tab");
}

#[test]
fn pixels_change_their_order() {
    // Two pixels wide, two high, with four bytes of padding after each row.
    let src = vec![
        1, 2, 3, 4, 5, 6, 7, 8, 0, 0, 0, 0, //
        9, 10, 11, 12, 13, 14, 15, 16, 0, 0, 0, 0,
    ];
    let out = rgba_from_bgra(&src, 2, 2, 12).unwrap();
    assert_eq!(out, [3, 2, 1, 4, 7, 6, 5, 8, 11, 10, 9, 12, 15, 14, 13, 16]);
    assert!(rgba_from_bgra(&src, 0, 2, 12).is_none());
}
