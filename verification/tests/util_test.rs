use torot_lib::util::fmt::{bold, comma_list, dim, green, pad_right, plural, red, truncate, yellow};
use torot_lib::util::path::{data_dir, expand_tilde, join_paths};
use torot_lib::util::time::{format_duration, format_timestamp};

#[test]
fn truncate_keeps_short_text_and_marks_cuts() {
    assert_eq!(truncate("hello", 10), "hello");
    assert_eq!(truncate("hello", 5), "hello");
    assert_eq!(truncate("hello world", 6), "hello…");
    assert_eq!(truncate("abc", 0), "…");
    assert_eq!(truncate("héllo", 4), "hé…");
    assert_eq!(truncate("héllo", 2), "h…");
}

#[test]
fn pad_right_pads_or_cuts() {
    assert_eq!(pad_right("ab", 5), "ab   ");
    assert_eq!(pad_right("abcdef", 3), "abc");
    assert_eq!(pad_right("abc", 3), "abc");
    assert_eq!(pad_right("", 2), "  ");
}

#[test]
fn plural_and_lists() {
    assert_eq!(plural(1, "tool"), "1 tool");
    assert_eq!(plural(0, "tool"), "0 tools");
    assert_eq!(plural(12, "finding"), "12 findings");
    assert_eq!(comma_list(&["a".to_string(), "b".to_string(), "c".to_string()]), "a, b, c");
    assert_eq!(comma_list(&[]), "");
}

#[test]
fn ansi_styles() {
    assert_eq!(bold("x"), "\x1b[1mx\x1b[22m");
    assert_eq!(red("x"), "\x1b[31mx\x1b[39m");
    assert_eq!(green("x"), "\x1b[32mx\x1b[39m");
    assert_eq!(yellow("x"), "\x1b[33mx\x1b[39m");
    assert_eq!(dim("x"), "\x1b[2mx\x1b[22m");
}

#[test]
fn timestamps_and_durations() {
    assert_eq!(format_timestamp(0), "—");
    assert_eq!(format_timestamp(1), "01/01 00:00");
    assert_eq!(format_timestamp(86400 * 40 + 3600 * 5 + 60 * 7), "05/13 05:07");
    assert_eq!(format_duration(59), "59s");
    assert_eq!(format_duration(61), "1m 1s");
    assert_eq!(format_duration(3725), "1h 2m");
}

#[test]
fn paths_under_home() {
    assert_eq!(expand_tilde("~/x/y", Some("/home/u")), "/home/u/x/y");
    assert_eq!(expand_tilde("~/x", Some("/home/u/")), "/home/u/x");
    assert_eq!(expand_tilde("~/x", None), "~/x");
    assert_eq!(expand_tilde("/abs", Some("/home/u")), "/abs");
    assert_eq!(data_dir(Some("/home/u")), "/home/u/.torot");
    assert_eq!(data_dir(None), ".torot");
    assert_eq!(join_paths("/r", "/abs"), "/abs");
    assert_eq!(join_paths("", "x"), "x");
}

#[test]
fn padding_gives_exact_byte_width() {
    for (s, w) in [("héllo", 3usize), ("ab", 7), ("", 0), ("xyz", 3)] {
        assert_eq!(pad_right(s, w).len(), w);
    }
}
