use glv::text::adjust_string;
use unicode_width::UnicodeWidthStr;

#[test]
fn short_text_is_right_padded() {
    assert_eq!(adjust_string("hello", 10), "hello     ");
}

#[test]
fn exact_text_is_unchanged() {
    assert_eq!(adjust_string("hello", 5), "hello");
}

#[test]
fn adjusting_is_idempotent_at_exact_width() {
    let once = adjust_string("hello", 5);
    let twice = adjust_string(&once, 5);
    assert_eq!(once, twice);
    assert_eq!(once, "hello");
}

#[test]
fn overflow_ends_in_ellipsis_at_exact_width() {
    let out = adjust_string("hello", 3);
    assert_eq!(out, "he\u{2026}");
    assert_eq!(UnicodeWidthStr::width(out.as_str()), 3);
    assert!(out.ends_with('\u{2026}'));
}

#[test]
fn overflow_keeps_whole_words_when_they_fit() {
    let out = adjust_string("hello world and more", 8);
    assert_eq!(out, "hello   ");
    assert_eq!(UnicodeWidthStr::width(out.as_str()), 8);
}

#[test]
fn overflow_never_splits_a_grapheme_cluster() {
    // the cluster is "a" followed by a combining acute accent; cutting
    // between the two would strand the accent
    let text = "aa\u{301}aaaaaaaaaaaaaaaaaaaa";
    let out = adjust_string(text, 4);
    assert_eq!(UnicodeWidthStr::width(out.as_str()), 4);
    assert!(out.ends_with('\u{2026}'));
    assert_eq!(out, "aa\u{301}a\u{2026}");
}

#[test]
fn width_is_exact_for_wide_text() {
    // katakana glyphs are two columns wide each
    let out = adjust_string("\u{30ab}\u{30bf}\u{30ab}\u{30ca}\u{30ab}\u{30bf}", 7);
    assert_eq!(UnicodeWidthStr::width(out.as_str()), 7);
}

#[test]
fn width_one_still_works() {
    let out = adjust_string("hello", 1);
    assert_eq!(out, "\u{2026}");
    assert_eq!(UnicodeWidthStr::width(out.as_str()), 1);
}
