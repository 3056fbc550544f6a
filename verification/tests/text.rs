use malim_chat::decimal::{parse_i64, write_i64, write_u64};
use malim_chat::letters::{comes_before, drop_controls, lower_ascii, to_ascii_lowercase};
use malim_chat::search::{
    contains, ends_with, lines, replace, split, split_once, starts_with, strip_prefix, trim_end_of,
};
use malim_chat::text::{
    blank, byte_len, clip, collapse, join, same, split_whitespace, trim, whitespace,
};

fn all_chars() -> impl Iterator<Item = char> {
    (0..=0x10ffffu32).filter_map(char::from_u32)
}

#[test]
fn white_space_is_what_unicode_says() {
    for c in all_chars() {
        assert_eq!(whitespace(c), c.is_whitespace(), "{:?}", c);
    }
}

#[test]
fn control_characters_are_dropped_and_no_others() {
    let everything: String = all_chars().collect();
    let expected: String = everything.chars().filter(|c| !c.is_control()).collect();
    assert_eq!(drop_controls(&everything), expected);
    assert_eq!(drop_controls("a\u{0}b\u{7f}c\u{85}d\ne"), "abcde");
}

#[test]
fn ascii_letters_are_lowered_and_no_others() {
    for c in all_chars().take(0x3000) {
        assert_eq!(lower_ascii(c), c.to_ascii_lowercase());
    }
    assert_eq!(to_ascii_lowercase("ÄBC ÉxY"), "ÄBC ÉxY".to_ascii_lowercase());
}

#[test]
fn trimming_takes_white_space_off_both_ends() {
    for s in ["", " ", "  a b\t\n", "\u{3000}x\u{a0}", "inner  gap", "\r\n\r\n"] {
        assert_eq!(trim(s), s.trim());
        assert_eq!(trim(trim(s)), trim(s));
        assert_eq!(blank(s), s.trim().is_empty());
    }
}

#[test]
fn words_are_what_stands_between_white_space() {
    for s in ["", "  ", "one", " one  two\tthree\n", "\u{2003}a\u{3000}b "] {
        assert_eq!(split_whitespace(s), s.split_whitespace().collect::<Vec<_>>());
        assert_eq!(collapse(s), s.split_whitespace().collect::<Vec<_>>().join(" "));
    }
}

#[test]
fn clipping_counts_characters() {
    assert_eq!(clip("žluťoučký", 3), "žlu");
    assert_eq!(clip("ab", 3), "ab");
    assert_eq!(clip("ab", 0), "");
    assert_eq!(byte_len("ž€😀"), "ž€😀".len());
}

#[test]
fn joining_puts_the_separator_between() {
    let parts = vec!["a".to_string(), "".to_string(), "b".to_string()];
    assert_eq!(join(&parts, "--"), "a----b");
    assert_eq!(join(&vec![], "--"), "");
    assert_eq!(join(&vec!["only".to_string()], "--"), "only");
}

#[test]
fn searching_agrees_with_the_standard_library() {
    let samples = ["", "a", "aaaa", "abcabcab", "ёabcё", "<<tag>>", "a/b//c/", "/"];
    let patterns = ["a", "ab", "aa", "/", "//", "ё", "zzz", "abcabcab"];
    for s in samples {
        for p in patterns {
            assert_eq!(contains(s, p), s.contains(p), "{:?} {:?}", s, p);
            assert_eq!(starts_with(s, p), s.starts_with(p));
            assert_eq!(ends_with(s, p), s.ends_with(p));
            assert_eq!(strip_prefix(s, p), s.strip_prefix(p));
            assert_eq!(split(s, p), s.split(p).collect::<Vec<_>>());
            assert_eq!(replace(s, p, "<>"), s.replace(p, "<>"));
            assert_eq!(
                split_once(s, p),
                s.split_once(p).map(|(a, b)| (a.to_string(), b.to_string()))
            );
        }
        assert_eq!(trim_end_of(s, '/'), s.trim_end_matches('/'));
        assert!(same(s, s));
        assert!(!same(s, "another"));
    }
}

#[test]
fn lines_end_at_line_feeds() {
    for s in ["", "\n", "a", "a\n", "a\r\nb\n\nc", "\r\n", "a\rb\n", "end\r", "x\n\r\n"] {
        assert_eq!(lines(s), s.lines().collect::<Vec<_>>(), "{:?}", s);
    }
}

#[test]
fn text_is_ordered_by_its_characters() {
    let samples = ["", "a", "ab", "b", "ё", "е", "я", "A", "aa", "😀"];
    for a in samples {
        for b in samples {
            assert_eq!(comes_before(a, b), a < b, "{:?} {:?}", a, b);
        }
    }
}

#[test]
fn numbers_read_back_as_they_were_written() {
    for n in [0i64, 1, -1, 9, 10, -10, 12345, i64::MAX, i64::MIN] {
        assert_eq!(write_i64(n), n.to_string());
        assert_eq!(parse_i64(&write_i64(n)), Some(n));
    }
    for n in [0u64, 7, 10, 100, u64::MAX] {
        assert_eq!(write_u64(n), n.to_string());
    }
    for s in [
        "", "-", "+", "+5", "-0", "00012", "12a", " 12", "9223372036854775808",
        "-9223372036854775808", "-9223372036854775809", "٣",
    ] {
        assert_eq!(parse_i64(s), s.parse::<i64>().ok(), "{:?}", s);
    }
}
