use inspect::layout::{digit_char, push_decimal};
use inspect::model::{copy_lines, keep_first, CommitItem};
use inspect::parse::line_rows;
use inspect::queue::text_before_or_equal;
use inspect::text::{
    all_flags_set, chars_of, next_line, slice_of, space_flags, split_fields, string_of,
    string_of_range, trim_chars, trim_flags,
};
use inspect::width::{cut_to_width, truncate_to_width};
use unicode_width::UnicodeWidthStr;

fn chars(s: &str) -> Vec<char> {
    s.chars().collect()
}

#[test]
fn strings_and_characters() {
    assert_eq!(chars_of("a\u{e9}\u{65e5}"), vec!['a', '\u{e9}', '\u{65e5}']);
    assert!(chars_of("").is_empty());
    assert_eq!(string_of(&chars("h\u{e9}llo")), "h\u{e9}llo");
    assert_eq!(string_of_range(&chars("hello"), 1, 3), "el");
    assert_eq!(string_of_range(&chars("hello"), 2, 2), "");
    assert_eq!(slice_of(&chars("hello"), 1, 4), chars("ell"));
    assert_eq!(copy_lines(&vec!["a".to_string(), "b".to_string()]), vec!["a", "b"]);
}

#[test]
fn cut_with_given_widths() {
    let text = chars("abcdef");
    assert_eq!(cut_to_width(&text, &vec![1, 1, 1, 1, 1, 1], 6), "abcdef");
    assert_eq!(cut_to_width(&text, &vec![1, 1, 1, 1, 1, 1], 3), "abc");
    assert_eq!(cut_to_width(&text, &vec![1, 2, 1, 1, 1, 1], 2), "a\u{2026}");
    assert_eq!(cut_to_width(&text, &vec![2, 2, 2, 2, 2, 2], 5), "ab\u{2026}");
    assert_eq!(cut_to_width(&text, &vec![2, 2, 2, 2, 2, 2], 1), "");
    assert_eq!(cut_to_width(&text, &vec![0, 0, 0, 0, 0, 0], 0), "abcdef");
    assert_eq!(cut_to_width(&text, &vec![1, 0, 3, 0, 0, 0], 2), "ab\u{2026}");
    assert_eq!(cut_to_width(&text, &vec![usize::MAX, 1, 1, 1, 1, 1], 9), "\u{2026}");
    assert_eq!(cut_to_width(&Vec::new(), &Vec::new(), 3), "");
}

#[test]
fn truncated_lines_fit() {
    let samples = ["", "plain text", "\u{65e5}\u{672c}\u{8a9e}\u{306e}\u{884c}", "a\u{65e5}b\u{672c}c", "tab\there"];
    for sample in samples {
        for width in 0..14usize {
            let out = truncate_to_width(sample, width);
            assert!(UnicodeWidthStr::width(out.as_str()) <= width);
            if UnicodeWidthStr::width(sample) <= width {
                assert_eq!(out, sample);
            }
            let kept = out.trim_end_matches('\u{2026}');
            assert!(sample.starts_with(kept));
            if out.ends_with('\u{2026}') {
                assert!(kept.len() < sample.len());
            }
        }
    }
}

#[test]
fn flags_and_trimming() {
    assert_eq!(space_flags(&chars(" a\tb\n")), vec![true, false, true, false, true]);
    assert!(all_flags_set(&vec![true, true]));
    assert!(all_flags_set(&Vec::new()));
    assert!(!all_flags_set(&vec![true, false, true]));
    assert_eq!(trim_flags(&vec![true, false, true, false, true]), (1, 4));
    assert_eq!(trim_flags(&vec![true, true]), (2, 2));
    assert_eq!(trim_flags(&vec![false]), (0, 1));
    assert_eq!(trim_flags(&Vec::new()), (0, 0));
    assert_eq!(trim_chars(&chars("  x y \n")), (2, 5));
    for text in ["", " ", " a ", "\u{a0}b\u{3000}", "no", "\t\r\n"] {
        let v = chars(text);
        let (lo, hi) = trim_chars(&v);
        assert_eq!(string_of_range(&v, lo, hi), text.trim());
    }
}

#[test]
fn fields_and_lines() {
    let got = split_fields(&chars("a\t\tb\t"), 0, 5, '\t');
    assert_eq!(got, vec![chars("a"), chars(""), chars("b"), chars("")]);
    assert_eq!(split_fields(&chars("xa,by"), 1, 4, ','), vec![chars("a"), chars("b")]);
    assert_eq!(split_fields(&chars(""), 0, 0, ','), vec![chars("")]);
    let text = chars("ab\r\ncd\n\nef");
    assert_eq!(next_line(&text, 0), (2, 4));
    assert_eq!(next_line(&text, 4), (6, 7));
    assert_eq!(next_line(&text, 7), (7, 8));
    assert_eq!(next_line(&text, 8), (10, 10));
    assert_eq!(line_rows(&text), vec![chars("ab"), chars("cd"), chars(""), chars("ef")]);
}

#[test]
fn order_of_two_strings() {
    assert!(text_before_or_equal(&chars(""), &chars("")));
    assert!(text_before_or_equal(&chars(""), &chars("a")));
    assert!(!text_before_or_equal(&chars("a"), &chars("")));
    assert!(text_before_or_equal(&chars("abc"), &chars("abc")));
    assert!(text_before_or_equal(&chars("abc"), &chars("abd")));
    assert!(!text_before_or_equal(&chars("abd"), &chars("abc")));
    assert!(text_before_or_equal(&chars("ab"), &chars("abc")));
    assert!(!text_before_or_equal(&chars("b"), &chars("abc")));
    for (a, b) in [("2024-01-02", "2024-01-10"), ("z", "\u{e9}"), ("\u{ffff}", "\u{10000}")] {
        assert_eq!(text_before_or_equal(&chars(a), &chars(b)), a <= b);
        assert_eq!(text_before_or_equal(&chars(b), &chars(a)), b <= a);
    }
}

#[test]
fn decimal_digits() {
    assert_eq!(digit_char(0), '0');
    assert_eq!(digit_char(7), '7');
    assert_eq!(digit_char(9), '9');
    for n in [0usize, 7, 10, 42, 100, 909, 65535, usize::MAX] {
        let mut out = "n=".to_string();
        push_decimal(&mut out, n);
        assert_eq!(out, format!("n={}", n));
    }
}

#[test]
fn first_items_are_kept() {
    let make = |n: usize| -> Vec<CommitItem> {
        (0..n).map(|i| CommitItem { id: format!("c{}", i), summary: String::new() }).collect()
    };
    let mut list = make(4);
    keep_first(&mut list, 2);
    assert_eq!(list.len(), 2);
    assert_eq!(list[1].id, "c1");
    assert_eq!(list[0].duplicate().id, "c0");
    keep_first(&mut list, 5);
    assert_eq!(list.len(), 2);
    keep_first(&mut list, 0);
    assert!(list.is_empty());
}
