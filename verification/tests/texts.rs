use tav::measure::width_of;
use tav::number::{decimal_string, parse_u32, parse_usize, push_decimal};
use tav::order::text_before;
use tav::term::{apply_color, fg, span};
use tav::text::{begins_with, chars_of, find_char, has_at, join, same_text, slice_of, split};

#[test]
fn text_is_split_at_every_separator() {
    assert_eq!(split("a\tb\tc", '\t'), vec!["a", "b", "c"]);
    assert_eq!(split("abc", '\t'), vec!["abc"]);
    assert_eq!(split("", '\t'), vec![""]);
    assert_eq!(split("\t", '\t'), vec!["", ""]);
    assert_eq!(split("a\t\tb\t", '\t'), vec!["a", "", "b", ""]);
    assert_eq!(split("\u{e9}\t\u{65e5}\u{672c}", '\t'), vec!["\u{e9}", "\u{65e5}\u{672c}"]);
}

#[test]
fn splitting_is_that_of_std() {
    for s in ["", "a", "\n", "a\nb", "\n\na\n", "x\n\u{fc}\ny\n"] {
        let expected: Vec<String> = s.split('\n').map(|p| p.to_string()).collect();
        assert_eq!(split(s, '\n'), expected);
    }
}

#[test]
fn characters_and_positions() {
    let chars = chars_of("b\u{fc}ro\tx");
    assert_eq!(chars, vec!['b', '\u{fc}', 'r', 'o', '\t', 'x']);
    assert_eq!(find_char(&chars, '\t', 0), 4);
    assert_eq!(find_char(&chars, '\t', 4), 4);
    assert_eq!(find_char(&chars, '\t', 5), 6);
    assert_eq!(find_char(&chars, 'q', 0), 6);
    assert_eq!(slice_of("b\u{fc}ro\tx", 1, 4), "\u{fc}ro");
    assert_eq!(slice_of("abc", 3, 3), "");
    assert_eq!(width_of("b\u{fc}ro"), 4);
    assert_eq!(width_of(""), 0);
}

#[test]
fn parts_of_a_text() {
    let chars = chars_of("[dead]old");
    assert!(has_at(&chars, &chars_of("[dead]"), 0));
    assert!(has_at(&chars, &chars_of("old"), 6));
    assert!(has_at(&chars, &chars_of(""), 9));
    assert!(!has_at(&chars, &chars_of("old"), 5));
    assert!(!has_at(&chars, &chars_of("old"), 7));
    assert!(!has_at(&chars, &chars_of(""), 10));
    assert!(!has_at(&chars, &chars_of("x"), usize::MAX));
    assert!(begins_with("$0", "$"));
    assert!(begins_with("$0", ""));
    assert!(!begins_with("", "$"));
    assert!(!begins_with("@0", "$"));
    assert!(same_text("list", "list"));
    assert!(!same_text("list", "lis"));
    assert!(!same_text("list", "lisp"));
    assert!(same_text("", ""));
}

#[test]
fn lines_are_joined() {
    let lines: Vec<String> = vec!["a".to_string(), "".to_string(), "b".to_string()];
    assert_eq!(join(&lines, "\n"), "a\n\nb");
    assert_eq!(join(&lines[..1].to_vec(), "\n"), "a");
    assert_eq!(join(&Vec::new(), "\n"), "");
    assert_eq!(join(&lines, ", "), "a, , b");
}

#[test]
fn numbers_are_read() {
    assert_eq!(parse_u32("0"), Some(0));
    assert_eq!(parse_u32("007"), Some(7));
    assert_eq!(parse_u32("+12"), Some(12));
    assert_eq!(parse_u32("4294967295"), Some(4294967295));
    assert_eq!(parse_usize("18446744073709551615"), "18446744073709551615".parse().ok());
    assert_eq!(parse_usize("65536"), Some(65536));
}

#[test]
fn what_is_no_number_is_not_read() {
    assert_eq!(parse_u32(""), None);
    assert_eq!(parse_u32("+"), None);
    assert_eq!(parse_u32("-1"), None);
    assert_eq!(parse_u32("++1"), None);
    assert_eq!(parse_u32("1+"), None);
    assert_eq!(parse_u32("1 "), None);
    assert_eq!(parse_u32(" 1"), None);
    assert_eq!(parse_u32("1_000"), None);
    assert_eq!(parse_u32("0x10"), None);
    assert_eq!(parse_u32("\u{661}"), None);
    assert_eq!(parse_u32("4294967296"), None);
    assert_eq!(parse_u32("99999999999999999999999999"), None);
    assert_eq!(parse_usize("18446744073709551616"), None);
}

#[test]
fn reading_numbers_is_that_of_std() {
    for s in ["", "0", "+0", "-0", "00012", "12a", "4294967295", "4294967296", "+4294967295", "٣"] {
        assert_eq!(parse_u32(s), s.parse::<u32>().ok());
        assert_eq!(parse_usize(s), s.parse::<usize>().ok());
    }
}

#[test]
fn numbers_are_written() {
    assert_eq!(decimal_string(0), "0");
    assert_eq!(decimal_string(9), "9");
    assert_eq!(decimal_string(10), "10");
    assert_eq!(decimal_string(242), "242");
    assert_eq!(decimal_string(u64::MAX), "18446744073709551615");
    let mut s = "main:".to_string();
    push_decimal(&mut s, 12);
    assert_eq!(s, "main:12");
}

#[test]
fn written_numbers_are_read_back() {
    for n in [0u32, 1, 9, 10, 99, 100, 4294967295] {
        assert_eq!(parse_u32(&decimal_string(n as u64)), Some(n));
    }
}

#[test]
fn texts_are_ordered_by_their_characters() {
    assert!(text_before("", ""));
    assert!(text_before("", "a"));
    assert!(!text_before("a", ""));
    assert!(text_before("$0", "$0"));
    assert!(text_before("$0", "$1"));
    assert!(!text_before("$1", "$0"));
    assert!(text_before("$1", "$10"));
    assert!(text_before("$10", "$2"));
    assert!(!text_before("$2", "$10"));
    assert!(text_before("Z", "a"));
    assert!(text_before("z", "\u{e9}"));
    assert!(text_before("\u{e9}", "\u{65e5}"));
    assert!(text_before("\u{ffff}", "\u{10000}"));
}

#[test]
fn order_of_texts_is_that_of_std() {
    let all = ["", "$0", "$1", "$10", "$2", "a", "ab", "b", "\u{e9}", "\u{ff5e}", "\u{1f600}", "\u{e000}"];
    for a in all {
        for b in all {
            assert_eq!(text_before(a, b), a <= b);
        }
    }
}

#[test]
fn style_is_applied_and_reset() {
    assert_eq!(apply_color("\x1b[1m", "bold"), "\x1b[1mbold\x1b[m");
    assert_eq!(apply_color("", ""), "\x1b[m");
    assert_eq!(fg("\x1b[38;5;4m", "blue"), "\x1b[38;5;4mblue\x1b[m");
}

#[test]
fn bar_is_black_dots() {
    assert_eq!(span(3), "\x1b[38;5;0m\u{b7}\u{b7}\u{b7}\x1b[m");
    assert_eq!(span(1), "\x1b[38;5;0m\u{b7}\x1b[m");
    assert_eq!(span(0), "\x1b[38;5;0m\u{b7}\x1b[m");
}
