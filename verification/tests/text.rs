use llm_linter::text::{
    aligned_number, chars_of, count_lines, decimal_string, found_at, is_whitespace, join_lines,
    lines_of, same_text, trim,
};

fn chars(text: &str) -> Vec<char> {
    text.chars().collect()
}

#[test]
fn whitespace_is_what_unicode_calls_white_space() {
    let mut spaces = 0;
    for code in 0..=0x10FFFFu32 {
        if let Some(c) = char::from_u32(code) {
            assert_eq!(is_whitespace(c), c.is_whitespace(), "U+{:04X}", code);
            if is_whitespace(c) {
                spaces += 1;
            }
        }
    }
    assert_eq!(spaces, 25);
}

#[test]
fn trim_removes_whitespace_at_both_ends() {
    for text in [
        "",
        " ",
        "a",
        "  a  ",
        "\n\ta b\u{3000}\r\n",
        " \u{a0} ",
        "a \n b",
        "\u{2003}x\u{2028}y\u{85}",
        "\u{200b}zero width\u{200b}",
    ] {
        assert_eq!(trim(text), text.trim(), "text: {:?}", text);
    }
    assert_eq!(trim("  no unwrap \n"), "no unwrap");
}

#[test]
fn chars_are_taken_in_order() {
    let text = "añ→𝄞\n";
    assert_eq!(chars_of(text), chars(text));
    assert_eq!(chars_of(""), chars(""));
    assert!(same_text("abc", "abc"));
    assert!(!same_text("abc", "abd"));
    assert!(!same_text("abc", "ab"));
}

#[test]
fn join_puts_a_line_feed_between_parts() {
    assert_eq!(join_lines(&vec![]), "");
    assert_eq!(join_lines(&vec!["a".to_string()]), "a");
    assert_eq!(join_lines(&vec!["a".to_string(), "".to_string(), "b".to_string()]), "a\n\nb");
    assert_eq!(join_lines(&vec!["".to_string(), "".to_string()]), "\n");
}

#[test]
fn lines_are_the_pieces_between_line_feeds() {
    for text in ["", "a", "a\n", "\n", "a\nb", "a\n\nb\n", "\n\n", "a\r\nb"] {
        let expected: Vec<Vec<char>> = text.split('\n').map(chars).collect();
        assert_eq!(lines_of(&chars(text)), expected, "text: {:?}", text);
    }
    assert_eq!(lines_of(&chars("a\nb\n")), vec![chars("a"), chars("b"), chars("")]);
}

#[test]
fn count_lines_leaves_a_last_empty_piece_out() {
    for text in ["", "a", "a\n", "\n", "a\nb", "a\n\nb\n", "\n\n", "a\r\nb\r\n", "  10 x\n  11 +y"] {
        assert_eq!(count_lines(text), text.lines().count(), "text: {:?}", text);
    }
    assert_eq!(count_lines("one\ntwo\nthree"), 3);
    assert_eq!(count_lines("one\ntwo\n"), 2);
}

#[test]
fn decimal_numerals() {
    for n in [0u64, 1, 9, 10, 11, 99, 100, 999, 1000, 9999, 10000, 123456789, u64::MAX] {
        assert_eq!(decimal_string(n), n.to_string());
    }
    assert_eq!(decimal_string(18446744073709551615), "18446744073709551615");
}

#[test]
fn numbers_are_right_aligned() {
    for n in [0u64, 7, 10, 42, 999, 1000, 9999, 10000, 123456, u64::MAX] {
        assert_eq!(aligned_number(n, 4), format!("{:4}", n));
    }
    assert_eq!(aligned_number(7, 4), "   7");
    assert_eq!(aligned_number(12345, 4), "12345");
    assert_eq!(aligned_number(5, 0), "5");
    assert_eq!(aligned_number(5, 1), "5");
}

#[test]
fn found_at_compares_in_place() {
    let hay = chars("+++ b/src/main.rs");
    assert!(found_at(&hay, "+++ b/", 0));
    assert!(found_at(&hay, "src", 6));
    assert!(!found_at(&hay, "src", 5));
    assert!(found_at(&hay, "", 17));
    assert!(!found_at(&hay, "", 18));
    assert!(!found_at(&hay, "", usize::MAX));
    assert!(!found_at(&hay, ".rs!", 14));
    assert!(found_at(&hay, ".rs", 14));
    assert!(found_at(&chars("añ→𝄞"), "→𝄞", 2));
}
