use flashwright::text::chars_of;
use flashwright::text::contains_text;
use flashwright::text::decimal_text;
use flashwright::text::find_first;
use flashwright::text::parse_unsigned;
use flashwright::text::split_lines;
use flashwright::text::string_of;
use flashwright::text::text_eq;
use flashwright::text::trimmed;

#[test]
fn texts_are_compared_by_their_characters() {
    assert!(text_eq("añb", "añb"));
    assert!(!text_eq("a", "b"));
    assert!(!text_eq("a", "ab"));
    assert!(text_eq("", ""));
}

#[test]
fn characters_and_back() {
    let chars = chars_of("aé😀");
    assert_eq!(chars, vec!['a', 'é', '😀']);
    assert_eq!(string_of(&chars, 1, 3), "é😀");
    assert_eq!(string_of(&chars, 2, 2), "");
}

#[test]
fn first_of_two_characters() {
    let chars = chars_of("12X3x");
    assert_eq!(find_first(&chars, 'x', 'X'), 2);
    assert_eq!(find_first(&chars, 'q', 'q'), 5);
}

#[test]
fn lines_end_with_newline() {
    assert_eq!(split_lines("a\nb\r\n\nc"), vec!["a", "b", "", "c"]);
    assert_eq!(split_lines("a\n"), vec!["a"]);
    assert_eq!(split_lines("a\r"), vec!["a\r"]);
    assert_eq!(split_lines("a\r\r\n"), vec!["a\r"]);
    assert_eq!(split_lines("\n"), vec![""]);
    assert!(split_lines("").is_empty());
    for text in ["", "x", "x\ny", "\r\n\r\n", "a\rb\nc\r\n", "\n\n"] {
        let expected: Vec<String> = text.lines().map(|l| l.to_string()).collect();
        assert_eq!(split_lines(text), expected);
    }
}

#[test]
fn line_reads_back() {
    assert_eq!(split_lines("first\nrest\nmore")[0], "first");
}

#[test]
fn white_space_is_trimmed() {
    assert_eq!(trimmed("  a b\t\r\n"), "a b");
    assert_eq!(trimmed("\u{a0}\u{3000}x\u{2003}"), "x");
    assert_eq!(trimmed("   "), "");
    assert_eq!(trimmed(""), "");
    assert_eq!(trimmed("\u{200b}x"), "\u{200b}x");
}

#[test]
fn trimming_settles() {
    let once = trimmed(" \t x y \n");
    assert_eq!(trimmed(&once), once);
}

#[test]
fn white_space_is_these_characters() {
    let mut spaces: Vec<u32> = vec![0x85, 0xa0, 0x1680, 0x2028, 0x2029, 0x202f, 0x205f, 0x3000];
    spaces.extend(9..=13);
    spaces.push(32);
    spaces.extend(0x2000..=0x200a);
    for code in 0..=0x10ffffu32 {
        if let Some(c) = char::from_u32(code) {
            let kept = !trimmed(&c.to_string()).is_empty();
            assert_eq!(kept, !spaces.contains(&code), "{:x}", code);
        }
    }
}

#[test]
fn numbers_are_written() {
    assert_eq!(decimal_text(0), "0");
    assert_eq!(decimal_text(9), "9");
    assert_eq!(decimal_text(10), "10");
    assert_eq!(decimal_text(30000), "30000");
    assert_eq!(decimal_text(u64::MAX), "18446744073709551615");
}

#[test]
fn numbers_are_read() {
    assert_eq!(parse_unsigned("0", u64::MAX), Some(0));
    assert_eq!(parse_unsigned("+7", u64::MAX), Some(7));
    assert_eq!(parse_unsigned("0042", u64::MAX), Some(42));
    assert_eq!(parse_unsigned("18446744073709551615", u64::MAX), Some(u64::MAX));
    assert_eq!(parse_unsigned("18446744073709551616", u64::MAX), None);
    assert_eq!(parse_unsigned("4294967296", u32::MAX as u64), None);
    for bad in ["", "+", "-1", " 1", "1 ", "1.0", "++1", "0x10", "١"] {
        assert_eq!(parse_unsigned(bad, u64::MAX), None, "{}", bad);
        assert!(bad.parse::<u64>().is_err());
    }
}

#[test]
fn decimal_reads_back() {
    for n in [0, 1, 99, 1280, u64::MAX] {
        assert_eq!(parse_unsigned(&decimal_text(n), u64::MAX), Some(n));
    }
}

#[test]
fn parts_are_found() {
    assert!(contains_text("HTTP/1.1 101 Switching", "101"));
    assert!(contains_text("101", "101"));
    assert!(contains_text("abc", ""));
    assert!(!contains_text("HTTP/1.1 200 OK", "101"));
    assert!(!contains_text("10", "101"));
}
