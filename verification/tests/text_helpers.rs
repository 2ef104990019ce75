use kcd_bilingual_generator_rust::text::{
    char_is_white_space, chars_contain, concat3, find_from, join_texts, lines_of, matches_at,
    replace_text, split_text, text_contains, text_eq, to_chars, trim_text,
};

#[test]
fn texts_are_compared_by_their_characters() {
    assert!(text_eq("", ""));
    assert!(text_eq("酗酒", "酗酒"));
    assert!(!text_eq("酗酒", "酗"));
    assert!(!text_eq("abc", "abd"));
    assert!(!text_eq("abc", "ab"));
}

#[test]
fn characters_are_listed_in_order() {
    assert_eq!(to_chars("aé酒"), vec!['a', 'é', '酒']);
    assert_eq!(to_chars(""), Vec::<char>::new());
}

#[test]
fn search_finds_the_leftmost_occurrence() {
    let hay = to_chars("abcabc");
    assert_eq!(find_from(&hay, &to_chars("bc"), 0), Some(1));
    assert_eq!(find_from(&hay, &to_chars("bc"), 2), Some(4));
    assert_eq!(find_from(&hay, &to_chars("bc"), 5), None);
    assert_eq!(find_from(&hay, &to_chars("x"), 0), None);
    assert_eq!(find_from(&hay, &to_chars(""), 0), Some(0));
    assert_eq!(find_from(&hay, &to_chars(""), 6), Some(6));
    assert_eq!(find_from(&hay, &to_chars(""), 7), None);
    assert_eq!(find_from(&hay, &to_chars("abcabcd"), 0), None);
    assert!(matches_at(&hay, &to_chars("cab"), 2));
    assert!(!matches_at(&hay, &to_chars("cab"), 3));
    assert!(!matches_at(&hay, &to_chars("bc"), 5));
}

#[test]
fn containment_is_by_characters() {
    assert!(text_contains("ui_loading_tip", "ui_loading"));
    assert!(text_contains("x_step_1", "_step_1"));
    assert!(!text_contains("x_step_2", "_step_1"));
    assert!(text_contains("abc", ""));
    assert!(text_contains("", ""));
    assert!(!text_contains("", "a"));
    assert!(text_contains("一二三", "二三"));
    assert!(chars_contain(&to_chars("perk_a_desc"), "_desc"));
    assert!(!chars_contain(&to_chars("perk_a"), "_desc"));
    assert_eq!(concat3("a", "é", "酒"), "aé酒");
}

#[test]
fn white_space_is_trimmed_at_both_ends() {
    assert_eq!(trim_text("  Chineses \t"), "Chineses");
    assert_eq!(trim_text("\u{3000}Czech\u{a0}\r\n"), "Czech");
    assert_eq!(trim_text("a b"), "a b");
    assert_eq!(trim_text("   "), "");
    assert_eq!(trim_text(""), "");
    for c in ['\t', '\n', '\u{b}', '\u{c}', '\r', ' ', '\u{85}', '\u{a0}', '\u{1680}', '\u{2000}', '\u{200a}', '\u{2028}', '\u{2029}', '\u{202f}', '\u{205f}', '\u{3000}'] {
        assert!(char_is_white_space(c));
        assert!(c.is_whitespace());
    }
    for c in ['a', '\u{200b}', '\u{feff}', '\u{1f}', '\u{8}', '\u{e}'] {
        assert!(!char_is_white_space(c));
        assert!(!c.is_whitespace());
    }
}

#[test]
fn white_space_agrees_with_the_standard_library_on_every_character() {
    let mut code: u32 = 0;
    while code <= 0x10ffff {
        if let Some(c) = char::from_u32(code) {
            assert_eq!(char_is_white_space(c), c.is_whitespace(), "U+{:04X}", code);
        }
        code += 1;
    }
}

#[test]
fn splitting_keeps_empty_pieces() {
    assert_eq!(split_text("a+b", "+"), vec!["a", "b"]);
    assert_eq!(split_text("a++b", "+"), vec!["a", "", "b"]);
    assert_eq!(split_text("+a+", "+"), vec!["", "a", ""]);
    assert_eq!(split_text("abc", "+"), vec!["abc"]);
    assert_eq!(split_text("", "+"), vec![""]);
    assert_eq!(split_text("A + + B", " + "), vec!["A", "+ B"]);
    assert_eq!(split_text("aaa", "aa"), vec!["", "a"]);
    assert_eq!(split_text("abc", ""), vec!["abc"]);
    assert_eq!(split_text("一+二", "+"), vec!["一", "二"]);
}

#[test]
fn splitting_agrees_with_the_standard_library() {
    for (hay, sep) in [("a+b+c", "+"), ("++", "+"), ("x + y + z", " + "), ("aXbXc", "X"), ("abab", "ab"), ("", "ab")] {
        let expected: Vec<String> = hay.split(sep).map(|piece| piece.to_string()).collect();
        assert_eq!(split_text(hay, sep), expected);
    }
}

#[test]
fn joining_puts_the_separator_between_pieces() {
    assert_eq!(join_texts(&vec!["a".to_string(), "b".to_string(), "c".to_string()], ", "), "a, b, c");
    assert_eq!(join_texts(&vec!["a".to_string()], ", "), "a");
    assert_eq!(join_texts(&Vec::new(), ", "), "");
    assert_eq!(join_texts(&vec!["".to_string(), "".to_string()], "/"), "/");
}

#[test]
fn replacing_changes_every_occurrence() {
    assert_eq!(replace_text("C:\\Program Files\\GOG Galaxy", "\\", "/"), "C:/Program Files/GOG Galaxy");
    assert_eq!(replace_text("abc", "\\", "/"), "abc");
    assert_eq!(replace_text("aaa", "aa", "b"), "ba");
    assert_eq!(replace_text("aaa", "aa", "b"), "aaa".replace("aa", "b"));
}

#[test]
fn lines_end_at_line_feeds() {
    assert_eq!(lines_of("a\nb"), vec!["a", "b"]);
    assert_eq!(lines_of("a\r\nb\r\n"), vec!["a", "b"]);
    assert_eq!(lines_of("a\n\nb\n"), vec!["a", "", "b"]);
    assert_eq!(lines_of(""), Vec::<String>::new());
    assert_eq!(lines_of("\n"), vec![""]);
    assert_eq!(lines_of("a\r"), vec!["a\r"]);
    assert_eq!(lines_of("a\rb\n"), vec!["a\rb"]);
    for text in ["", "\n", "a", "a\n", "a\r\n", "a\r", "\r\n\r\n", "x\n\ny", "x\r\r\ny\n"] {
        let expected: Vec<String> = text.lines().map(|line| line.to_string()).collect();
        assert_eq!(lines_of(text), expected, "{:?}", text);
    }
}
