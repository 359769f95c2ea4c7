use hosts_guard::text::{
    char_is_whitespace, chars_of, concat_chars, contains_chars, line_text_chars, occurs_at_chars,
    push_text, same_chars, slice_chars, split_raw_lines, split_text_lines, string_of, trim_chars,
};

fn chars(text: &str) -> Vec<char> {
    text.chars().collect()
}

fn strings(lines: Vec<Vec<char>>) -> Vec<String> {
    lines.into_iter().map(|line| line.into_iter().collect()).collect()
}

const SAMPLES: [&str; 16] = [
    "",
    "\n",
    "a",
    "a\n",
    "a\r\n",
    "a\r",
    "\r\n\r\n",
    "a\n\nb",
    "a\r\r\n",
    "\n\n\n",
    "one\ntwo\r\nthree",
    "one\ntwo\r\nthree\n",
    "\r",
    "ends with a carriage return\r\nand a bare one\r",
    "h\u{e9}llo\nw\u{f6}rld\n",
    " \t\n x \n",
];

#[test]
fn strings_and_characters_convert_both_ways() {
    for text in SAMPLES {
        assert_eq!(chars_of(text), chars(text));
        assert_eq!(string_of(&chars(text)), text);
    }
    assert_eq!(string_of(&vec!['\u{10ffff}', 'a', '\u{0}']), "\u{10ffff}a\u{0}");
}

#[test]
fn white_space_is_what_the_standard_library_calls_white_space() {
    for code in 0u32..=0x10ffff {
        if let Some(c) = char::from_u32(code) {
            assert_eq!(char_is_whitespace(c), c.is_whitespace(), "U+{:04X}", code);
        }
    }
}

#[test]
fn trimming_is_the_trimming_of_the_standard_library() {
    for text in SAMPLES {
        assert_eq!(string_of(&trim_chars(&chars(text))), text.trim());
    }
    for text in ["  a b  ", "\u{3000}x\u{a0}", "\t\r\n", "x", " x", "x ", "\u{200b} x"] {
        assert_eq!(string_of(&trim_chars(&chars(text))), text.trim());
    }
}

#[test]
fn lines_are_the_lines_of_the_standard_library() {
    for text in SAMPLES {
        let expected: Vec<String> = text.lines().map(str::to_string).collect();
        assert_eq!(strings(split_text_lines(&chars(text))), expected, "{:?}", text);
    }
}

#[test]
fn raw_lines_keep_every_character() {
    for text in SAMPLES {
        let expected: Vec<String> = text.split_inclusive('\n').map(str::to_string).collect();
        let lines = split_raw_lines(&chars(text));
        assert_eq!(strings(lines.clone()), expected, "{:?}", text);
        assert_eq!(string_of(&concat_chars(&lines)), text);
    }
}

#[test]
fn a_line_says_what_stands_before_its_ending() {
    let said = |raw: &str| string_of(&line_text_chars(&chars(raw)));
    assert_eq!(said("abc\n"), "abc");
    assert_eq!(said("abc\r\n"), "abc");
    assert_eq!(said("abc\r\r\n"), "abc\r");
    assert_eq!(said("abc\r"), "abc\r");
    assert_eq!(said("abc"), "abc");
    assert_eq!(said("\n"), "");
    assert_eq!(said("\r\n"), "");
    assert_eq!(said(""), "");
}

#[test]
fn searching_is_the_searching_of_the_standard_library() {
    let hays = ["", "a", "ab", "aab", "abcabd", "127.0.0.1 foo.test", "h\u{e9}llo"];
    let needles = ["", "a", "b", "ab", "abd", "abc", "foo.test", "foo.tests", "\u{e9}l", "d"];
    for hay in hays {
        for needle in needles {
            assert_eq!(
                contains_chars(&chars(hay), &chars(needle)),
                hay.contains(needle),
                "{:?} in {:?}",
                needle,
                hay
            );
        }
    }
}

#[test]
fn an_occurrence_is_told_by_its_place() {
    let hay = chars("abcabd");
    assert!(occurs_at_chars(&hay, &chars("ab"), 0));
    assert!(occurs_at_chars(&hay, &chars("ab"), 3));
    assert!(!occurs_at_chars(&hay, &chars("ab"), 1));
    assert!(occurs_at_chars(&hay, &chars("abd"), 3));
    assert!(occurs_at_chars(&hay, &chars(""), 6));
    assert!(same_chars(&chars("abc"), &chars("abc")));
    assert!(!same_chars(&chars("abc"), &chars("abd")));
    assert!(!same_chars(&chars("abc"), &chars("ab")));
    assert!(same_chars(&chars(""), &chars("")));
}

#[test]
fn a_slice_is_cut_between_two_places() {
    let text = chars("hello");
    assert_eq!(slice_chars(&text, 1, 4), chars("ell"));
    assert_eq!(slice_chars(&text, 0, 5), text);
    assert_eq!(slice_chars(&text, 2, 2), chars(""));
}

#[test]
fn pushing_keeps_what_was_there() {
    let mut lines = vec!["a".to_string()];
    push_text(&mut lines, "b".to_string());
    assert_eq!(lines, vec!["a", "b"]);
}
