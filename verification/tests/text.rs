use relay_server::text::{
    chars_of, concat2, concat3, decimal_text, decode_or_empty, join, join_from, same_text, split,
    split_whitespace, starts_with, take_chars, trim, trim_start_matches, white,
};

fn strings(parts: &[&str]) -> Vec<String> {
    parts.iter().map(|s| s.to_string()).collect()
}

#[test]
fn split_cuts_at_each_separator() {
    assert_eq!(split("a|b||c|", '|'), strings(&["a", "b", "", "c", ""]));
    assert_eq!(split("", '|'), strings(&[""]));
    assert_eq!(split("один|два", '|'), strings(&["один", "два"]));
}

#[test]
fn joining_the_pieces_gives_the_text_back() {
    for s in ["", "|", "a|b", "||x||", "без разделителя"] {
        assert_eq!(join(&split(s, '|'), "|"), s);
    }
}

#[test]
fn words_have_no_white_space() {
    assert_eq!(split_whitespace("  /a\t b\n\u{a0}c\u{2003}d "), strings(&["/a", "b", "c", "d"]));
    assert_eq!(split_whitespace(" \u{3000} "), Vec::<String>::new());
    assert_eq!(split_whitespace("слово"), strings(&["слово"]));
}

#[test]
fn words_agree_with_std() {
    for s in ["", " ", "a", " a b ", "\u{85}x\u{1680}y\u{2028}z\u{205f}", "a\u{200b}b"] {
        let expected: Vec<String> = s.split_whitespace().map(|w| w.to_string()).collect();
        assert_eq!(split_whitespace(s), expected);
        assert_eq!(trim(s), s.trim());
    }
}

#[test]
fn white_agrees_with_std() {
    let mut n: u32 = 0;
    while n < 0x3100 {
        if let Some(c) = char::from_u32(n) {
            assert_eq!(white(c), c.is_whitespace());
        }
        n += 1;
    }
}

#[test]
fn trim_keeps_what_is_inside() {
    assert_eq!(trim("  a b \n"), "a b");
    assert_eq!(trim(" \t "), "");
    assert_eq!(trim("x"), "x");
}

#[test]
fn leading_marks_are_removed() {
    assert_eq!(trim_start_matches("##a#b", '#'), "a#b");
    assert_eq!(trim_start_matches("a", '#'), "a");
    assert_eq!(trim_start_matches("&&&", '&'), "");
    assert!(starts_with("#a", '#'));
    assert!(!starts_with("", '#'));
    assert!(!starts_with("a#", '#'));
}

#[test]
fn characters_are_counted_not_bytes() {
    assert_eq!(take_chars("привет", 3), "при");
    assert_eq!(take_chars("привет", 100), "привет");
    assert_eq!(take_chars("abc", 0), "");
    assert_eq!(chars_of("aя"), vec!['a', 'я']);
}

#[test]
fn numbers_are_written_in_decimal() {
    assert_eq!(decimal_text(0), "0");
    assert_eq!(decimal_text(10), "10");
    assert_eq!(decimal_text(9075), "9075");
    assert_eq!(decimal_text(usize::MAX), usize::MAX.to_string());
}

#[test]
fn texts_are_joined() {
    let words = strings(&["/cmd", "a", "b", "c"]);
    assert_eq!(join_from(&words, 1, " "), "a b c");
    assert_eq!(join_from(&words, 4, " "), "");
    assert_eq!(join(&words, ", "), "/cmd, a, b, c");
    assert_eq!(concat2("а", "b"), "аb");
    assert_eq!(concat3("a", "", "c"), "ac");
    assert!(same_text("тест", "тест"));
    assert!(!same_text("тест", "тес"));
    assert!(!same_text("ab", "ac"));
}

#[test]
fn bytes_that_are_no_text_count_as_empty() {
    assert_eq!(decode_or_empty(vec![0xd1, 0x8f]), "я");
    assert_eq!(decode_or_empty(vec![b'a', 0xff]), "");
    assert_eq!(decode_or_empty(vec![]), "");
}
