use timhatdiehandandermaus::text::{
    chain, index_of_char, join, split_trimmed, str_eq, to_chars, whitespace,
};

#[test]
fn equal_strings() {
    assert!(str_eq("", ""));
    assert!(str_eq("Queued", "Queued"));
    assert!(!str_eq("Queued", "queued"));
    assert!(!str_eq("Queued", "Queue"));
}

#[test]
fn characters_of_a_text() {
    assert_eq!(to_chars(""), Vec::<char>::new());
    assert_eq!(to_chars("a\u{2b50}b"), vec!['a', '\u{2b50}', 'b']);
}

#[test]
fn chaining() {
    assert_eq!(chain("movie/", "42"), "movie/42");
    assert_eq!(chain("", ""), "");
}

#[test]
fn joining() {
    assert_eq!(join(&vec![], ", "), "");
    assert_eq!(join(&vec!["a".to_string()], ", "), "a");
    assert_eq!(join(&vec!["a".to_string(), "b".to_string(), "c".to_string()], ", "), "a, b, c");
    assert_eq!(join(&vec!["".to_string(), "".to_string()], "-"), "-");
}

#[test]
fn first_offset_of_a_character() {
    assert_eq!(index_of_char(&vec!['a', ' ', 'b', ' '], ' '), 1);
    assert_eq!(index_of_char(&vec![' ', 'a'], ' '), 0);
    assert_eq!(index_of_char(&vec!['a', 'b'], ' '), 2);
    assert_eq!(index_of_char(&vec![], ' '), 0);
}

#[test]
fn trimmed_pieces() {
    assert_eq!(split_trimmed("a; b ;c", ';'), vec!["a", "b", "c"]);
    assert_eq!(split_trimmed(" a b ", ';'), vec!["a b"]);
    assert_eq!(split_trimmed("", ';'), vec![""]);
    assert_eq!(split_trimmed(" ; ", ';'), vec!["", ""]);
    assert_eq!(split_trimmed("\u{2b50} x \u{2b50}", '\u{2b50}'), vec!["", "x", ""]);
}

#[test]
fn white_space_is_what_the_standard_library_takes_for_it() {
    let mut count = 0;
    for code in 0..=0x10ffffu32 {
        if let Some(c) = char::from_u32(code) {
            assert_eq!(whitespace(c), c.is_whitespace());
            if whitespace(c) {
                count += 1;
            }
        }
    }
    assert_eq!(count, 25);
}

#[test]
fn white_space_characters() {
    for c in ['\t', '\n', '\u{b}', '\u{c}', '\r', ' ', '\u{85}', '\u{a0}', '\u{1680}', '\u{2000}',
        '\u{200a}', '\u{2028}', '\u{2029}', '\u{202f}', '\u{205f}', '\u{3000}']
    {
        assert!(whitespace(c));
    }
    for c in ['a', '0', '\u{8}', '\u{e}', '\u{1f}', '\u{200b}', '\u{feff}', '\u{2060}', '\u{180e}']
    {
        assert!(!whitespace(c));
    }
}
