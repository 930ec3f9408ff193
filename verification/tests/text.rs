use breeze::text::{
    char_is_whitespace, find_char, push_range, range_is, string_from_range, to_chars,
    trim_end_index, trim_start_index,
};

#[test]
fn whitespace_agrees_with_the_standard_library() {
    for code in 0..=0x10_ffff_u32 {
        if let Some(character) = char::from_u32(code) {
            assert_eq!(character.is_whitespace(), char_is_whitespace(character), "U+{code:04X}");
        }
    }
}

#[test]
fn to_chars_decodes_every_character() {
    assert_eq!(Vec::<char>::new(), to_chars(""));
    assert_eq!(vec!['a', '\u{e9}', '\u{65e5}', '\u{1f600}', '\n'], to_chars("a\u{e9}\u{65e5}\u{1f600}\n"));
}

#[test]
fn ranges_become_strings() {
    let chars = to_chars("h\u{e9}llo world");
    assert_eq!("h\u{e9}llo", string_from_range(&chars, 0, 5));
    assert_eq!("", string_from_range(&chars, 3, 3));
    assert_eq!("world", string_from_range(&chars, 6, chars.len()));
    let mut out = "say: ".to_owned();
    push_range(&mut out, &chars, 1, 4);
    assert_eq!("say: \u{e9}ll", out);
}

#[test]
fn trimming_moves_the_ends_of_a_range() {
    let chars = to_chars(" \t a b \u{a0}\r\n");
    assert_eq!(6, trim_end_index(&chars, 0, chars.len()));
    assert_eq!(3, trim_start_index(&chars, 0, chars.len()));
    assert_eq!(4, trim_end_index(&chars, 0, 5));
    assert_eq!(0, trim_end_index(&chars, 0, 3));
    assert_eq!(2, trim_end_index(&chars, 2, 3));
    assert_eq!(3, trim_start_index(&chars, 0, 3));
    assert_eq!(5, trim_start_index(&chars, 4, 6));
    assert_eq!(chars.len(), trim_start_index(&chars, 6, chars.len()));
}

#[test]
fn find_char_gives_the_first_occurrence() {
    let chars = to_chars("a:b:c");
    assert_eq!(1, find_char(&chars, 0, chars.len(), ':'));
    assert_eq!(3, find_char(&chars, 2, chars.len(), ':'));
    assert_eq!(5, find_char(&chars, 4, chars.len(), ':'));
    assert_eq!(1, find_char(&chars, 0, 1, ':'));
    assert_eq!(0, find_char(&chars, 0, 0, 'a'));
}

#[test]
fn range_is_compares_whole_ranges() {
    let chars = to_chars("#.font:x");
    assert!(range_is(&chars, 2, 6, "font"));
    assert!(!range_is(&chars, 2, 5, "font"));
    assert!(!range_is(&chars, 2, 7, "font"));
    assert!(!range_is(&chars, 2, 6, "fond"));
    assert!(range_is(&chars, 3, 3, ""));
    assert!(!range_is(&chars, 3, 4, ""));
}
