use breeze::presentation::{Presentation, Slide};
use breeze::title::{char_truncate, derive_title, ELLIPSIS, MAXIMUM_TITLE_LENGTH};

fn with_slides(slides: Vec<Slide>) -> Presentation {
    Presentation { slides, ..Presentation::default() }
}

#[test]
fn title_comes_from_the_first_text_slide() {
    let presentation = with_slides(vec![
        Slide::Empty,
        Slide::Image("a.png".to_owned()),
        Slide::Text("Second".to_owned()),
        Slide::Text("Third".to_owned()),
    ]);
    assert_eq!(Some("Second".to_owned()), presentation.try_get_title());
}

#[test]
fn no_text_slide_no_title() {
    assert_eq!(None, Presentation::default().try_get_title());
    assert_eq!(
        None,
        with_slides(vec![Slide::Image("a.png".to_owned()), Slide::Empty]).try_get_title()
    );
    assert_eq!(None, with_slides(vec![]).try_get_title());
}

#[test]
fn title_joins_trimmed_lines_with_spaces() {
    assert_eq!("one two three", derive_title("one\n  two  \n\tthree"));
    assert_eq!("one two", derive_title("one\r\ntwo\r\n"));
    assert_eq!("one two", derive_title("  one\ntwo\n"));
}

#[test]
fn title_of_blank_lines() {
    assert_eq!("", derive_title(""));
    assert_eq!("", derive_title("\n"));
    assert_eq!("", derive_title("   "));
    assert_eq!("a", derive_title("\n\na"));
    assert_eq!("a  b", derive_title("a\n\nb"));
    assert_eq!("a ", derive_title("a\n\n"));
}

#[test]
fn short_title_is_kept_whole() {
    let exact = "x".repeat(MAXIMUM_TITLE_LENGTH - 1);
    assert_eq!(exact, derive_title(&exact));
}

#[test]
fn long_title_is_cut_and_marked() {
    let long = "x".repeat(MAXIMUM_TITLE_LENGTH);
    let title = derive_title(&long);
    assert_eq!(format!("{}\u{2026}", "x".repeat(63)), title);
    assert_eq!(64, title.chars().count());
    let longer = "0123456789".repeat(10);
    assert_eq!(
        "012345678901234567890123456789012345678901234567890123456789012\u{2026}",
        derive_title(&longer)
    );
}

#[test]
fn title_is_cut_between_characters() {
    let long = "\u{e9}".repeat(70);
    let title = derive_title(&long);
    assert_eq!(format!("{}{}", "\u{e9}".repeat(63), ELLIPSIS), title);
    let mixed = format!("{}\u{1f600}\u{1f600}", "a".repeat(62));
    assert_eq!(format!("{}\u{1f600}\u{2026}", "a".repeat(62)), derive_title(&mixed));
}

#[test]
fn char_truncate_counts_characters() {
    let mut string = "h\u{e9}llo w\u{f6}rld".to_owned();
    assert!(char_truncate(&mut string, 4));
    assert_eq!("h\u{e9}ll", string);
    assert!(!char_truncate(&mut string, 4));
    assert_eq!("h\u{e9}ll", string);
    assert!(!char_truncate(&mut string, 100));
    assert_eq!("h\u{e9}ll", string);
    assert!(char_truncate(&mut string, 0));
    assert_eq!("", string);
    assert!(!char_truncate(&mut string, 0));
}

#[test]
fn title_constants() {
    assert_eq!(64, MAXIMUM_TITLE_LENGTH);
    assert_eq!('\u{2026}', ELLIPSIS);
}
