//! Derives a window title from the first text slide of a presentation.

use vstd::prelude::*;
use crate::presentation::{slides_view, Presentation, Slide, SlideView};
use crate::text::{
    find_char,
    index_of,
    push_range,
    split_lines,
    string_from_range,
    to_chars,
    trim,
    trim_end_index,
    trim_start_index,
};

verus! {

/// The longest title, in characters, the ellipsis included.
pub const MAXIMUM_TITLE_LENGTH: usize = 64;

/// The mark that ends a shortened title.
pub const ELLIPSIS: char = '\u{2026}';

/// The lines of a text: the segments between its line feeds, without the
/// empty segment that follows a final line feed. An empty text has no line.
pub open spec fn text_lines(text: Seq<char>) -> Seq<Seq<char>> {
    let segments = split_lines(text);
    if segments.last().len() == 0 {
        segments.drop_last()
    } else {
        segments
    }
}

/// `joined`, followed by each of `lines` without its surrounding whitespace.
/// A single space goes before every line that is added to a text which is
/// not empty.
pub open spec fn join_trimmed(joined: Seq<char>, lines: Seq<Seq<char>>) -> Seq<char>
    decreases lines.len(),
{
    if lines.len() == 0 {
        joined
    } else {
        let line = trim(lines.first());
        let longer = if joined.len() > 0 {
            joined.push(' ') + line
        } else {
            line
        };
        join_trimmed(longer, lines.drop_first())
    }
}

/// The first `maximum_chars` characters of `text`, or all of it where it has
/// no more.
pub open spec fn truncated(text: Seq<char>, maximum_chars: nat) -> Seq<char> {
    if text.len() > maximum_chars {
        text.subrange(0, maximum_chars as int)
    } else {
        text
    }
}

/// `title`, cut to one character less than [`MAXIMUM_TITLE_LENGTH`] and
/// closed by an ellipsis where it was longer.
pub open spec fn shortened(title: Seq<char>) -> Seq<char> {
    if title.len() > MAXIMUM_TITLE_LENGTH - 1 {
        truncated(title, (MAXIMUM_TITLE_LENGTH - 1) as nat).push(ELLIPSIS)
    } else {
        title
    }
}

/// The title that a slide text gives: its lines on one line, shortened.
pub open spec fn title_of_text(text: Seq<char>) -> Seq<char> {
    shortened(join_trimmed(Seq::empty(), text_lines(text)))
}

/// The text of the first text slide, if there is one.
pub open spec fn first_text(slides: Seq<SlideView>) -> Option<Seq<char>>
    decreases slides.len(),
{
    if slides.len() == 0 {
        None
    } else {
        match slides.first() {
            SlideView::Text(text) => Some(text),
            _ => first_text(slides.drop_first()),
        }
    }
}

/// The title of a slide sequence: that of its first text slide.
pub open spec fn title_of(slides: Seq<SlideView>) -> Option<Seq<char>> {
    match first_text(slides) {
        Some(text) => Some(title_of_text(text)),
        None => None,
    }
}

/// Cuts `string` to its first `maximum_chars` characters, never inside a
/// character, and tells whether anything was cut off.
pub fn char_truncate(string: &mut String, maximum_chars: usize) -> (cut: bool)
    ensures
        cut == (old(string)@.len() > maximum_chars),
        final(string)@ == truncated(old(string)@, maximum_chars as nat),
{
    let chars = to_chars(string.as_str());
    if chars.len() > maximum_chars {
        *string = string_from_range(&chars, 0, maximum_chars);
        true
    } else {
        false
    }
}

proof fn lemma_text_lines_unfold(text: Seq<char>)
    requires
        text.len() > 0,
    ensures
        ({
            let n = index_of(text, '\n') as int;
            text_lines(text) == if n >= text.len() {
                seq![text]
            } else {
                seq![text.subrange(0, n)] + text_lines(text.subrange(n + 1, text.len() as int))
            }
        }),
{
    let n = index_of(text, '\n') as int;
    if n < text.len() {
        let head = seq![text.subrange(0, n)];
        let tail = split_lines(text.subrange(n + 1, text.len() as int));
        assert(tail.len() >= 1);
        assert((head + tail).last() == tail.last());
        assert((head + tail).drop_last() =~= head + tail.drop_last());
    }
}

/// A title never has more than [`MAXIMUM_TITLE_LENGTH`] characters.
pub proof fn lemma_title_is_short(text: Seq<char>)
    ensures
        title_of_text(text).len() <= MAXIMUM_TITLE_LENGTH,
{
}

/// A text whose lines, joined, have fewer than [`MAXIMUM_TITLE_LENGTH`]
/// characters is its own title, whole and without an ellipsis.
pub proof fn lemma_short_title_is_whole(text: Seq<char>)
    requires
        join_trimmed(Seq::empty(), text_lines(text)).len() < MAXIMUM_TITLE_LENGTH,
    ensures
        title_of_text(text) == join_trimmed(Seq::empty(), text_lines(text)),
{
}

/// Joins the lines of a slide text and shortens the result.
pub fn derive_title(text: &str) -> (title: String)
    ensures
        title@ == title_of_text(text@),
        title@.len() <= MAXIMUM_TITLE_LENGTH,
{
    let chars = to_chars(text);
    let length = chars.len();
    let mut title = String::new();
    let mut position: usize = 0;
    assert(chars@.subrange(0, length as int) == text@);
    while position < length
        invariant
            position <= length,
            length == chars.len(),
            join_trimmed(title@, text_lines(chars@.subrange(position as int, length as int)))
                == join_trimmed(Seq::empty(), text_lines(text@)),
        decreases length - position,
    {
        let ghost rest = chars@.subrange(position as int, length as int);
        let ghost lines = text_lines(rest);
        proof {
            lemma_text_lines_unfold(rest);
        }
        let line_end = find_char(&chars, position, length, '\n');
        let last = trim_end_index(&chars, position, line_end);
        let first = trim_start_index(&chars, position, last);
        assert(rest.subrange(0, line_end - position) == chars@.subrange(
            position as int,
            line_end as int,
        ));
        assert(chars@.subrange(first as int, last as int) == trim(lines.first()));
        if !title.as_str().is_empty() {
            title.push(' ');
        }
        push_range(&mut title, &chars, first, last);
        if line_end >= length {
            assert(lines.drop_first() =~= Seq::empty());
            position = length;
            assert(chars@.subrange(length as int, length as int).len() == 0);
            assert(split_lines(chars@.subrange(length as int, length as int)).len() == 1);
            assert(text_lines(chars@.subrange(length as int, length as int)) =~= Seq::empty());
        } else {
            assert(rest.subrange(line_end - position + 1, rest.len() as int) == chars@.subrange(
                line_end + 1,
                length as int,
            ));
            assert(lines.drop_first() =~= text_lines(
                chars@.subrange(line_end + 1, length as int),
            ));
            position = line_end + 1;
        }
    }
    assert(text_lines(chars@.subrange(length as int, length as int)) =~= Seq::empty()) by {
        assert(chars@.subrange(length as int, length as int).len() == 0);
        assert(split_lines(chars@.subrange(length as int, length as int)).len() == 1);
    }
    if char_truncate(&mut title, MAXIMUM_TITLE_LENGTH - 1) {
        title.push(ELLIPSIS);
    }
    title
}

impl Presentation {
    /// The title of the presentation: the text of its first text slide on
    /// one line, shortened to [`MAXIMUM_TITLE_LENGTH`] characters. A
    /// presentation without a text slide has none.
    pub fn try_get_title(&self) -> (title: Option<String>)
        ensures
            match title_of(self@.slides) {
                Some(expected) => title is Some && title->Some_0@ == expected,
                None => title is None,
            },
    {
        let ghost slides = slides_view(self.slides@);
        let mut index: usize = 0;
        assert(slides.subrange(0, slides.len() as int) == slides);
        while index < self.slides.len()
            invariant
                index <= self.slides.len(),
                slides == slides_view(self.slides@),
                first_text(slides.subrange(index as int, slides.len() as int)) == first_text(
                    slides,
                ),
            decreases self.slides.len() - index,
        {
            let ghost rest = slides.subrange(index as int, slides.len() as int);
            assert(rest.first() == self.slides@[index as int]@);
            assert(rest.drop_first() == slides.subrange(index + 1, slides.len() as int));
            match &self.slides[index] {
                Slide::Text(text) => {
                    return Some(derive_title(text.as_str()));
                },
                _ => {},
            }
            index += 1;
        }
        None
    }
}

} // verus!
