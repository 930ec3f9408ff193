//! The presentation model and the parser for its plain-text source format.
//!
//! A document is read line by line, each line without its trailing
//! whitespace. Blank lines separate paragraphs, `#.key:value` lines set
//! options, other `#` lines are comments, `@path` at the start of a paragraph
//! is an image slide, and a leading `\` takes the rest of a line literally.

use vstd::prelude::*;
use vstd::std_specs::convert::FromSpecImpl;
use vstd::string::StringExecFns;
use crate::codec::{bool_of, colour_of, parse_bool_in, parse_colour_in, SrgbColour};
use crate::text::{
    find_char,
    index_of,
    push_range,
    range_is,
    split_lines,
    string_from_range,
    to_chars,
    trim_end,
    trim_end_index,
};

verus! {

/// One displayable unit of a presentation.
#[derive(Clone, Debug, Eq, PartialEq)]
pub enum Slide {
    /// A paragraph of text; its lines are joined by line feeds.
    Text(String),
    /// The path of an image.
    Image(String),
    /// A blank slide.
    Empty,
}

/// The mathematical value of a [`Slide`].
pub enum SlideView {
    Text(Seq<char>),
    Image(Seq<char>),
    Empty,
}

impl View for Slide {
    type V = SlideView;

    open spec fn view(&self) -> SlideView {
        match self {
            Slide::Text(text) => SlideView::Text(text@),
            Slide::Image(path) => SlideView::Image(path@),
            Slide::Empty => SlideView::Empty,
        }
    }
}

/// A parsed presentation: its display options and its slides in document
/// order.
#[derive(Clone, Debug, PartialEq)]
pub struct Presentation {
    /// Font names, first choice first.
    pub font_list: Vec<String>,
    pub foreground_colour: Option<SrgbColour>,
    pub background_colour: Option<SrgbColour>,
    pub show_cursor: Option<bool>,
    pub slides: Vec<Slide>,
}

/// The mathematical value of a [`Presentation`].
pub struct PresentationView {
    pub font_list: Seq<Seq<char>>,
    pub foreground_colour: Option<SrgbColour>,
    pub background_colour: Option<SrgbColour>,
    pub show_cursor: Option<bool>,
    pub slides: Seq<SlideView>,
}

/// The values of a sequence of strings.
pub open spec fn strings_view(strings: Seq<String>) -> Seq<Seq<char>> {
    Seq::new(strings.len(), |i: int| strings[i]@)
}

/// The values of a sequence of slides.
pub open spec fn slides_view(slides: Seq<Slide>) -> Seq<SlideView> {
    Seq::new(slides.len(), |i: int| slides[i]@)
}

impl View for Presentation {
    type V = PresentationView;

    open spec fn view(&self) -> PresentationView {
        PresentationView {
            font_list: strings_view(self.font_list@),
            foreground_colour: self.foreground_colour,
            background_colour: self.background_colour,
            show_cursor: self.show_cursor,
            slides: slides_view(self.slides@),
        }
    }
}

/// What the parser remembers between two lines.
pub struct ParserState {
    pub font_list: Seq<Seq<char>>,
    pub foreground_colour: Option<SrgbColour>,
    pub background_colour: Option<SrgbColour>,
    pub show_cursor: Option<bool>,
    /// The slides emitted so far.
    pub slides: Seq<SlideView>,
    /// The lines of the paragraph that is being read.
    pub paragraph: Seq<char>,
    /// Whether the rest of the current paragraph is to be discarded.
    pub skipping: bool,
}

/// The state before the first line.
pub open spec fn initial_state() -> ParserState {
    ParserState {
        font_list: Seq::empty(),
        foreground_colour: None,
        background_colour: None,
        show_cursor: None,
        slides: Seq::empty(),
        paragraph: Seq::empty(),
        skipping: false,
    }
}

/// The failure for a `fg` option whose value is no colour.
pub open spec fn invalid_foreground_message(value: Seq<char>) -> Seq<char> {
    "foreground colour \""@ + value + "\" is not valid!"@
}

/// The failure for a `bg` option whose value is no colour.
pub open spec fn invalid_background_message(value: Seq<char>) -> Seq<char> {
    "background colour \""@ + value + "\" is not valid!"@
}

/// The failure for a `cursor` option whose value is no boolean.
pub open spec fn invalid_cursor_message(value: Seq<char>) -> Seq<char> {
    "show cursor value \""@ + value + "\" is not valid!\nit must be \"true\" or \"false\""@
}

/// Whether `line` begins with the two-character option marker.
pub open spec fn is_option_line(line: Seq<char>) -> bool {
    line.len() >= 2 && line[0] == '#' && line[1] == '.'
}

/// The effect of an option line whose text after the marker is `body`.
///
/// The body is split at its first `:` into a key and a value; a body
/// without one, and an unknown key, change nothing. `font` may repeat; of
/// `fg`, `bg` and `cursor` only the first occurrence is read, and it fails
/// where its value is malformed.
pub open spec fn apply_option(state: ParserState, body: Seq<char>) -> Result<
    ParserState,
    Seq<char>,
> {
    let split = index_of(body, ':') as int;
    if split >= body.len() {
        Ok(state)
    } else {
        let key = body.subrange(0, split);
        let value = body.subrange(split + 1, body.len() as int);
        if key == "font"@ {
            Ok(ParserState { font_list: state.font_list.push(value), ..state })
        } else if key == "fg"@ {
            if state.foreground_colour is Some {
                Ok(state)
            } else {
                match colour_of(value) {
                    Some(colour) => Ok(ParserState { foreground_colour: Some(colour), ..state }),
                    None => Err(invalid_foreground_message(value)),
                }
            }
        } else if key == "bg"@ {
            if state.background_colour is Some {
                Ok(state)
            } else {
                match colour_of(value) {
                    Some(colour) => Ok(ParserState { background_colour: Some(colour), ..state }),
                    None => Err(invalid_background_message(value)),
                }
            }
        } else if key == "cursor"@ {
            if state.show_cursor is Some {
                Ok(state)
            } else {
                match bool_of(value) {
                    Some(show) => Ok(ParserState { show_cursor: Some(show), ..state }),
                    None => Err(invalid_cursor_message(value)),
                }
            }
        } else {
            Ok(state)
        }
    }
}

/// The slides of `state` once the open paragraph, if any, is emitted.
pub open spec fn closed_slides(state: ParserState) -> Seq<SlideView> {
    if state.paragraph.len() > 0 {
        state.slides.push(SlideView::Text(state.paragraph))
    } else {
        state.slides
    }
}

/// The effect of one line, already without its trailing whitespace.
pub open spec fn step(state: ParserState, line: Seq<char>) -> Result<ParserState, Seq<char>> {
    if line.len() == 0 {
        Ok(
            ParserState {
                slides: closed_slides(state),
                paragraph: Seq::empty(),
                skipping: false,
                ..state
            },
        )
    } else if is_option_line(line) {
        apply_option(state, line.subrange(2, line.len() as int))
    } else if line[0] == '#' || state.skipping {
        Ok(state)
    } else if state.paragraph.len() == 0 && line[0] == '@' {
        Ok(
            ParserState {
                slides: state.slides.push(SlideView::Image(line.subrange(1, line.len() as int))),
                skipping: true,
                ..state
            },
        )
    } else {
        let content = if line[0] == '\\' {
            line.subrange(1, line.len() as int)
        } else {
            line
        };
        if content.len() > 0 {
            let paragraph = if state.paragraph.len() > 0 {
                state.paragraph.push('\n') + content
            } else {
                content
            };
            Ok(ParserState { paragraph, ..state })
        } else if state.paragraph.len() == 0 {
            Ok(ParserState { slides: state.slides.push(SlideView::Empty), skipping: true, ..state })
        } else {
            Ok(state)
        }
    }
}

/// The effect of a run of raw lines, read in order up to the first failure.
pub open spec fn run(state: ParserState, lines: Seq<Seq<char>>) -> Result<ParserState, Seq<char>>
    decreases lines.len(),
{
    if lines.len() == 0 {
        Ok(state)
    } else {
        match step(state, trim_end(lines.first())) {
            Ok(next) => run(next, lines.drop_first()),
            Err(message) => Err(message),
        }
    }
}

/// The presentation that the state after the last line stands for: the open
/// paragraph is emitted, and a presentation without any slide gets a blank
/// one.
pub open spec fn finish(state: ParserState) -> PresentationView {
    let slides = closed_slides(state);
    PresentationView {
        font_list: state.font_list,
        foreground_colour: state.foreground_colour,
        background_colour: state.background_colour,
        show_cursor: state.show_cursor,
        slides: if slides.len() == 0 {
            seq![SlideView::Empty]
        } else {
            slides
        },
    }
}

/// The presentation that a source text describes, or the failure of its
/// first malformed option.
pub open spec fn parse(text: Seq<char>) -> Result<PresentationView, Seq<char>> {
    match run(initial_state(), split_lines(text)) {
        Ok(state) => Ok(finish(state)),
        Err(message) => Err(message),
    }
}

/// The presentation of an empty document: no option set, one blank slide.
pub open spec fn blank_presentation() -> PresentationView {
    finish(initial_state())
}

/// The presentation that shows `text` as its only slide.
pub open spec fn single_text_presentation(text: Seq<char>) -> PresentationView {
    PresentationView { slides: seq![SlideView::Text(text)], ..blank_presentation() }
}

/// Whether `result` is what loading `text` must give.
pub open spec fn is_load_of(text: Seq<char>, result: Result<Presentation, String>) -> bool {
    match parse(text) {
        Ok(presentation) => result is Ok && result->Ok_0@ == presentation,
        Err(message) => result is Err && result->Err_0@ == message,
    }
}

struct Parser {
    font_list: Vec<String>,
    foreground_colour: Option<SrgbColour>,
    background_colour: Option<SrgbColour>,
    show_cursor: Option<bool>,
    slides: Vec<Slide>,
    current_paragraph: String,
    skip_remainder_of_paragraph: bool,
}

impl View for Parser {
    type V = ParserState;

    closed spec fn view(&self) -> ParserState {
        ParserState {
            font_list: strings_view(self.font_list@),
            foreground_colour: self.foreground_colour,
            background_colour: self.background_colour,
            show_cursor: self.show_cursor,
            slides: slides_view(self.slides@),
            paragraph: self.current_paragraph@,
            skipping: self.skip_remainder_of_paragraph,
        }
    }
}

fn quoted_message(
    before: &str,
    value: &Vec<char>,
    start: usize,
    end: usize,
    after: &str,
) -> (message: String)
    requires
        start <= end <= value.len(),
    ensures
        message@ == before@ + value@.subrange(start as int, end as int) + after@,
{
    let mut message = String::from_str(before);
    push_range(&mut message, value, start, end);
    message.append(after);
    message
}

impl Parser {
    fn new() -> (parser: Parser)
        ensures
            parser@ == initial_state(),
    {
        let parser = Parser {
            font_list: Vec::new(),
            foreground_colour: None,
            background_colour: None,
            show_cursor: None,
            slides: Vec::new(),
            current_paragraph: String::new(),
            skip_remainder_of_paragraph: false,
        };
        assert(parser@.font_list =~= Seq::empty());
        assert(parser@.slides =~= Seq::empty());
        parser
    }

    fn push_slide(&mut self, slide: Slide)
        ensures
            final(self)@ == (ParserState { slides: old(self)@.slides.push(slide@), ..old(self)@ }),
    {
        self.slides.push(slide);
        assert(slides_view(self.slides@) =~= slides_view(old(self).slides@).push(slide@));
    }

    fn close_paragraph(&mut self)
        ensures
            final(self)@ == (ParserState {
                slides: closed_slides(old(self)@),
                paragraph: Seq::empty(),
                ..old(self)@
            }),
    {
        if !self.current_paragraph.as_str().is_empty() {
            let mut paragraph = String::new();
            std::mem::swap(&mut paragraph, &mut self.current_paragraph);
            self.push_slide(Slide::Text(paragraph));
        }
        assert(self@.paragraph =~= Seq::empty());
    }

    fn apply_option(&mut self, chars: &Vec<char>, start: usize, end: usize) -> (result: Result<
        (),
        String,
    >)
        requires
            start <= end <= chars.len(),
        ensures
            match apply_option(old(self)@, chars@.subrange(start as int, end as int)) {
                Ok(next) => result is Ok && final(self)@ == next,
                Err(message) => result is Err && result->Err_0@ == message,
            },
    {
        let ghost body = chars@.subrange(start as int, end as int);
        let split = find_char(chars, start, end, ':');
        if split >= end {
            return Ok(());
        }
        let ghost value = body.subrange(split - start + 1, body.len() as int);
        assert(body.subrange(0, split - start) == chars@.subrange(start as int, split as int));
        assert(value == chars@.subrange(split + 1, end as int));
        if range_is(chars, start, split, "font") {
            let font = string_from_range(chars, split + 1, end);
            self.font_list.push(font);
            assert(strings_view(self.font_list@) =~= strings_view(old(self).font_list@).push(
                value,
            ));
        } else if range_is(chars, start, split, "fg") {
            if self.foreground_colour.is_none() {
                match parse_colour_in(chars, split + 1, end) {
                    Some(colour) => {
                        self.foreground_colour = Some(colour);
                    },
                    None => {
                        return Err(
                            quoted_message(
                                "foreground colour \"",
                                chars,
                                split + 1,
                                end,
                                "\" is not valid!",
                            ),
                        );
                    },
                }
            }
        } else if range_is(chars, start, split, "bg") {
            if self.background_colour.is_none() {
                match parse_colour_in(chars, split + 1, end) {
                    Some(colour) => {
                        self.background_colour = Some(colour);
                    },
                    None => {
                        return Err(
                            quoted_message(
                                "background colour \"",
                                chars,
                                split + 1,
                                end,
                                "\" is not valid!",
                            ),
                        );
                    },
                }
            }
        } else if range_is(chars, start, split, "cursor") {
            if self.show_cursor.is_none() {
                match parse_bool_in(chars, split + 1, end) {
                    Some(show) => {
                        self.show_cursor = Some(show);
                    },
                    None => {
                        return Err(
                            quoted_message(
                                "show cursor value \"",
                                chars,
                                split + 1,
                                end,
                                "\" is not valid!\nit must be \"true\" or \"false\"",
                            ),
                        );
                    },
                }
            }
        }
        Ok(())
    }

    /// Reads the line `chars[start..end]`, which has no trailing whitespace.
    fn read_line(&mut self, chars: &Vec<char>, start: usize, end: usize) -> (result: Result<
        (),
        String,
    >)
        requires
            start <= end <= chars.len(),
        ensures
            match step(old(self)@, chars@.subrange(start as int, end as int)) {
                Ok(next) => result is Ok && final(self)@ == next,
                Err(message) => result is Err && result->Err_0@ == message,
            },
    {
        let ghost line = chars@.subrange(start as int, end as int);
        if start == end {
            self.close_paragraph();
            self.skip_remainder_of_paragraph = false;
            return Ok(());
        }
        if end - start >= 2 && chars[start] == '#' && chars[start + 1] == '.' {
            assert(line.subrange(2, line.len() as int) == chars@.subrange(start + 2, end as int));
            return self.apply_option(chars, start + 2, end);
        }
        if chars[start] == '#' || self.skip_remainder_of_paragraph {
            return Ok(());
        }
        if self.current_paragraph.as_str().is_empty() && chars[start] == '@' {
            assert(line.subrange(1, line.len() as int) == chars@.subrange(start + 1, end as int));
            let path = string_from_range(chars, start + 1, end);
            self.push_slide(Slide::Image(path));
            self.skip_remainder_of_paragraph = true;
            return Ok(());
        }
        let content_start = if chars[start] == '\\' {
            assert(line.subrange(1, line.len() as int) == chars@.subrange(start + 1, end as int));
            start + 1
        } else {
            start
        };
        if content_start == end {
            if self.current_paragraph.as_str().is_empty() {
                self.push_slide(Slide::Empty);
                self.skip_remainder_of_paragraph = true;
            }
            return Ok(());
        }
        if !self.current_paragraph.as_str().is_empty() {
            self.current_paragraph.push('\n');
        }
        push_range(&mut self.current_paragraph, chars, content_start, end);
        assert(self@.paragraph =~= step(old(self)@, line)->Ok_0.paragraph);
        Ok(())
    }

    fn finish(self) -> (presentation: Presentation)
        ensures
            presentation@ == finish(self@),
            presentation.well_formed(),
    {
        let mut parser = self;
        parser.close_paragraph();
        if parser.slides.len() == 0 {
            parser.slides.push(Slide::Empty);
            assert(slides_view(parser.slides@) =~= seq![SlideView::Empty]);
        }
        Presentation {
            font_list: parser.font_list,
            foreground_colour: parser.foreground_colour,
            background_colour: parser.background_colour,
            show_cursor: parser.show_cursor,
            slides: parser.slides,
        }
    }
}

impl Presentation {
    /// Every presentation that the parser builds has at least one slide.
    pub open spec fn well_formed(&self) -> bool {
        self.slides@.len() >= 1
    }

    /// Parses the source text of a presentation.
    ///
    /// Fails on the first `fg`, `bg` or `cursor` option whose value is
    /// malformed, with a message that quotes the value; every other text
    /// gives a presentation.
    pub fn load(contents: &str) -> (result: Result<Presentation, String>)
        ensures
            is_load_of(contents@, result),
            result matches Ok(presentation) ==> presentation.well_formed(),
    {
        let chars = to_chars(contents);
        let length = chars.len();
        let mut parser = Parser::new();
        let mut position: usize = 0;
        assert(chars@.subrange(0, length as int) == contents@);
        loop
            invariant_except_break
                position <= length,
                run(parser@, split_lines(chars@.subrange(position as int, length as int))) == run(
                    initial_state(),
                    split_lines(contents@),
                ),
            invariant
                length == chars.len(),
                chars@ == contents@,
            ensures
                run(initial_state(), split_lines(contents@)) == Ok::<ParserState, Seq<char>>(
                    parser@,
                ),
            decreases length - position,
        {
            let ghost rest = chars@.subrange(position as int, length as int);
            let line_end = find_char(&chars, position, length, '\n');
            let trimmed_end = trim_end_index(&chars, position, line_end);
            assert(rest.subrange(0, line_end - position) == chars@.subrange(
                position as int,
                line_end as int,
            ));
            let ghost before = parser@;
            let ghost lines = split_lines(rest);
            assert(lines.first() == chars@.subrange(position as int, line_end as int));
            match parser.read_line(&chars, position, trimmed_end) {
                Ok(()) => {},
                Err(message) => {
                    return Err(message);
                },
            }
            if line_end >= length {
                assert(lines.drop_first() =~= Seq::empty());
                assert(run(parser@, lines.drop_first()) == Ok::<ParserState, Seq<char>>(parser@));
                break ;
            }
            assert(rest.subrange(line_end - position + 1, rest.len() as int) == chars@.subrange(
                line_end + 1,
                length as int,
            ));
            assert(lines.drop_first() =~= split_lines(
                chars@.subrange(line_end + 1, length as int),
            ));
            position = line_end + 1;
        }
        Ok(parser.finish())
    }
}

impl Default for Presentation {
    /// The presentation of an empty document.
    fn default() -> (presentation: Presentation)
        ensures
            presentation@ == blank_presentation(),
            presentation.well_formed(),
    {
        Parser::new().finish()
    }
}

impl From<String> for Presentation {
    /// A presentation that shows `value` as its only slide.
    fn from(value: String) -> (presentation: Presentation)
        ensures
            presentation@ == single_text_presentation(value@),
            presentation.well_formed(),
    {
        let mut slides: Vec<Slide> = Vec::new();
        slides.push(Slide::Text(value));
        let font_list: Vec<String> = Vec::new();
        let presentation = Presentation {
            font_list,
            foreground_colour: None,
            background_colour: None,
            show_cursor: None,
            slides,
        };
        assert(presentation@.slides =~= seq![SlideView::Text(value@)]);
        assert(presentation@.font_list =~= Seq::empty());
        presentation
    }
}

impl FromSpecImpl<String> for Presentation {
    open spec fn obeys_from_spec() -> bool {
        false
    }

    open spec fn from_spec(value: String) -> Presentation {
        arbitrary()
    }
}

/// Parsing is a function of the source text: whatever two loads of one text
/// return, both succeed with equal presentations or both fail with equal
/// messages.
pub proof fn lemma_load_is_repeatable(
    text: Seq<char>,
    first: Result<Presentation, String>,
    second: Result<Presentation, String>,
)
    requires
        is_load_of(text, first),
        is_load_of(text, second),
    ensures
        first is Ok <==> second is Ok,
        first is Ok ==> first->Ok_0@ == second->Ok_0@,
        first is Err ==> first->Err_0@ == second->Err_0@,
{
}

/// Every text that parses, the empty one included, gives at least one slide.
pub proof fn lemma_parse_gives_a_slide(text: Seq<char>)
    ensures
        parse(text) matches Ok(presentation) ==> presentation.slides.len() >= 1,
{
}

/// A text fails to parse only through an option line: a text none of whose
/// lines begins with the option marker always gives a presentation.
pub proof fn lemma_run_without_options_succeeds(state: ParserState, lines: Seq<Seq<char>>)
    requires
        forall|i: int| 0 <= i < lines.len() ==> !is_option_line(trim_end(#[trigger] lines[i])),
    ensures
        run(state, lines) is Ok,
    decreases lines.len(),
{
    if lines.len() > 0 {
        let next = step(state, trim_end(lines.first()));
        assert(!is_option_line(trim_end(lines[0])));
        assert forall|i: int| 0 <= i < lines.drop_first().len() implies !is_option_line(
            trim_end(#[trigger] lines.drop_first()[i]),
        ) by {
            assert(lines.drop_first()[i] == lines[i + 1]);
        }
        lemma_run_without_options_succeeds(next->Ok_0, lines.drop_first());
    }
}

/// Whether no text slide among `slides` is empty.
pub open spec fn texts_are_filled(slides: Seq<SlideView>) -> bool {
    forall|i: int|
        0 <= i < slides.len() ==> (#[trigger] slides[i] matches SlideView::Text(text)
            ==> text.len() > 0)
}

proof fn lemma_run_keeps_texts_filled(state: ParserState, lines: Seq<Seq<char>>)
    requires
        texts_are_filled(state.slides),
    ensures
        run(state, lines) matches Ok(last) ==> texts_are_filled(last.slides),
    decreases lines.len(),
{
    if lines.len() > 0 {
        match step(state, trim_end(lines.first())) {
            Ok(next) => {
                assert(texts_are_filled(next.slides));
                lemma_run_keeps_texts_filled(next, lines.drop_first());
            },
            Err(_) => {},
        }
    }
}

/// A paragraph becomes a slide only if it holds text: no text slide of a
/// parsed presentation is empty.
pub proof fn lemma_text_slides_are_filled(text: Seq<char>)
    ensures
        parse(text) matches Ok(presentation) ==> texts_are_filled(presentation.slides),
{
    lemma_run_keeps_texts_filled(initial_state(), split_lines(text));
}

} // verus!
