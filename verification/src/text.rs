//! Character-level helpers shared by the parser and the title deriver.
//!
//! Text is reasoned about as `Seq<char>`; the executable helpers work on a
//! decoded `Vec<char>` and on index ranges into it.

use vstd::prelude::*;
use vstd::std_specs::iter::IteratorSpec;

verus! {

/// Trusted, not proved: `String::push` of the standard library appends the
/// given character to the end of the string and leaves the rest as it was.
pub assume_specification[ String::push ](s: &mut String, ch: char)
    ensures
        final(s)@ == old(s)@.push(ch),
;

/// Whether `c` has the Unicode `White_Space` property.
pub open spec fn is_whitespace(c: char) -> bool {
    let code = c as u32;
    ||| 0x0009 <= code <= 0x000D
    ||| code == 0x0020
    ||| code == 0x0085
    ||| code == 0x00A0
    ||| code == 0x1680
    ||| 0x2000 <= code <= 0x200A
    ||| code == 0x2028
    ||| code == 0x2029
    ||| code == 0x202F
    ||| code == 0x205F
    ||| code == 0x3000
}

/// `s` without its trailing whitespace.
pub open spec fn trim_end(s: Seq<char>) -> Seq<char>
    decreases s.len(),
{
    if s.len() > 0 && is_whitespace(s.last()) {
        trim_end(s.drop_last())
    } else {
        s
    }
}

/// `s` without its leading whitespace.
pub open spec fn trim_start(s: Seq<char>) -> Seq<char>
    decreases s.len(),
{
    if s.len() > 0 && is_whitespace(s.first()) {
        trim_start(s.drop_first())
    } else {
        s
    }
}

/// `s` without its leading and trailing whitespace.
pub open spec fn trim(s: Seq<char>) -> Seq<char> {
    trim_start(trim_end(s))
}

/// The index of the first `c` in `s`, or `s.len()` where `s` holds none.
pub open spec fn index_of(s: Seq<char>, c: char) -> nat
    decreases s.len(),
{
    if s.len() == 0 || s.first() == c {
        0
    } else {
        1 + index_of(s.drop_first(), c)
    }
}

/// The segments of `s` that its line feeds separate. There is always at
/// least one segment, and a text that ends in a line feed ends in an empty
/// segment.
pub open spec fn split_lines(s: Seq<char>) -> Seq<Seq<char>>
    decreases s.len(),
{
    let n = index_of(s, '\n') as int;
    if n >= s.len() {
        seq![s]
    } else {
        seq![s.subrange(0, n)] + split_lines(s.subrange(n + 1, s.len() as int))
    }
}

/// The lines of `lines` written one after another, a line feed between
/// every two of them.
pub open spec fn join_lines(lines: Seq<Seq<char>>) -> Seq<char>
    decreases lines.len(),
{
    if lines.len() == 0 {
        Seq::empty()
    } else if lines.len() == 1 {
        lines.first()
    } else {
        lines.first().push('\n') + join_lines(lines.drop_first())
    }
}

/// `trim_end` cuts off a run of whitespace and nothing else: what is left
/// is a prefix of `s` that does not end in whitespace, and every character
/// after it is whitespace.
pub proof fn lemma_trim_end_cuts_whitespace(s: Seq<char>)
    ensures
        trim_end(s).len() <= s.len(),
        trim_end(s) == s.subrange(0, trim_end(s).len() as int),
        trim_end(s).len() > 0 ==> !is_whitespace(trim_end(s).last()),
        forall|i: int| trim_end(s).len() <= i < s.len() ==> is_whitespace(#[trigger] s[i]),
    decreases s.len(),
{
    if s.len() > 0 && is_whitespace(s.last()) {
        let rest = s.drop_last();
        lemma_trim_end_cuts_whitespace(rest);
        assert(rest.subrange(0, trim_end(rest).len() as int) == s.subrange(
            0,
            trim_end(rest).len() as int,
        ));
        assert forall|i: int| trim_end(s).len() <= i < s.len() implies is_whitespace(
            #[trigger] s[i],
        ) by {
            if i < rest.len() {
                assert(s[i] == rest[i]);
            }
        }
    } else {
        assert(s == s.subrange(0, s.len() as int));
    }
}

/// `trim_start` cuts off a run of whitespace and nothing else: what is left
/// is a suffix of `s` that does not begin with whitespace, and every
/// character before it is whitespace.
pub proof fn lemma_trim_start_cuts_whitespace(s: Seq<char>)
    ensures
        trim_start(s).len() <= s.len(),
        trim_start(s) == s.subrange(s.len() - trim_start(s).len(), s.len() as int),
        trim_start(s).len() > 0 ==> !is_whitespace(trim_start(s).first()),
        forall|i: int| 0 <= i < s.len() - trim_start(s).len() ==> is_whitespace(#[trigger] s[i]),
    decreases s.len(),
{
    if s.len() > 0 && is_whitespace(s.first()) {
        let rest = s.drop_first();
        lemma_trim_start_cuts_whitespace(rest);
        let kept = trim_start(rest).len();
        assert(rest.subrange(rest.len() - kept, rest.len() as int) == s.subrange(
            s.len() - kept,
            s.len() as int,
        ));
        assert forall|i: int| 0 <= i < s.len() - kept implies is_whitespace(#[trigger] s[i]) by {
            if i > 0 {
                assert(s[i] == rest[i - 1]);
            }
        }
    } else {
        assert(s == s.subrange(0, s.len() as int));
    }
}

/// `index_of` finds the first occurrence: no earlier character is `c`, and
/// the character at the index is `c` unless the index is the length.
pub proof fn lemma_index_of_is_first(s: Seq<char>, c: char)
    ensures
        index_of(s, c) <= s.len(),
        index_of(s, c) < s.len() ==> s[index_of(s, c) as int] == c,
        forall|i: int| 0 <= i < index_of(s, c) ==> #[trigger] s[i] != c,
    decreases s.len(),
{
    if s.len() > 0 && s.first() != c {
        let rest = s.drop_first();
        lemma_index_of_is_first(rest, c);
        assert forall|i: int| 0 <= i < index_of(s, c) implies #[trigger] s[i] != c by {
            if i > 0 {
                assert(s[i] == rest[i - 1]);
            }
        }
    }
}

/// Splitting loses nothing: no line holds a line feed, and the lines joined
/// by line feeds are the text again.
pub proof fn lemma_split_lines_round_trip(s: Seq<char>)
    ensures
        split_lines(s).len() >= 1,
        forall|k: int, i: int|
            0 <= k < split_lines(s).len() && 0 <= i < split_lines(s)[k].len() ==> (
            #[trigger] split_lines(s)[k][i]) != '\n',
        join_lines(split_lines(s)) == s,
    decreases s.len(),
{
    let n = index_of(s, '\n') as int;
    lemma_index_of_is_first(s, '\n');
    if n < s.len() {
        let head = s.subrange(0, n);
        let tail = s.subrange(n + 1, s.len() as int);
        lemma_split_lines_round_trip(tail);
        let lines = split_lines(s);
        assert(lines.first() == head);
        assert(lines.drop_first() == split_lines(tail));
        assert(head.push('\n') + tail == s);
        assert forall|k: int, i: int| 0 <= k < lines.len() && 0 <= i < lines[k].len() implies (
        #[trigger] lines[k][i]) != '\n' by {
            if k == 0 {
                assert(lines[0][i] == s[i]);
            } else {
                assert(lines[k] == split_lines(tail)[k - 1]);
            }
        }
    }
}

/// Decodes a string slice into its sequence of characters.
pub fn to_chars(s: &str) -> (chars: Vec<char>)
    ensures
        chars@ == s@,
{
    let mut chars: Vec<char> = Vec::new();
    for c in it: s.chars()
        invariant
            chars@ == it.seq().subrange(0, it.index() as int),
            it.seq() == s@,
    {
        chars.push(c);
    }
    chars
}

/// Executable form of [`is_whitespace`].
pub fn char_is_whitespace(c: char) -> (b: bool)
    ensures
        b == is_whitespace(c),
{
    let code: u32 = c as u32;
    (0x0009 <= code && code <= 0x000D) || code == 0x0020 || code == 0x0085 || code == 0x00A0
        || code == 0x1680 || (0x2000 <= code && code <= 0x200A) || code == 0x2028 || code
        == 0x2029 || code == 0x202F || code == 0x205F || code == 0x3000
}

/// Appends `chars[start..end]` to `out`.
pub fn push_range(out: &mut String, chars: &Vec<char>, start: usize, end: usize)
    requires
        start <= end <= chars.len(),
    ensures
        final(out)@ == old(out)@ + chars@.subrange(start as int, end as int),
{
    let mut i: usize = start;
    while i < end
        invariant
            start <= i <= end <= chars.len(),
            out@ == old(out)@ + chars@.subrange(start as int, i as int),
        decreases end - i,
    {
        out.push(chars[i]);
        i += 1;
    }
}

/// A fresh string holding `chars[start..end]`.
pub fn string_from_range(chars: &Vec<char>, start: usize, end: usize) -> (out: String)
    requires
        start <= end <= chars.len(),
    ensures
        out@ == chars@.subrange(start as int, end as int),
{
    let mut out = String::new();
    push_range(&mut out, chars, start, end);
    out
}

/// The end of `chars[start..end]` once trailing whitespace is dropped.
pub fn trim_end_index(chars: &Vec<char>, start: usize, end: usize) -> (new_end: usize)
    requires
        start <= end <= chars.len(),
    ensures
        start <= new_end <= end,
        chars@.subrange(start as int, new_end as int) == trim_end(
            chars@.subrange(start as int, end as int),
        ),
{
    let mut e: usize = end;
    while e > start && char_is_whitespace(chars[e - 1])
        invariant
            start <= e <= end <= chars.len(),
            trim_end(chars@.subrange(start as int, e as int)) == trim_end(
                chars@.subrange(start as int, end as int),
            ),
        decreases e,
    {
        assert(chars@.subrange(start as int, e as int).drop_last() == chars@.subrange(
            start as int,
            e - 1,
        ));
        e -= 1;
    }
    e
}

/// The start of `chars[start..end]` once leading whitespace is dropped.
pub fn trim_start_index(chars: &Vec<char>, start: usize, end: usize) -> (new_start: usize)
    requires
        start <= end <= chars.len(),
    ensures
        start <= new_start <= end,
        chars@.subrange(new_start as int, end as int) == trim_start(
            chars@.subrange(start as int, end as int),
        ),
{
    let mut b: usize = start;
    while b < end && char_is_whitespace(chars[b])
        invariant
            start <= b <= end <= chars.len(),
            trim_start(chars@.subrange(b as int, end as int)) == trim_start(
                chars@.subrange(start as int, end as int),
            ),
        decreases end - b,
    {
        assert(chars@.subrange(b as int, end as int).drop_first() == chars@.subrange(
            b + 1,
            end as int,
        ));
        b += 1;
    }
    b
}

/// The index of the first `c` in `chars[start..end]`, or `end` where there
/// is none.
pub fn find_char(chars: &Vec<char>, start: usize, end: usize, c: char) -> (index: usize)
    requires
        start <= end <= chars.len(),
    ensures
        start <= index <= end,
        index - start == index_of(chars@.subrange(start as int, end as int), c),
{
    let mut i: usize = start;
    while i < end && chars[i] != c
        invariant
            start <= i <= end <= chars.len(),
            index_of(chars@.subrange(start as int, end as int), c) == (i - start) + index_of(
                chars@.subrange(i as int, end as int),
                c,
            ),
        decreases end - i,
    {
        assert(chars@.subrange(i as int, end as int).drop_first() == chars@.subrange(
            i + 1,
            end as int,
        ));
        i += 1;
    }
    i
}

/// Whether `chars[start..end]` spells `word`.
pub fn range_is(chars: &Vec<char>, start: usize, end: usize, word: &str) -> (same: bool)
    requires
        start <= end <= chars.len(),
    ensures
        same == (chars@.subrange(start as int, end as int) == word@),
{
    let letters = to_chars(word);
    let ghost text = chars@.subrange(start as int, end as int);
    if end - start != letters.len() {
        return false;
    }
    let mut i: usize = 0;
    while i < letters.len()
        invariant
            start <= end <= chars.len(),
            end - start == letters.len(),
            i <= letters.len(),
            letters@ == word@,
            text == chars@.subrange(start as int, end as int),
            text.subrange(0, i as int) == letters@.subrange(0, i as int),
        decreases letters.len() - i,
    {
        if chars[start + i] != letters[i] {
            assert(text[i as int] != letters@[i as int]);
            return false;
        }
        assert(text.subrange(0, i + 1) == text.subrange(0, i as int).push(text[i as int]));
        assert(letters@.subrange(0, i + 1) == letters@.subrange(0, i as int).push(
            letters@[i as int],
        ));
        i += 1;
    }
    assert(text == text.subrange(0, text.len() as int));
    assert(letters@ == letters@.subrange(0, letters.len() as int));
    true
}

} // verus!
