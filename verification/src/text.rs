//! Text as the console collaborators need it: the first line of what was
//! typed, that line without the blanks around it, and the integer it spells.
//!
//! Cutting off the first line is proved here. Trimming and reading an
//! integer are left to the standard library; this module gives their results
//! a name, and the contracts of the crate speak of those names.

use vstd::prelude::*;
use vstd::string::*;

verus! {

/// The mark that ends a line.
pub const LINE_FEED: char = '\n';

/// The index of the first line feed at or after `from`, or the length of the
/// text if there is none.
pub open spec fn line_end(text: Seq<char>, from: int) -> int
    decreases text.len() - from,
{
    if from < 0 || from >= text.len() || text[from] == LINE_FEED {
        from
    } else {
        line_end(text, from + 1)
    }
}

/// The text before the first line feed: all of it, if it holds none.
pub open spec fn first_line_of(text: Seq<char>) -> Seq<char> {
    text.subrange(0, line_end(text, 0))
}

/// What `str::trim` returns for a text with these characters: the text
/// without the white space at its start and at its end.
pub uninterp spec fn trimmed(text: Seq<char>) -> Seq<char>;

/// What `str::parse::<i64>` returns for a text with these characters: the
/// number that the text spells in decimal digits, or `None` where it spells
/// none that an `i64` holds.
pub uninterp spec fn parsed_int(text: Seq<char>) -> Option<i64>;

/// The integer that a typed text stands for: that of its first line, without
/// the blanks around it.
pub open spec fn typed_int(text: Seq<char>) -> Option<i64> {
    parsed_int(trimmed(first_line_of(text)))
}

/// `String::push` appends one character to the end of the string.
pub assume_specification[ String::push ](text: &mut String, ch: char)
    ensures
        final(text)@ == old(text)@.push(ch),
;

/// Calls `str::trim`, which returns the slice between the leading and the
/// trailing white space. Nothing is claimed of the result but that it is
/// the same for the same characters.
#[verifier::external_body]
pub(crate) fn trim(text: &str) -> (inner: &str)
    ensures
        inner@ == trimmed(text@),
{
    text.trim()
}

/// Calls `str::parse::<i64>` and keeps the number where the call succeeds.
/// Nothing is claimed of the result but that it is the same for the same
/// characters.
#[verifier::external_body]
pub(crate) fn parse_int(text: &str) -> (number: Option<i64>)
    ensures
        number == parsed_int(text@),
{
    text.parse::<i64>().ok()
}

/// The first line of `text`, without the line feed that ends it. A text
/// without a line feed is its own first line.
pub fn first_line(text: &str) -> (line: String)
    ensures
        line@ == first_line_of(text@),
{
    let length: usize = text.unicode_len();
    let mut end: usize = 0;
    while end < length && text.get_char(end) != LINE_FEED
        invariant
            end <= length == text@.len(),
            line_end(text@, 0) == line_end(text@, end as int),
        decreases length - end,
    {
        end += 1;
    }
    String::from_str(text.substring_char(0, end))
}

/// The integer that `line` spells once the blanks around it are gone.
pub fn read_int(line: &str) -> (number: Option<i64>)
    ensures
        number == parsed_int(trimmed(line@)),
{
    parse_int(trim(line))
}

} // verus!
