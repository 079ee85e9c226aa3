//! A source of typed lines for the all-in-one console.

use vstd::prelude::*;
use crate::text::{first_line, first_line_of};

verus! {

/// A source of typed lines. It holds the text; reading it changes nothing,
/// so every read gives the same line.
#[derive(Debug, PartialEq, Eq)]
pub enum IReader {
    /// Text that was written down beforehand.
    MockReader { str_in_stdin: String },
    /// Text that the front end has taken from the terminal.
    RealReader(String),
}

impl IReader {
    /// The text that the reader holds.
    pub open spec fn view(&self) -> Seq<char> {
        match self {
            IReader::MockReader { str_in_stdin } => str_in_stdin@,
            IReader::RealReader(typed) => typed@,
        }
    }

    /// The first line of the text, without the line feed that ends it; the
    /// empty line where the text is empty.
    pub fn read_line(&self) -> (line: String)
        ensures
            line@ == first_line_of(self@),
    {
        match self {
            IReader::MockReader { str_in_stdin } => self.fake_read_line(str_in_stdin.clone()),
            IReader::RealReader(typed) => first_line(typed.as_str()),
        }
    }

    /// The first line of `fake_input`.
    fn fake_read_line(&self, fake_input: String) -> (line: String)
        ensures
            line@ == first_line_of(fake_input@),
    {
        first_line(fake_input.as_str())
    }

    /// A reader over the same text.
    pub fn clone(&self) -> (copy: IReader)
        ensures
            copy == *self,
    {
        match self {
            IReader::MockReader { str_in_stdin } => IReader::MockReader {
                str_in_stdin: str_in_stdin.clone(),
            },
            IReader::RealReader(typed) => IReader::RealReader(typed.clone()),
        }
    }
}

} // verus!
