//! Reading an integer from what a player typed.

use vstd::prelude::*;
use crate::console_reader::ConsoleReader;
use crate::text::{read_int, typed_int};

verus! {

/// The input side of the console: a reader, and the integer on its line.
#[derive(Debug, PartialEq, Eq)]
pub struct ConsoleInput {
    pub reader: ConsoleReader,
}

impl ConsoleInput {
    /// The input that reads from `input`.
    pub fn new(input: ConsoleReader) -> (console: ConsoleInput)
        ensures
            console.reader == input,
    {
        ConsoleInput { reader: input }
    }

    /// The integer on the reader's line, blanks around it aside; `None`
    /// where the line spells no integer.
    pub fn get_int(&self) -> (number: Option<i64>)
        ensures
            number == typed_int(self.reader@),
    {
        let input = self.reader.read_line();
        read_int(input.as_str())
    }

    /// An input over a copy of the reader.
    pub fn clone(&self) -> (copy: ConsoleInput)
        ensures
            copy == *self,
    {
        ConsoleInput::new(self.reader.clone())
    }
}

} // verus!
