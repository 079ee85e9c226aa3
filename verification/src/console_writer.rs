//! Where the console's output goes.

use vstd::prelude::*;

verus! {

/// A sink for printed text. Printing returns a new writer and leaves this
/// one as it was.
#[derive(Debug, PartialEq, Eq)]
pub enum ConsoleWriter {
    /// Keeps the text that was printed last, so that it can be read back.
    MockWriter { printed_str: String },
    /// Stands for the terminal. It keeps nothing: the front end shows the
    /// text itself.
    RealWriter,
}

impl ConsoleWriter {
    /// The text that can be read back from the writer.
    pub open spec fn view(&self) -> Seq<char> {
        match self {
            ConsoleWriter::MockWriter { printed_str } => printed_str@,
            ConsoleWriter::RealWriter => Seq::empty(),
        }
    }

    /// The text that was printed last; nothing for the terminal.
    pub fn get_printed_str(&self) -> (printed: String)
        ensures
            printed@ == self@,
    {
        match self {
            ConsoleWriter::MockWriter { printed_str } => printed_str.clone(),
            ConsoleWriter::RealWriter => String::new(),
        }
    }

    /// The writer after `str_to_print` was printed: one that keeps text now
    /// keeps this text, and the terminal stays the terminal.
    pub fn println(&self, str_to_print: String) -> (writer: ConsoleWriter)
        ensures
            writer == match *self {
                ConsoleWriter::MockWriter { printed_str } => ConsoleWriter::MockWriter {
                    printed_str: str_to_print,
                },
                ConsoleWriter::RealWriter => ConsoleWriter::RealWriter,
            },
    {
        match self {
            ConsoleWriter::MockWriter { printed_str: _ } => ConsoleWriter::MockWriter {
                printed_str: str_to_print,
            },
            ConsoleWriter::RealWriter => ConsoleWriter::RealWriter,
        }
    }
}

impl Clone for ConsoleWriter {
    /// A writer that keeps the same text.
    fn clone(&self) -> (copy: ConsoleWriter)
        ensures
            copy == *self,
    {
        match self {
            ConsoleWriter::MockWriter { printed_str } => ConsoleWriter::MockWriter {
                printed_str: printed_str.clone(),
            },
            ConsoleWriter::RealWriter => ConsoleWriter::RealWriter,
        }
    }
}

} // verus!
