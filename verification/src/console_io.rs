//! The all-in-one console: it checks what a player typed against the cells
//! that are free, and it shows the board.

use vstd::prelude::*;
use vstd::string::*;
use crate::board::{cell_taken_message, holds, text_of, Board};
use crate::console_output::{
    flatten, grid, is_bottom_right_corner, is_right_edge, joined, printable_grid, printable_space,
    space_text,
};
use crate::mock_io::IReader;
use crate::text::{first_line_of, parsed_int, read_int, trimmed};

verus! {

/// What the console makes of a typed line: the move, or -1 and the reason
/// why the line names none.
#[derive(Debug, PartialEq, Eq)]
pub struct ParsedInput {
    pub chosen_move: i64,
    pub error_message: Option<String>,
}

/// What a player is told who typed no number from 0 to 8.
pub open spec fn not_a_cell_message() -> Seq<char> {
    "Please enter a number between 0 and 8."@
}

/// Whether `parsed` is what the console makes of the number `typed`: a
/// number from 0 to 8 that is among the `available_spaces` is the move; one
/// that is not among them is taken; anything else names no cell.
pub open spec fn is_parsed_input(
    typed: Option<i64>,
    available_spaces: Seq<i64>,
    parsed: ParsedInput,
) -> bool {
    match typed {
        Some(number) if 0 <= number <= 8 => is_checked_move(number, available_spaces, parsed),
        _ => parsed.chosen_move == -1 && text_of(parsed.error_message) == Some(
            not_a_cell_message(),
        ),
    }
}

/// Whether `parsed` is what the console makes of the move `input`: the move
/// itself if it is among the `available_spaces`, and a taken cell otherwise.
pub open spec fn is_checked_move(input: i64, available_spaces: Seq<i64>, parsed: ParsedInput) -> bool {
    if available_spaces.contains(input) {
        parsed.chosen_move == input && parsed.error_message is None
    } else {
        parsed.chosen_move == -1 && text_of(parsed.error_message) == Some(cell_taken_message())
    }
}

/// The console: a reader for what the player types.
#[derive(Debug, PartialEq, Eq)]
pub struct ConsoleIO {
    pub reader: IReader,
}

impl ConsoleIO {
    /// The console that reads from `input`.
    pub fn new(input: IReader) -> (console: ConsoleIO)
        ensures
            console.reader == input,
    {
        ConsoleIO { reader: input }
    }

    /// The move on the reader's line, if the line names one of the
    /// `available_spaces`; `None` where the player has to be asked again.
    pub fn get_move(&self, available_spaces: Vec<i64>) -> (chosen: Option<i64>)
        ensures
            match parsed_int(trimmed(first_line_of(self.reader@))) {
                Some(number) if 0 <= number <= 8 && available_spaces@.contains(number) => chosen
                    == Some(number),
                _ => chosen is None,
            },
    {
        let input = self.reader.read_line();
        let parsed_input = self.check_valid_input(input, available_spaces);
        if parsed_input.error_message.is_none() {
            Some(parsed_input.chosen_move)
        } else {
            None
        }
    }

    /// What the console makes of the typed `line`.
    pub fn check_valid_input(&self, line: String, available_spaces: Vec<i64>) -> (parsed:
        ParsedInput)
        ensures
            is_parsed_input(parsed_int(trimmed(line@)), available_spaces@, parsed),
    {
        self.check_parsed_input(read_int(line.as_str()), available_spaces)
    }

    /// What the console makes of the number `typed`, or of no number.
    pub fn check_parsed_input(&self, typed: Option<i64>, available_spaces: Vec<i64>) -> (parsed:
        ParsedInput)
        ensures
            is_parsed_input(typed, available_spaces@, parsed),
    {
        let input: i64 = match typed {
            Some(x) => x,
            None => -1,
        };
        if 0 <= input && input <= 8 {
            self.check_against_available_spaces(input, available_spaces)
        } else {
            ParsedInput {
                chosen_move: -1,
                error_message: Some(String::from_str("Please enter a number between 0 and 8.")),
            }
        }
    }

    /// What the console makes of the move `input`.
    pub fn check_against_available_spaces(&self, input: i64, available_spaces: Vec<i64>) -> (parsed:
        ParsedInput)
        ensures
            is_checked_move(input, available_spaces@, parsed),
    {
        if holds(&available_spaces, input) {
            ParsedInput { chosen_move: input, error_message: None }
        } else {
            ParsedInput {
                chosen_move: -1,
                error_message: Some(String::from_str("That space is already taken.")),
            }
        }
    }

    /// The text of the cell at `index` that holds `token`.
    pub fn printable_space(&self, index: i64, token: char) -> (text: String)
        ensures
            text@ == space_text(index as int, token),
    {
        printable_space(index, token)
    }

    /// The text of the nine cells of the board, without its message.
    pub fn printable_board(&self, board: Board) -> (text: String)
        ensures
            text@ == grid(board@),
    {
        printable_grid(&board)
    }

    /// Whether the cell at `index` ends a row.
    pub fn is_right_edge(&self, index: i64) -> (edge: bool)
        ensures
            edge == (index >= 0 && index % 3 == 2),
    {
        is_right_edge(index)
    }

    /// Whether the cell at `index` is the last one.
    pub fn is_bottom_right_corner(&self, index: i64) -> (corner: bool)
        ensures
            corner == (index == 8),
    {
        is_bottom_right_corner(index)
    }

    /// The texts one after the other.
    pub fn flatten(&self, arr: &[String]) -> (text: String)
        ensures
            text@ == joined(arr@, arr@.len() as int),
    {
        flatten(arr)
    }
}

} // verus!
