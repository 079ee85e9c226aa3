//! The board, the menu and the messages as text.
//!
//! A cell is shown as its token between two blanks. Cells of a row are
//! parted by a bar, rows by a rule, and nothing follows the last cell:
//!
//! ```text
//!  x | o |
//! ---+---+---
//!    |   |
//! ---+---+---
//!    |   | x
//! ```

use vstd::prelude::*;
use vstd::string::*;
use crate::board::{text_of, Board, CELLS};
use crate::console_writer::ConsoleWriter;

verus! {

/// What stands behind the cell at `index`: nothing behind the last cell, a
/// rule behind the last cell of a row, a bar behind any other.
pub open spec fn grid_text(index: int) -> Seq<char> {
    if index == 8 {
        Seq::empty()
    } else if index >= 0 && index % 3 == 2 {
        "\n---+---+---\n"@
    } else {
        "|"@
    }
}

/// The text of the cell at `index` that holds `token`.
pub open spec fn space_text(index: int, token: char) -> Seq<char> {
    " "@.push(token) + " "@ + grid_text(index)
}

/// The text of the first `n` cells.
pub open spec fn cells_text(cells: Seq<char>, n: int) -> Seq<char>
    decreases n,
{
    if n <= 0 {
        Seq::empty()
    } else {
        cells_text(cells, n - 1) + space_text(n - 1, cells[n - 1])
    }
}

/// The text of all cells.
pub open spec fn grid(cells: Seq<char>) -> Seq<char> {
    cells_text(cells, cells.len() as int)
}

/// The first `n` texts, one after the other.
pub open spec fn joined(texts: Seq<String>, n: int) -> Seq<char>
    decreases n,
{
    if n <= 0 {
        Seq::empty()
    } else {
        joined(texts, n - 1) + texts[n - 1]@
    }
}

/// The text of a message below the board: two line feeds and the message,
/// or nothing where there is no message.
pub open spec fn error_text(error: Option<Seq<char>>) -> Seq<char> {
    match error {
        Some(message) => "\n\n"@ + message,
        None => Seq::empty(),
    }
}

/// The text of the menu.
pub open spec fn menu_text() -> Seq<char> {
    "Please select the game type:\n\n"@ + " 1) Human vs. Human\n"@ + " 2) Human vs. Computer\n"@
        + " 3) Computer vs. Human\n"@ + " 4) Computer vs. Computer\n"@ + " 5) Quit\n\n"@
}

/// The characters that clear a VT100 screen and move the cursor home.
pub open spec fn clear_text() -> Seq<char> {
    "\x1b[2J\x1b[H"@
}

/// Whether the cell at `index` ends a row.
pub fn is_right_edge(index: i64) -> (edge: bool)
    ensures
        edge == (index >= 0 && index % 3 == 2),
{
    index >= 0 && index % 3 == 2
}

/// Whether the cell at `index` is the last one.
pub fn is_bottom_right_corner(index: i64) -> (corner: bool)
    ensures
        corner == (index == 8),
{
    index == 8
}

/// The text of the cell at `index` that holds `token`.
pub fn printable_space(index: i64, token: char) -> (text: String)
    ensures
        text@ == space_text(index as int, token),
{
    let mut printable_token = String::from_str(" ");
    printable_token.push(token);
    printable_token.append(" ");
    let grid_output = if is_bottom_right_corner(index) {
        proof {
            reveal_strlit("");
        }
        ""
    } else if is_right_edge(index) {
        "\n---+---+---\n"
    } else {
        "|"
    };
    printable_token.append(grid_output);
    printable_token
}

/// The texts one after the other.
pub fn flatten(arr: &[String]) -> (text: String)
    ensures
        text@ == joined(arr@, arr@.len() as int),
{
    let board_size: usize = arr.len();
    let mut ans = String::new();
    let mut i: usize = 0;
    while i < board_size
        invariant
            i <= board_size == arr@.len(),
            ans@ == joined(arr@, i as int),
        decreases board_size - i,
    {
        ans.append(arr[i].as_str());
        i += 1;
    }
    ans
}

/// The text of the nine cells.
pub fn printable_grid(board: &Board) -> (text: String)
    ensures
        text@ == grid(board@),
{
    let cells = board.spaces();
    let mut spaces: Vec<String> = Vec::new();
    let mut i: usize = 0;
    while i < CELLS
        invariant
            i <= CELLS == cells@.len(),
            spaces@.len() == i,
            joined(spaces@, i as int) == cells_text(cells@, i as int),
        decreases CELLS - i,
    {
        let ghost before = spaces@;
        spaces.push(printable_space(i as i64, cells[i]));
        proof {
            lemma_joined_prefix(before, spaces@, i as int);
        }
        i += 1;
    }
    flatten(spaces.as_slice())
}

/// Texts that agree in their first `n` places are the same when joined up
/// to there.
proof fn lemma_joined_prefix(short: Seq<String>, long: Seq<String>, n: int)
    requires
        0 <= n <= short.len() <= long.len(),
        forall|k: int| 0 <= k < n ==> short[k] == long[k],
    ensures
        joined(short, n) == joined(long, n),
    decreases n,
{
    if n > 0 {
        lemma_joined_prefix(short, long, n - 1);
    }
}

/// The output side of the console: it turns boards and menus into text and
/// hands the text to its writer.
#[derive(Debug, PartialEq, Eq)]
pub struct ConsoleOutput {
    pub writer: ConsoleWriter,
}

impl ConsoleOutput {
    /// The output that prints to `writer`.
    pub fn new(writer: ConsoleWriter) -> (output: ConsoleOutput)
        ensures
            output.writer == writer,
    {
        ConsoleOutput { writer }
    }

    /// The writer after the board was printed.
    pub fn print_board(&self, board: Board) -> (writer: ConsoleWriter)
        ensures
            writer@ == match self.writer {
                ConsoleWriter::MockWriter { printed_str } => grid(board@) + error_text(
                    board.message(),
                ),
                ConsoleWriter::RealWriter => Seq::empty(),
            },
            writer is RealWriter <==> self.writer is RealWriter,
    {
        let printable_board = self.printable_board(board.clone());
        self.writer.println(printable_board)
    }

    /// The text of the board: the nine cells, and below them the board's
    /// message if it carries one.
    pub fn printable_board(&self, board: Board) -> (text: String)
        ensures
            text@ == grid(board@) + error_text(board.message()),
    {
        let mut text = printable_grid(&board);
        let error = self.printable_error_message(board.error_message());
        text.append(error.as_str());
        text
    }

    /// The text of the cell at `index` that holds `token`.
    pub fn printable_space(&self, index: i64, token: char) -> (text: String)
        ensures
            text@ == space_text(index as int, token),
    {
        printable_space(index, token)
    }

    /// The text of a message below the board.
    pub fn printable_error_message(&self, error: Option<String>) -> (text: String)
        ensures
            text@ == error_text(text_of(error)),
    {
        match error {
            Some(message) => {
                let mut text = String::from_str("\n\n");
                text.append(message.as_str());
                text
            },
            None => String::new(),
        }
    }

    /// Whether the cell at `index` ends a row.
    pub fn is_right_edge(&self, index: i64) -> (edge: bool)
        ensures
            edge == (index >= 0 && index % 3 == 2),
    {
        is_right_edge(index)
    }

    /// Whether the cell at `index` is the last one.
    pub fn is_bottom_right_corner(&self, index: i64) -> (corner: bool)
        ensures
            corner == (index == 8),
    {
        is_bottom_right_corner(index)
    }

    /// The texts one after the other.
    pub fn flatten(&self, arr: &[String]) -> (text: String)
        ensures
            text@ == joined(arr@, arr@.len() as int),
    {
        flatten(arr)
    }

    /// The writer after the characters that clear the screen were printed.
    /// They work on terminals that follow the VT100.
    pub fn clear_screen(&self) -> (writer: ConsoleWriter)
        ensures
            writer@ == match self.writer {
                ConsoleWriter::MockWriter { printed_str } => clear_text(),
                ConsoleWriter::RealWriter => Seq::empty(),
            },
            writer is RealWriter <==> self.writer is RealWriter,
    {
        self.writer.println(String::from_str("\x1b[2J\x1b[H"))
    }

    /// The writer after the menu was printed.
    pub fn print_menu(&self) -> (writer: ConsoleWriter)
        ensures
            writer@ == match self.writer {
                ConsoleWriter::MockWriter { printed_str } => menu_text(),
                ConsoleWriter::RealWriter => Seq::empty(),
            },
            writer is RealWriter <==> self.writer is RealWriter,
    {
        let mut menu_str = String::from_str("Please select the game type:\n\n");
        menu_str.append(" 1) Human vs. Human\n");
        menu_str.append(" 2) Human vs. Computer\n");
        menu_str.append(" 3) Computer vs. Human\n");
        menu_str.append(" 4) Computer vs. Computer\n");
        menu_str.append(" 5) Quit\n\n");
        self.writer.println(menu_str)
    }
}

} // verus!
